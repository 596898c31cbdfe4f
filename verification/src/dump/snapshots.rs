//! Comparing the stake snapshots of two dumps.

use vstd::prelude::*;
use crate::dump::compare::{compare_optional, optional_compared, record_total, total_of, PoolRecord, SnapshotRecord};
use crate::dump::report::{
    differ_text, found, note, note_amount, noted, noted_amount, numbers_differ, remark, sides, sides_text, Finding,
    FindingModel,
};
use crate::table::{listing, Table};
use crate::text::{
    can_cut, cut, cuts, decimal, decimal_chars, first_bytes, has_prefix, lemma_first_fits, starts_with,
};

verus! {

// ---- names ----

/// A pool by the first 56 bytes of its name, which hold 28 bytes in
/// hexadecimal.
pub open spec fn pool_name(s: Seq<char>) -> Seq<char> {
    first_bytes(s, 56)
}

/// The name of a pool without what follows its first 28 bytes.
pub fn short_pool(s: &str) -> (r: String)
    requires
        cuts(s@, 56),
    ensures
        r@ == pool_name(s@),
{
    cut(s, 56)
}

/// The hash of a credential, without the kind that may stand before it.
pub open spec fn hash_part(s: Seq<char>) -> Seq<char> {
    if has_prefix(s, "keyHash-"@) {
        s.skip("keyHash-"@.len() as int)
    } else {
        s
    }
}

fn hash_text(s: &str) -> (r: String)
    ensures
        r@ == hash_part(s@),
{
    if starts_with(s, "keyHash-") {
        let n: usize = s.unicode_len();
        let from: usize = "keyHash-".unicode_len();
        assert(s@.subrange(from as int, n as int) =~= s@.skip(from as int));
        s.substring_char(from, n).to_string()
    } else {
        s.to_string()
    }
}

/// A credential by the first 28 bytes of its hash, whether or not its kind
/// stands before it.
pub open spec fn normalized(s: Seq<char>) -> Seq<char> {
    "keyHash-"@ + first_bytes(hash_part(s), 56)
}

/// Whether the hash of a credential can be cut behind its first 28 bytes.
pub open spec fn cred_cuts(s: Seq<char>) -> bool {
    cuts(hash_part(s), 56)
}

/// Whether the name of a credential can be normalized.
pub fn can_normalize(s: &str) -> (r: bool)
    ensures
        r == cred_cuts(s@),
{
    can_cut(hash_text(s).as_str(), 56)
}

/// Normalizes the name of a credential.
pub fn normalize_cred(s: &str) -> (r: String)
    requires
        cred_cuts(s@),
    ensures
        r@ == normalized(s@),
{
    let mut r = "keyHash-".to_string();
    r.append(cut(hash_text(s).as_str(), 56).as_str());
    r
}

/// A normalized name can be normalized again, which changes nothing.
pub proof fn law_normalizing_settles(s: Seq<char>)
    ensures
        cred_cuts(normalized(s)),
        normalized(normalized(s)) == normalized(s),
{
    let p = "keyHash-"@;
    let t = normalized(s);
    assert(t.take(p.len() as int) =~= p);
    assert(t.skip(p.len() as int) =~= first_bytes(hash_part(s), 56));
    lemma_first_fits(hash_part(s), 56);
}

// ---- stake ----

/// The stake of each credential by its normalized name; a value that is no
/// number counts as zero, and of two with one name the later counts.
pub open spec fn stake_by_name(l: Seq<(String, Option<u64>)>) -> Map<Seq<char>, u64>
    decreases l.len(),
{
    if l.len() == 0 {
        Map::empty()
    } else {
        stake_by_name(l.drop_last()).insert(
            normalized(l.last().0@),
            match l.last().1 {
                Some(n) => n,
                None => 0,
            },
        )
    }
}

/// Every name in a list can be normalized.
pub open spec fn names_cut(l: Seq<(String, Option<u64>)>) -> bool {
    forall|i: int| 0 <= i < l.len() ==> cred_cuts(#[trigger] l[i].0@)
}

/// Whether every name in a list can be normalized.
pub fn check_names(l: &Vec<(String, Option<u64>)>) -> (r: bool)
    ensures
        r == names_cut(l@),
{
    let mut i: usize = 0;
    while i < l.len()
        invariant
            i <= l@.len(),
            forall|j: int| 0 <= j < i ==> cred_cuts(#[trigger] l@[j].0@),
        decreases l@.len() - i,
    {
        if !can_normalize(l[i].0.as_str()) {
            assert(!cred_cuts(l@[i as int].0@));
            return false;
        }
        i += 1;
    }
    true
}

fn name_stake(l: &Vec<(String, Option<u64>)>) -> (r: Table<String, u64>)
    requires
        names_cut(l@),
    ensures
        r@ == stake_by_name(l@),
{
    let mut r: Table<String, u64> = Table::new();
    let mut i: usize = 0;
    while i < l.len()
        invariant
            i <= l@.len(),
            names_cut(l@),
            r@ == stake_by_name(l@.take(i as int)),
        decreases l@.len() - i,
    {
        proof {
            assert(l@.take(i + 1).drop_last() =~= l@.take(i as int));
            assert(l@.take(i + 1).last() == l@[i as int]);
        }
        let x: u64 = match l[i].1 {
            Some(n) => n,
            None => 0,
        };
        r.insert(normalize_cred(l[i].0.as_str()), x);
        i += 1;
    }
    assert(l@.take(i as int) =~= l@);
    r
}

/// Where the stake of a credential stands.
pub open spec fn stake_place(name: Seq<char>, cred: Seq<char>) -> Seq<char> {
    "snapshots."@ + name + ".stake["@ + cred + "]"@
}

fn stake_place_text(name: &str, cred: &str) -> (r: String)
    ensures
        r@ == stake_place(name@, cred@),
{
    let mut r = "snapshots.".to_string();
    r.append(name);
    r.append(".stake[");
    r.append(cred);
    r.append("]");
    r
}

pub open spec fn number_at(m: Map<Seq<char>, u64>, k: Seq<char>) -> u64 {
    if m.dom().contains(k) {
        m[k]
    } else {
        0
    }
}

/// Credentials of the Haskell dump whose stake differs.
pub open spec fn stake_differs(l: Seq<FindingModel>, name: Seq<char>, h: Seq<(Seq<char>, u64)>, r: Map<Seq<char>, u64>) -> Seq<
    FindingModel,
>
    decreases h.len(),
{
    if h.len() == 0 {
        l
    } else {
        let t = stake_differs(l, name, h.drop_last(), r);
        let (cred, hv) = h.last();
        if hv == number_at(r, cred) {
            t
        } else {
            noted(
                t,
                sides(stake_place(name, cred), decimal_chars(hv as nat), decimal_chars(number_at(r, cred) as nat)),
            )
        }
    }
}

/// Credentials that the Haskell dump does not have.
pub open spec fn stake_extra(l: Seq<FindingModel>, name: Seq<char>, r: Seq<(Seq<char>, u64)>, h: Map<Seq<char>, u64>) -> Seq<
    FindingModel,
>
    decreases r.len(),
{
    if r.len() == 0 {
        l
    } else {
        let t = stake_extra(l, name, r.drop_last(), h);
        let (cred, rv) = r.last();
        if h.dom().contains(cred) {
            t
        } else {
            noted(t, stake_place(name, cred) + ": missing in haskell, hayate="@ + decimal_chars(rv as nat))
        }
    }
}

/// The stake of two snapshots, credential by credential in order of their
/// names.
pub open spec fn stake_compared(l: Seq<FindingModel>, name: Seq<char>, h: Map<Seq<char>, u64>, r: Map<Seq<char>, u64>) -> Seq<
    FindingModel,
> {
    stake_extra(stake_differs(l, name, listing::<String, u64>(h), r), name, listing::<String, u64>(r), h)
}

fn compare_stake(out: &mut Vec<Finding>, name: &str, h: &Table<String, u64>, r: &Table<String, u64>)
    ensures
        found(final(out)@) == stake_compared(found(old(out)@), name@, h@, r@),
{
    let ghost start = found(out@);
    let ghost hl = h.entries();
    let ghost rl = r.entries();
    let n: usize = h.len();
    let k: usize = r.len();
    proof {
        h.lemma_entries();
        r.lemma_entries();
    }
    let mut i: usize = 0;
    while i < n
        invariant
            i <= n,
            n == hl.len(),
            hl == h.entries(),
            found(out@) == stake_differs(start, name@, hl.take(i as int), r@),
        decreases n - i,
    {
        proof {
            assert(hl.take(i + 1).drop_last() =~= hl.take(i as int));
            assert(hl.take(i + 1).last() == hl[i as int]);
        }
        let cred = h.key_at(i);
        let hv: u64 = *h.value_at(i);
        let rv: u64 = match r.get(cred) {
            Some(x) => *x,
            None => 0,
        };
        if hv != rv {
            let place = stake_place_text(name, cred.as_str());
            note(out, sides_text(place.as_str(), decimal(hv).as_str(), decimal(rv).as_str()));
        }
        i += 1;
    }
    assert(hl.take(i as int) =~= hl);
    let ghost middle = found(out@);
    let mut j: usize = 0;
    while j < k
        invariant
            j <= k,
            k == rl.len(),
            rl == r.entries(),
            found(out@) == stake_extra(middle, name@, rl.take(j as int), h@),
        decreases k - j,
    {
        proof {
            assert(rl.take(j + 1).drop_last() =~= rl.take(j as int));
            assert(rl.take(j + 1).last() == rl[j as int]);
        }
        let cred = r.key_at(j);
        if !h.contains_key(cred) {
            let mut t = stake_place_text(name, cred.as_str());
            t.append(": missing in haskell, hayate=");
            t.append(decimal(*r.value_at(j)).as_str());
            note(out, t);
        }
        j += 1;
    }
    assert(rl.take(j as int) =~= rl);
}

// ---- pools ----

/// Where a pool stands in a list, by its name.
pub open spec fn pool_index(l: Seq<PoolRecord>, id: Seq<char>) -> Option<int>
    decreases l.len(),
{
    if l.len() == 0 {
        None
    } else {
        match pool_index(l.drop_last(), id) {
            Some(i) => Some(i),
            None => if l.last().id@ == id {
                Some(l.len() - 1)
            } else {
                None
            },
        }
    }
}

proof fn lemma_pool_index(l: Seq<PoolRecord>, id: Seq<char>, i: int)
    requires
        0 <= i <= l.len(),
        pool_index(l.take(i), id) is Some,
    ensures
        pool_index(l, id) == pool_index(l.take(i), id),
    decreases l.len() - i,
{
    if i == l.len() {
        assert(l.take(i) =~= l);
    } else {
        assert(l.take(i + 1).drop_last() =~= l.take(i));
        lemma_pool_index(l, id, i + 1);
    }
}

fn find_pool(l: &Vec<PoolRecord>, id: &String) -> (r: Option<usize>)
    ensures
        match r {
            Some(i) => i < l@.len() && pool_index(l@, id@) == Some(i as int),
            None => pool_index(l@, id@) is None,
        },
{
    let mut i: usize = 0;
    while i < l.len()
        invariant
            i <= l@.len(),
            pool_index(l@.take(i as int), id@) is None,
        decreases l@.len() - i,
    {
        proof {
            assert(l@.take(i + 1).drop_last() =~= l@.take(i as int));
            assert(l@.take(i + 1).last() == l@[i as int]);
        }
        if l[i].id == *id {
            proof {
                lemma_pool_index(l@, id@, i + 1);
            }
            return Some(i);
        }
        i += 1;
    }
    assert(l@.take(i as int) =~= l@);
    None
}

/// The pool of a list that goes by a name or by its first 28 bytes.
pub open spec fn counterpart_of(l: Seq<PoolRecord>, id: Seq<char>) -> Option<int> {
    match pool_index(l, pool_name(id)) {
        Some(i) => Some(i),
        None => pool_index(l, id),
    }
}

/// Finds the pool that goes by a name or by its first 28 bytes.
pub fn counterpart(l: &Vec<PoolRecord>, id: &String) -> (r: Option<usize>)
    requires
        cuts(id@, 56),
    ensures
        match r {
            Some(i) => i < l@.len() && counterpart_of(l@, id@) == Some(i as int),
            None => counterpart_of(l@, id@) is None,
        },
{
    match find_pool(l, &short_pool(id.as_str())) {
        Some(i) => Some(i),
        None => find_pool(l, id),
    }
}

pub open spec fn pool_place(name: Seq<char>, pool: Seq<char>) -> Seq<char> {
    "snapshots."@ + name + ".poolParams["@ + pool + "]"@
}

fn pool_place_text(name: &str, pool: &str) -> (r: String)
    ensures
        r@ == pool_place(name@, pool@),
{
    let mut r = "snapshots.".to_string();
    r.append(name);
    r.append(".poolParams[");
    r.append(pool);
    r.append("]");
    r
}

/// One pool of the Haskell dump against the other dump.
pub open spec fn pool_compared(l: Seq<FindingModel>, name: Seq<char>, h: PoolRecord, r: Seq<PoolRecord>) -> Seq<
    FindingModel,
> {
    let place = pool_place(name, pool_name(h.id@));
    match counterpart_of(r, h.id@) {
        Some(i) => {
            let l = optional_compared(l, place + ".pledge"@, h.pledge, r[i].pledge);
            optional_compared(l, place + ".cost"@, h.cost, r[i].cost)
        },
        None => noted(l, place + ": missing in hayate"@),
    }
}

pub open spec fn pools_differ(l: Seq<FindingModel>, name: Seq<char>, h: Seq<PoolRecord>, r: Seq<PoolRecord>) -> Seq<
    FindingModel,
>
    decreases h.len(),
{
    if h.len() == 0 {
        l
    } else {
        pool_compared(pools_differ(l, name, h.drop_last(), r), name, h.last(), r)
    }
}

/// Pools that the Haskell dump does not have.
pub open spec fn pools_extra(l: Seq<FindingModel>, name: Seq<char>, r: Seq<PoolRecord>, h: Seq<PoolRecord>) -> Seq<
    FindingModel,
>
    decreases r.len(),
{
    if r.len() == 0 {
        l
    } else {
        let t = pools_extra(l, name, r.drop_last(), h);
        if counterpart_of(h, r.last().id@) is Some {
            t
        } else {
            noted(t, pool_place(name, pool_name(r.last().id@)) + ": extra pool in hayate"@)
        }
    }
}

pub open spec fn pools_compared(
    l: Seq<FindingModel>,
    name: Seq<char>,
    h: Option<Vec<PoolRecord>>,
    r: Option<Vec<PoolRecord>>,
) -> Seq<FindingModel> {
    match (h, r) {
        (Some(h), Some(r)) => pools_extra(pools_differ(l, name, h@, r@), name, r@, h@),
        _ => l,
    }
}

fn compare_pool(out: &mut Vec<Finding>, name: &str, h: &PoolRecord, r: &Vec<PoolRecord>)
    requires
        cuts(h.id@, 56),
    ensures
        found(final(out)@) == pool_compared(found(old(out)@), name@, *h, r@),
{
    let place = pool_place_text(name, short_pool(h.id.as_str()).as_str());
    match counterpart(r, &h.id) {
        Some(i) => {
            compare_optional(out, remark(place.as_str(), ".pledge").as_str(), h.pledge, r[i].pledge);
            compare_optional(out, remark(place.as_str(), ".cost").as_str(), h.cost, r[i].cost);
        },
        None => note(out, remark(place.as_str(), ": missing in hayate")),
    }
}

/// The name of every pool in a list can be shortened.
pub open spec fn pools_cut(l: Seq<PoolRecord>) -> bool {
    forall|i: int| 0 <= i < l.len() ==> cuts(#[trigger] l[i].id@, 56)
}

fn check_pools(l: &Vec<PoolRecord>) -> (r: bool)
    ensures
        r == pools_cut(l@),
{
    let mut i: usize = 0;
    while i < l.len()
        invariant
            i <= l@.len(),
            forall|j: int| 0 <= j < i ==> cuts(#[trigger] l@[j].id@, 56),
        decreases l@.len() - i,
    {
        if !can_cut(l[i].id.as_str(), 56) {
            assert(!cuts(l@[i as int].id@, 56));
            return false;
        }
        i += 1;
    }
    true
}

/// Pools are compared where both dumps have them.
pub open spec fn both_pools_cut(h: Option<Vec<PoolRecord>>, r: Option<Vec<PoolRecord>>) -> bool {
    match (h, r) {
        (Some(h), Some(r)) => pools_cut(h@) && pools_cut(r@),
        _ => true,
    }
}

fn compare_pools(out: &mut Vec<Finding>, name: &str, h: &Option<Vec<PoolRecord>>, r: &Option<Vec<PoolRecord>>)
    requires
        both_pools_cut(*h, *r),
    ensures
        found(final(out)@) == pools_compared(found(old(out)@), name@, *h, *r),
{
    match (h, r) {
        (Some(h), Some(r)) => {
            let ghost start = found(out@);
            let mut i: usize = 0;
            while i < h.len()
                invariant
                    i <= h@.len(),
                    pools_cut(h@),
                    found(out@) == pools_differ(start, name@, h@.take(i as int), r@),
                decreases h@.len() - i,
            {
                proof {
                    assert(h@.take(i + 1).drop_last() =~= h@.take(i as int));
                    assert(h@.take(i + 1).last() == h@[i as int]);
                }
                compare_pool(out, name, &h[i], r);
                i += 1;
            }
            assert(h@.take(i as int) =~= h@);
            let ghost middle = found(out@);
            let mut j: usize = 0;
            while j < r.len()
                invariant
                    j <= r@.len(),
                    pools_cut(r@),
                    found(out@) == pools_extra(middle, name@, r@.take(j as int), h@),
                decreases r@.len() - j,
            {
                proof {
                    assert(r@.take(j + 1).drop_last() =~= r@.take(j as int));
                    assert(r@.take(j + 1).last() == r@[j as int]);
                }
                if counterpart(h, &r[j].id).is_none() {
                    let place = pool_place_text(name, short_pool(r[j].id.as_str()).as_str());
                    note(out, remark(place.as_str(), ": extra pool in hayate"));
                }
                j += 1;
            }
            assert(r@.take(j as int) =~= r@);
        },
        _ => {},
    }
}

// ---- snapshots ----

pub open spec fn total_place(name: Seq<char>) -> Seq<char> {
    "snapshots."@ + name + ".totalStake"@
}

pub open spec fn snapshot_place(name: Seq<char>) -> Seq<char> {
    "snapshots."@ + name
}

/// Stake that can be counted in `u64`, of credentials that can be normalized.
pub open spec fn stake_fits(l: Seq<(String, Option<u64>)>) -> bool {
    record_total(l) <= u64::MAX && names_cut(l)
}

fn check_stake(l: &Vec<(String, Option<u64>)>) -> (r: bool)
    ensures
        r == stake_fits(l@),
{
    total_of(l).is_some() && check_names(l)
}

/// The stake of two snapshots: together and credential by credential.
pub open spec fn snapshot_stake_compared(
    l: Seq<FindingModel>,
    name: Seq<char>,
    h: Seq<(String, Option<u64>)>,
    r: Seq<(String, Option<u64>)>,
    amount: bool,
) -> Seq<FindingModel> {
    let ht = record_total(h) as u64;
    let rt = record_total(r) as u64;
    let l = if record_total(h) == record_total(r) {
        l
    } else if amount {
        noted_amount(l, numbers_differ(total_place(name), ht, rt), rt - ht)
    } else {
        noted(l, numbers_differ(total_place(name), ht, rt))
    };
    stake_compared(l, name, stake_by_name(h), stake_by_name(r))
}

fn compare_snapshot_stake(
    out: &mut Vec<Finding>,
    name: &str,
    h: &Vec<(String, Option<u64>)>,
    r: &Vec<(String, Option<u64>)>,
    amount: bool,
)
    requires
        stake_fits(h@),
        stake_fits(r@),
    ensures
        found(final(out)@) == snapshot_stake_compared(found(old(out)@), name@, h@, r@, amount),
{
    match (total_of(h), total_of(r)) {
        (Some(ht), Some(rt)) => {
            if ht != rt {
                let mut place = remark("snapshots.", name);
                place.append(".totalStake");
                let text = differ_text(place.as_str(), ht, rt);
                if amount {
                    note_amount(out, text, ht, rt);
                } else {
                    note(out, text);
                }
            }
        },
        _ => {},
    }
    compare_stake(out, name, &name_stake(h), &name_stake(r));
}

/// A snapshot that is null holds nothing.
pub open spec fn stake_held(s: Option<SnapshotRecord>) -> Seq<(String, Option<u64>)> {
    match s {
        Some(s) => s.stake@,
        None => Seq::empty(),
    }
}

pub open spec fn pools_held(s: Option<SnapshotRecord>) -> Option<Vec<PoolRecord>> {
    match s {
        Some(s) => s.pools,
        None => None,
    }
}

/// What a comparison of two snapshots takes from them can be counted and
/// shortened.
pub open spec fn snapshots_fit(h: Option<Option<SnapshotRecord>>, r: Option<Option<SnapshotRecord>>) -> bool {
    match (h, r) {
        (Some(h), Some(r)) => stake_fits(stake_held(h)) && stake_fits(stake_held(r)) && both_pools_cut(
            pools_held(h),
            pools_held(r),
        ),
        _ => true,
    }
}

fn check_held(s: &Option<SnapshotRecord>) -> (r: bool)
    ensures
        r == stake_fits(stake_held(*s)),
{
    match s {
        Some(s) => check_stake(&s.stake),
        None => true,
    }
}

/// Whether two snapshots can be compared.
pub fn check_snapshots(h: &Option<Option<SnapshotRecord>>, r: &Option<Option<SnapshotRecord>>) -> (ok: bool)
    ensures
        ok == snapshots_fit(*h, *r),
{
    match (h, r) {
        (Some(h), Some(r)) => check_held(h) && check_held(r) && match (h, r) {
            (Some(h), Some(r)) => match (&h.pools, &r.pools) {
                (Some(h), Some(r)) => check_pools(h) && check_pools(r),
                _ => true,
            },
            _ => true,
        },
        _ => true,
    }
}

/// What is critical about one snapshot of two dumps.
pub open spec fn snapshot_critical(
    l: Seq<FindingModel>,
    name: Seq<char>,
    h: Option<Option<SnapshotRecord>>,
    r: Option<Option<SnapshotRecord>>,
) -> Seq<FindingModel> {
    match (h, r) {
        (Some(h), Some(r)) => pools_compared(
            snapshot_stake_compared(l, name, stake_held(h), stake_held(r), false),
            name,
            pools_held(h),
            pools_held(r),
        ),
        (Some(_), None) => noted(l, snapshot_place(name) + ": missing in hayate"@),
        _ => l,
    }
}

/// What deserves a warning.
pub open spec fn snapshot_warnings(
    l: Seq<FindingModel>,
    name: Seq<char>,
    h: Option<Option<SnapshotRecord>>,
    r: Option<Option<SnapshotRecord>>,
) -> Seq<FindingModel> {
    match (h, r) {
        (None, Some(_)) => noted(l, snapshot_place(name) + ": missing in haskell"@),
        _ => l,
    }
}

/// Compares one snapshot of two dumps.
pub fn compare_snapshot(
    critical: &mut Vec<Finding>,
    warnings: &mut Vec<Finding>,
    name: &str,
    h: &Option<Option<SnapshotRecord>>,
    r: &Option<Option<SnapshotRecord>>,
)
    requires
        snapshots_fit(*h, *r),
    ensures
        found(final(critical)@) == snapshot_critical(found(old(critical)@), name@, *h, *r),
        found(final(warnings)@) == snapshot_warnings(found(old(warnings)@), name@, *h, *r),
{
    match (h, r) {
        (Some(h), Some(r)) => {
            let nothing: Vec<(String, Option<u64>)> = Vec::new();
            let no_pools: Option<Vec<PoolRecord>> = None;
            let (hs, hp) = match h {
                Some(x) => (&x.stake, &x.pools),
                None => (&nothing, &no_pools),
            };
            let (rs, rp) = match r {
                Some(x) => (&x.stake, &x.pools),
                None => (&nothing, &no_pools),
            };
            assert(hs@ =~= stake_held(*h));
            assert(rs@ =~= stake_held(*r));
            compare_snapshot_stake(critical, name, hs, rs, false);
            compare_pools(critical, name, hp, rp);
        },
        (Some(_), None) => {
            let place = remark("snapshots.", name);
            note(critical, remark(place.as_str(), ": missing in hayate"));
        },
        (None, Some(_)) => {
            let place = remark("snapshots.", name);
            note(warnings, remark(place.as_str(), ": missing in haskell"));
        },
        (None, None) => {},
    }
}

/// The stake of one snapshot, where both dumps hold it. One that only the
/// Haskell dump has is noted.
pub open spec fn stake_only_compared(
    l: Seq<FindingModel>,
    name: Seq<char>,
    h: Option<Option<SnapshotRecord>>,
    r: Option<Option<SnapshotRecord>>,
) -> Seq<FindingModel> {
    match (h, r) {
        (Some(Some(h)), Some(Some(r))) => snapshot_stake_compared(l, name, h.stake@, r.stake@, true),
        (Some(_), None) => noted(l, snapshot_place(name) + ": missing in hayate"@),
        _ => l,
    }
}

/// The stake of two snapshots can be counted and its credentials normalized,
/// where both dumps hold it.
pub open spec fn stakes_fit(h: Option<Option<SnapshotRecord>>, r: Option<Option<SnapshotRecord>>) -> bool {
    match (h, r) {
        (Some(Some(h)), Some(Some(r))) => stake_fits(h.stake@) && stake_fits(r.stake@),
        _ => true,
    }
}

/// Whether the stake of two snapshots can be compared.
pub fn check_stakes(h: &Option<Option<SnapshotRecord>>, r: &Option<Option<SnapshotRecord>>) -> (ok: bool)
    ensures
        ok == stakes_fit(*h, *r),
{
    match (h, r) {
        (Some(Some(h)), Some(Some(r))) => check_stake(&h.stake) && check_stake(&r.stake),
        _ => true,
    }
}

/// Compares the stake of one snapshot.
pub fn compare_stake_only(
    out: &mut Vec<Finding>,
    name: &str,
    h: &Option<Option<SnapshotRecord>>,
    r: &Option<Option<SnapshotRecord>>,
)
    requires
        stakes_fit(*h, *r),
    ensures
        found(final(out)@) == stake_only_compared(found(old(out)@), name@, *h, *r),
{
    match (h, r) {
        (Some(Some(h)), Some(Some(r))) => compare_snapshot_stake(out, name, &h.stake, &r.stake, true),
        (Some(_), None) => {
            let place = remark("snapshots.", name);
            note(out, remark(place.as_str(), ": missing in hayate"));
        },
        _ => {},
    }
}

} // verus!
