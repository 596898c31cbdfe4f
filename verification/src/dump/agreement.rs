//! What it means that a comparison finds nothing, and what it says where it
//! finds something.

use vstd::prelude::*;
use crate::dump::compare::{
    deposits_compared, drep_total, era_compared, number_compared, optional_compared, params_compared, record_total,
    reward_compared, reward_place, rewards_compared, rupd_compared, DepositRecord, DumpRecord, GovernanceRecord, PoolRecord,
    RewardRecord, SnapshotRecord, Wording,
};
use crate::dump::epochs::{dumps_compared, epoch_critical, epoch_warnings, governance_stake};
use crate::dump::governance::{
    action_compared, committee_compared, drep_count, dreps_compared, gov_critical, gov_warnings, url_differs, url_missing,
};
use crate::dump::report::{optional_chars, signed_chars, FindingModel};
use crate::dump::snapshots::{
    counterpart_of, normalized, number_at, pool_compared, pool_index, pools_compared, pools_differ, pools_extra, pools_held,
    snapshot_critical, snapshot_stake_compared, snapshot_warnings, stake_by_name, stake_compared, stake_differs, stake_extra,
    stake_held, stake_only_compared,
};
use crate::table::{lemma_listing, listing};
use crate::text::{decimal_chars, first_bytes};

verus! {

// ---- findings ----

/// Whether a list of findings starts with another.
pub open spec fn keeps(l: Seq<FindingModel>, m: Seq<FindingModel>) -> bool {
    l.len() <= m.len() && forall|i: int| #![trigger m[i]] 0 <= i < l.len() ==> m[i] == l[i]
}

/// What is said of two numbers that differ, or of which one is missing.
pub open spec fn said(place: Seq<char>, h: Option<u64>, r: Option<u64>) -> Seq<char> {
    match (h, r) {
        (Some(h), Some(r)) => place + ": haskell="@ + decimal_chars(h as nat) + " hayate="@ + decimal_chars(r as nat)
            + " diff="@ + signed_chars(r - h),
        (Some(_), None) => place + ": missing in hayate"@,
        (None, Some(_)) => place + ": missing in haskell"@,
        (None, None) => place,
    }
}

/// Whether a finding says that two numbers differ.
pub open spec fn tells(m: Seq<FindingModel>, place: Seq<char>, h: Option<u64>, r: Option<u64>) -> bool {
    exists|i: int| #![trigger m[i]] 0 <= i < m.len() && m[i].text == said(place, h, r)
}

proof fn lemma_tells(l: Seq<FindingModel>, m: Seq<FindingModel>, place: Seq<char>, h: Option<u64>, r: Option<u64>)
    requires
        keeps(l, m),
        tells(l, place, h, r),
    ensures
        tells(m, place, h, r),
{
    let i = choose|i: int| #![trigger l[i]] 0 <= i < l.len() && l[i].text == said(place, h, r);
    assert(m[i] == l[i]);
}

/// Two numbers that are the same raise nothing; others raise one finding, which
/// has their difference where they are amounts.
pub proof fn law_numbers(
    l: Seq<FindingModel>,
    place: Seq<char>,
    h: Option<u64>,
    r: Option<u64>,
    w: Wording,
    amount: bool,
)
    ensures
        ({
            let m = number_compared(l, place, h, r, w, amount);
            &&& keeps(l, m)
            &&& h == r ==> m == l
            &&& h != r ==> m.len() == l.len() + 1
            &&& h != r && (w is Short || h is Some && r is Some) ==> m.last().text == said(place, h, r)
            &&& h matches Some(x) ==> r matches Some(y) ==> x != y ==> m.last().lovelace == (if amount {
                Some(y - x)
            } else {
                None::<int>
            })
            &&& h is Some && r is None && w is Sides ==> m.last().text == place + ": haskell="@ + decimal_chars(
                h->0 as nat,
            ) + " hayate="@ + "missing"@
            &&& h is None && r is Some && w is Sides ==> m.last().text == place + ": haskell="@ + "missing"@ + " hayate="@
                + decimal_chars(r->0 as nat)
            &&& h is Some && r is None && w is Number ==> m.last().text == place + ": haskell="@ + decimal_chars(
                h->0 as nat,
            ) + ", missing in hayate"@
            &&& h is None && r is Some && w is Number ==> m.last().text == place + ": missing in haskell, hayate="@
                + decimal_chars(r->0 as nat)
        }),
{
}

proof fn lemma_number(l: Seq<FindingModel>, place: Seq<char>, h: Option<u64>, r: Option<u64>, w: Wording, amount: bool)
    ensures
        ({
            let m = number_compared(l, place, h, r, w, amount);
            &&& keeps(l, m)
            &&& (m.len() == l.len()) == (h == r)
            &&& h == r ==> m == l
            &&& h != r && w is Short ==> tells(m, place, h, r)
        }),
{
    let m = number_compared(l, place, h, r, w, amount);
    law_numbers(l, place, h, r, w, amount);
    if h != r && w is Short {
        assert(m[m.len() - 1] == m.last());
    }
}

proof fn lemma_deposits(l: Seq<FindingModel>, h: DepositRecord, r: DepositRecord)
    ensures
        ({
            let m = deposits_compared(l, h, r);
            &&& keeps(l, m)
            &&& (m.len() == l.len()) == (h == r)
            &&& h == r ==> m == l
            &&& h.stake_key != r.stake_key ==> tells(m, "deposits.stakeKey"@, h.stake_key, r.stake_key)
            &&& h.pool != r.pool ==> tells(m, "deposits.pool"@, h.pool, r.pool)
            &&& h.drep != r.drep ==> tells(m, "deposits.dRep"@, h.drep, r.drep)
            &&& h.proposal != r.proposal ==> tells(m, "deposits.proposal"@, h.proposal, r.proposal)
            &&& h.total != r.total ==> tells(m, "deposits.total"@, h.total, r.total)
        }),
{
    let a = number_compared(l, "deposits.stakeKey"@, h.stake_key, r.stake_key, Wording::Short, false);
    let b = number_compared(a, "deposits.pool"@, h.pool, r.pool, Wording::Short, false);
    let c = number_compared(b, "deposits.dRep"@, h.drep, r.drep, Wording::Short, false);
    let d = number_compared(c, "deposits.proposal"@, h.proposal, r.proposal, Wording::Short, false);
    let m = number_compared(d, "deposits.total"@, h.total, r.total, Wording::Short, false);
    lemma_number(l, "deposits.stakeKey"@, h.stake_key, r.stake_key, Wording::Short, false);
    lemma_number(a, "deposits.pool"@, h.pool, r.pool, Wording::Short, false);
    lemma_number(b, "deposits.dRep"@, h.drep, r.drep, Wording::Short, false);
    lemma_number(c, "deposits.proposal"@, h.proposal, r.proposal, Wording::Short, false);
    lemma_number(d, "deposits.total"@, h.total, r.total, Wording::Short, false);
    assert(m == deposits_compared(l, h, r));
    assert(keeps(a, m) && keeps(b, m) && keeps(c, m));
    if h.stake_key != r.stake_key {
        lemma_tells(a, m, "deposits.stakeKey"@, h.stake_key, r.stake_key);
    }
    if h.pool != r.pool {
        lemma_tells(b, m, "deposits.pool"@, h.pool, r.pool);
    }
    if h.drep != r.drep {
        lemma_tells(c, m, "deposits.dRep"@, h.drep, r.drep);
    }
    if h.proposal != r.proposal {
        lemma_tells(d, m, "deposits.proposal"@, h.proposal, r.proposal);
    }
}

proof fn lemma_optional(l: Seq<FindingModel>, place: Seq<char>, h: Option<u64>, r: Option<u64>)
    ensures
        ({
            let m = optional_compared(l, place, h, r);
            &&& keeps(l, m)
            &&& (m.len() == l.len()) == (h == r)
            &&& h == r ==> m == l
        }),
{
}

proof fn lemma_params(l: Seq<FindingModel>, h: Option<Option<u64>>, r: Option<Option<u64>>)
    ensures
        ({
            let m = params_compared(l, h, r);
            &&& keeps(l, m)
            &&& (m.len() == l.len()) == (h is Some && r is Some ==> h == r)
            &&& h == r ==> m == l
        }),
{
}

proof fn lemma_rewards(l: Seq<FindingModel>, epoch: u64, h: RewardRecord, r: RewardRecord)
    ensures
        ({
            let m = rewards_compared(l, epoch, h, r);
            &&& keeps(l, m)
            &&& (m.len() == l.len()) == (h == r)
            &&& h == r ==> m == l
        }),
{
    let a = reward_compared(l, epoch, "deltaR1"@, h.delta_r1, r.delta_r1);
    let b = reward_compared(a, epoch, "deltaR2"@, h.delta_r2, r.delta_r2);
    let c = reward_compared(b, epoch, "deltaT1"@, h.delta_t1, r.delta_t1);
    let d = reward_compared(c, epoch, "rPot"@, h.r_pot, r.r_pot);
    let e = reward_compared(d, epoch, "rewardPot"@, h.reward_pot, r.reward_pot);
    lemma_number(l, reward_place(epoch, "deltaR1"@), h.delta_r1, r.delta_r1, Wording::Number, true);
    lemma_number(a, reward_place(epoch, "deltaR2"@), h.delta_r2, r.delta_r2, Wording::Number, true);
    lemma_number(b, reward_place(epoch, "deltaT1"@), h.delta_t1, r.delta_t1, Wording::Number, true);
    lemma_number(c, reward_place(epoch, "rPot"@), h.r_pot, r.r_pot, Wording::Number, true);
    lemma_number(d, reward_place(epoch, "rewardPot"@), h.reward_pot, r.reward_pot, Wording::Number, true);
    lemma_number(
        e,
        reward_place(epoch, "totalDistributed"@),
        h.total_distributed,
        r.total_distributed,
        Wording::Number,
        true,
    );
    assert(keeps(a, rewards_compared(l, epoch, h, r)));
}

/// The reward update of the Haskell node: the one for the next boundary where
/// it has one.
pub open spec fn due(h: DumpRecord) -> Option<RewardRecord> {
    if h.rupd_next is Some {
        h.rupd_next
    } else {
        h.rupd
    }
}

proof fn lemma_rupd(l: Seq<FindingModel>, h: DumpRecord, next: DumpRecord, epoch: u64)
    ensures
        ({
            let m = rupd_compared(l, h, next, epoch);
            &&& keeps(l, m)
            &&& (m.len() == l.len()) == (due(h) is Some && due(h) == next.rupd)
            &&& due(h) is Some && due(h) == next.rupd ==> m == l
        }),
{
    if due(h) is Some && next.rupd is Some {
        lemma_rewards(l, epoch, due(h)->0, next.rupd->0);
    }
}

// ---- governance ----

/// Whether two texts that may be missing are the same where both are there.
pub open spec fn same_text(h: Option<String>, r: Option<String>) -> bool {
    h matches Some(a) ==> r matches Some(b) ==> a@ == b@
}

proof fn lemma_gov_critical(l: Seq<FindingModel>, h: Option<GovernanceRecord>, r: Option<GovernanceRecord>)
    ensures
        ({
            let m = gov_critical(l, h, r);
            &&& keeps(l, m)
            &&& m.len() == l.len() <==> {
                &&& h is Some ==> r is Some
                &&& h matches Some(a) ==> r matches Some(b) ==> {
                    &&& same_text(a.constitution_url, b.constitution_url)
                    &&& drep_count(a) == drep_count(b)
                    &&& drep_total(a) == drep_total(b)
                }
            }
        }),
{
    if let (Some(a), Some(b)) = (h, r) {
        let k = url_differs(l, a.constitution_url, b.constitution_url);
        assert(keeps(l, k));
        lemma_optional(k, "conwayGov.drepDistr entry count"@, drep_count(a), drep_count(b));
        assert(keeps(k, dreps_compared(k, a, b)));
    }
}

// ---- stake ----

proof fn lemma_stake_differs(
    l: Seq<FindingModel>,
    name: Seq<char>,
    h: Seq<(Seq<char>, u64)>,
    r: Map<Seq<char>, u64>,
)
    ensures
        ({
            let m = stake_differs(l, name, h, r);
            &&& keeps(l, m)
            &&& m.len() == l.len() <==> forall|i: int|
                #![trigger h[i]]
                0 <= i < h.len() ==> h[i].1 == number_at(r, h[i].0)
            &&& m.len() == l.len() ==> m == l
        }),
    decreases h.len(),
{
    if h.len() > 0 {
        let k = h.drop_last();
        lemma_stake_differs(l, name, k, r);
        assert(h.last() == h[h.len() - 1]);
        assert forall|i: int| #![trigger k[i]] 0 <= i < k.len() implies k[i] == h[i] by {}
        let m = stake_differs(l, name, h, r);
        let t = stake_differs(l, name, k, r);
        assert(keeps(t, m));
        if m.len() == l.len() {
            assert forall|i: int| #![trigger h[i]] 0 <= i < h.len() implies h[i].1 == number_at(r, h[i].0) by {
                if i < k.len() {
                    assert(k[i] == h[i]);
                }
            }
        }
    }
}

proof fn lemma_stake_extra(
    l: Seq<FindingModel>,
    name: Seq<char>,
    r: Seq<(Seq<char>, u64)>,
    h: Map<Seq<char>, u64>,
)
    ensures
        ({
            let m = stake_extra(l, name, r, h);
            &&& keeps(l, m)
            &&& m.len() == l.len() <==> forall|i: int|
                #![trigger r[i]]
                0 <= i < r.len() ==> h.dom().contains(r[i].0)
            &&& m.len() == l.len() ==> m == l
        }),
    decreases r.len(),
{
    if r.len() > 0 {
        let k = r.drop_last();
        lemma_stake_extra(l, name, k, h);
        assert(r.last() == r[r.len() - 1]);
        assert forall|i: int| #![trigger k[i]] 0 <= i < k.len() implies k[i] == r[i] by {}
        let m = stake_extra(l, name, r, h);
        let t = stake_extra(l, name, k, h);
        assert(keeps(t, m));
        if m.len() == l.len() {
            assert forall|i: int| #![trigger r[i]] 0 <= i < r.len() implies h.dom().contains(r[i].0) by {
                if i < k.len() {
                    assert(k[i] == r[i]);
                }
            }
        }
    }
}

/// Whether two lists give every credential the same stake: none has one that
/// the Haskell list does not name, and all others agree, where one that is
/// missing has none.
pub open spec fn same_stake(h: Map<Seq<char>, u64>, r: Map<Seq<char>, u64>) -> bool {
    &&& forall|c: Seq<char>| #[trigger] r.dom().contains(c) ==> h.dom().contains(c)
    &&& forall|c: Seq<char>| #[trigger]
        h.dom().contains(c) ==> h[c] == if r.dom().contains(c) {
            r[c]
        } else {
            0
        }
}

proof fn lemma_named(l: Seq<(String, Option<u64>)>)
    ensures
        stake_by_name(l).dom().finite(),
    decreases l.len(),
{
    if l.len() > 0 {
        lemma_named(l.drop_last());
    }
}

proof fn lemma_stake_compared(l: Seq<FindingModel>, name: Seq<char>, h: Map<Seq<char>, u64>, r: Map<Seq<char>, u64>)
    requires
        h.dom().finite(),
        r.dom().finite(),
    ensures
        ({
            let m = stake_compared(l, name, h, r);
            &&& keeps(l, m)
            &&& m.len() == l.len() <==> same_stake(h, r)
            &&& m.len() == l.len() ==> m == l
        }),
{
    let a = listing::<String, u64>(h);
    let b = listing::<String, u64>(r);
    lemma_listing::<String, u64>(h);
    lemma_listing::<String, u64>(r);
    lemma_stake_differs(l, name, a, r);
    let k = stake_differs(l, name, a, r);
    lemma_stake_extra(k, name, b, h);
    let m = stake_compared(l, name, h, r);
    assert(m == stake_extra(k, name, b, h));
    if m.len() == l.len() {
        assert forall|c: Seq<char>| #[trigger] r.dom().contains(c) implies h.dom().contains(c) by {
            let i = choose|i: int| #![trigger b[i]] 0 <= i < b.len() && b[i].0 == c;
            assert(h.dom().contains(b[i].0));
        }
        assert forall|c: Seq<char>| #[trigger] h.dom().contains(c) implies h[c] == (if r.dom().contains(c) {
            r[c]
        } else {
            0
        }) by {
            let i = choose|i: int| #![trigger a[i]] 0 <= i < a.len() && a[i].0 == c;
            assert(a[i].1 == number_at(r, a[i].0));
        }
    }
    if same_stake(h, r) {
        assert forall|i: int| #![trigger a[i]] 0 <= i < a.len() implies a[i].1 == number_at(r, a[i].0) by {
            assert(h.dom().contains(a[i].0));
        }
        assert forall|i: int| #![trigger b[i]] 0 <= i < b.len() implies h.dom().contains(b[i].0) by {
            assert(r.dom().contains(b[i].0));
        }
    }
}

proof fn lemma_snapshot_stake(
    l: Seq<FindingModel>,
    name: Seq<char>,
    h: Seq<(String, Option<u64>)>,
    r: Seq<(String, Option<u64>)>,
    amount: bool,
)
    ensures
        ({
            let m = snapshot_stake_compared(l, name, h, r, amount);
            &&& keeps(l, m)
            &&& m.len() == l.len() <==> record_total(h) == record_total(r) && same_stake(
                stake_by_name(h),
                stake_by_name(r),
            )
            &&& m.len() == l.len() ==> m == l
        }),
{
    lemma_named(h);
    lemma_named(r);
    let k = snapshot_stake_compared(l, name, h, r, amount);
    let ht = record_total(h) as u64;
    let rt = record_total(r) as u64;
    let place = crate::dump::snapshots::total_place(name);
    let text = crate::dump::report::numbers_differ(place, ht, rt);
    let a = if record_total(h) == record_total(r) {
        l
    } else if amount {
        crate::dump::report::noted_amount(l, text, rt - ht)
    } else {
        crate::dump::report::noted(l, text)
    };
    assert(keeps(l, a));
    lemma_stake_compared(a, name, stake_by_name(h), stake_by_name(r));
    assert(k == stake_compared(a, name, stake_by_name(h), stake_by_name(r)));
}

/// A list gives the stake of a credential under its normalized name; of two
/// entries with one name the later one counts, and one that is no number counts
/// as zero.
pub proof fn law_stake_by_name(l: Seq<(String, Option<u64>)>, x: (String, Option<u64>), c: Seq<char>)
    ensures
        ({
            let (a, b) = (stake_by_name(l), stake_by_name(l.push(x)));
            let k = normalized(x.0@);
            &&& b.dom().contains(k)
            &&& b[k] == (if x.1 is Some { x.1->0 } else { 0 })
            &&& c != k ==> b.dom().contains(c) == a.dom().contains(c) && b[c] == a[c]
            &&& !stake_by_name(Seq::empty()).dom().contains(c)
            &&& record_total(l.push(x)) == record_total(l) + if x.1 is Some { x.1->0 as nat } else { 0 }
            &&& record_total(Seq::empty()) == 0
        }),
{
    assert(l.push(x).drop_last() =~= l);
}

// ---- pools ----

proof fn lemma_pool_found(l: Seq<PoolRecord>, id: Seq<char>)
    ensures
        pool_index(l, id) matches Some(i) ==> 0 <= i < l.len() && l[i].id@ == id,
        pool_index(l, id) is None ==> forall|i: int| #![trigger l[i]] 0 <= i < l.len() ==> l[i].id@ != id,
    decreases l.len(),
{
    if l.len() > 0 {
        let k = l.drop_last();
        lemma_pool_found(k, id);
        assert(l.last() == l[l.len() - 1]);
        assert forall|i: int| #![trigger k[i]] 0 <= i < k.len() implies k[i] == l[i] by {}
        if pool_index(l, id) is None {
            assert forall|i: int| #![trigger l[i]] 0 <= i < l.len() implies l[i].id@ != id by {
                if i < k.len() {
                    assert(k[i] == l[i]);
                }
            }
        }
    }
}

/// A pool is found in the other dump by its first 28 bytes, or else by its
/// whole name.
pub proof fn law_counterpart(l: Seq<PoolRecord>, id: Seq<char>)
    ensures
        counterpart_of(l, id) matches Some(i) ==> 0 <= i < l.len() && (l[i].id@ == first_bytes(id, 56) || l[i].id@ == id),
        counterpart_of(l, id) is None ==> forall|i: int|
            #![trigger l[i]]
            0 <= i < l.len() ==> l[i].id@ != first_bytes(id, 56) && l[i].id@ != id,
{
    lemma_pool_found(l, first_bytes(id, 56));
    lemma_pool_found(l, id);
}

/// Whether a pool of the Haskell dump is in the other one with the same pledge
/// and cost.
pub open spec fn pool_matched(p: PoolRecord, r: Seq<PoolRecord>) -> bool {
    counterpart_of(r, p.id@) matches Some(i) && p.pledge == r[i].pledge && p.cost == r[i].cost
}

proof fn lemma_pools_differ(l: Seq<FindingModel>, name: Seq<char>, h: Seq<PoolRecord>, r: Seq<PoolRecord>)
    ensures
        ({
            let m = pools_differ(l, name, h, r);
            &&& keeps(l, m)
            &&& m.len() == l.len() <==> forall|i: int| #![trigger h[i]] 0 <= i < h.len() ==> pool_matched(h[i], r)
            &&& m.len() == l.len() ==> m == l
        }),
    decreases h.len(),
{
    if h.len() > 0 {
        let k = h.drop_last();
        lemma_pools_differ(l, name, k, r);
        assert(h.last() == h[h.len() - 1]);
        assert forall|i: int| #![trigger k[i]] 0 <= i < k.len() implies k[i] == h[i] by {}
        let t = pools_differ(l, name, k, r);
        let m = pools_differ(l, name, h, r);
        assert(m == pool_compared(t, name, h.last(), r));
        assert(keeps(t, m));
        assert((m.len() == t.len()) == pool_matched(h.last(), r));
        if m.len() == l.len() {
            assert forall|i: int| #![trigger h[i]] 0 <= i < h.len() implies pool_matched(h[i], r) by {
                if i < k.len() {
                    assert(k[i] == h[i]);
                }
            }
        }
    }
}

proof fn lemma_pools_extra(l: Seq<FindingModel>, name: Seq<char>, r: Seq<PoolRecord>, h: Seq<PoolRecord>)
    ensures
        ({
            let m = pools_extra(l, name, r, h);
            &&& keeps(l, m)
            &&& m.len() == l.len() <==> forall|i: int|
                #![trigger r[i]]
                0 <= i < r.len() ==> counterpart_of(h, r[i].id@) is Some
            &&& m.len() == l.len() ==> m == l
        }),
    decreases r.len(),
{
    if r.len() > 0 {
        let k = r.drop_last();
        lemma_pools_extra(l, name, k, h);
        assert(r.last() == r[r.len() - 1]);
        assert forall|i: int| #![trigger k[i]] 0 <= i < k.len() implies k[i] == r[i] by {}
        let m = pools_extra(l, name, r, h);
        let t = pools_extra(l, name, k, h);
        assert(keeps(t, m));
        if m.len() == l.len() {
            assert forall|i: int| #![trigger r[i]] 0 <= i < r.len() implies counterpart_of(h, r[i].id@) is Some by {
                if i < k.len() {
                    assert(k[i] == r[i]);
                }
            }
        }
    }
}

/// Whether two lists of pools, where both are there, name the same pools with
/// the same pledges and costs.
pub open spec fn same_pools(h: Option<Vec<PoolRecord>>, r: Option<Vec<PoolRecord>>) -> bool {
    h matches Some(a) ==> r matches Some(b) ==> {
        &&& forall|i: int| #![trigger a@[i]] 0 <= i < a@.len() ==> pool_matched(a@[i], b@)
        &&& forall|i: int| #![trigger b@[i]] 0 <= i < b@.len() ==> counterpart_of(a@, b@[i].id@) is Some
    }
}

/// Whether a comparison of two snapshots finds nothing critical: the Haskell
/// dump has none that the other lacks, and where both have one the stake is the
/// same, together and by credential, and so are the pools.
pub open spec fn same_snapshot(h: Option<Option<SnapshotRecord>>, r: Option<Option<SnapshotRecord>>) -> bool {
    &&& h is Some ==> r is Some
    &&& h matches Some(a) ==> r matches Some(b) ==> {
        &&& record_total(stake_held(a)) == record_total(stake_held(b))
        &&& same_stake(stake_by_name(stake_held(a)), stake_by_name(stake_held(b)))
        &&& same_pools(pools_held(a), pools_held(b))
    }
}

proof fn lemma_snapshot(l: Seq<FindingModel>, name: Seq<char>, h: Option<Option<SnapshotRecord>>, r: Option<Option<SnapshotRecord>>)
    ensures
        ({
            let m = snapshot_critical(l, name, h, r);
            &&& keeps(l, m)
            &&& m.len() == l.len() <==> same_snapshot(h, r)
        }),
{
    if let (Some(a), Some(b)) = (h, r) {
        lemma_snapshot_stake(l, name, stake_held(a), stake_held(b), false);
        let k = snapshot_stake_compared(l, name, stake_held(a), stake_held(b), false);
        if let (Some(x), Some(y)) = (pools_held(a), pools_held(b)) {
            lemma_pools_differ(k, name, x@, y@);
            lemma_pools_extra(pools_differ(k, name, x@, y@), name, y@, x@);
        }
        assert(keeps(k, pools_compared(k, name, pools_held(a), pools_held(b))));
    }
}

/// The parts of a snapshot that is null: nothing.
pub proof fn law_null_snapshot(s: SnapshotRecord)
    ensures
        stake_held(None).len() == 0,
        pools_held(None) is None,
        stake_held(Some(s)) == s.stake@,
        pools_held(Some(s)) == s.pools,
{
}

// ---- whole dumps ----

/// A comparison of two dumps raises nothing critical where, and only where, the
/// treasury, the reserves, the active stake, each kind of deposit and the
/// number of pools aimed at agree, the reward update is the one that the next
/// dump applied, and governance and the three snapshots agree.
pub proof fn law_no_critical_finding(h: DumpRecord, r: DumpRecord, next: Option<DumpRecord>, epoch: u64)
    ensures
        epoch_critical(h, r, next, epoch).len() == 0 <==> {
            &&& h.treasury == r.treasury
            &&& h.reserves == r.reserves
            &&& h.active_stake == r.active_stake
            &&& h.deposits.stake_key == r.deposits.stake_key
            &&& h.deposits.pool == r.deposits.pool
            &&& h.deposits.drep == r.deposits.drep
            &&& h.deposits.proposal == r.deposits.proposal
            &&& h.deposits.total == r.deposits.total
            &&& h.n_opt is Some && r.n_opt is Some ==> h.n_opt == r.n_opt
            &&& next matches Some(n) ==> due(h) is Some && due(h) == n.rupd
            &&& h.governance is Some ==> r.governance is Some
            &&& h.governance matches Some(a) ==> r.governance matches Some(b) ==> {
                &&& same_text(a.constitution_url, b.constitution_url)
                &&& drep_count(a) == drep_count(b)
                &&& drep_total(a) == drep_total(b)
            }
            &&& same_snapshot(h.mark, r.mark)
            &&& same_snapshot(h.set, r.set)
            &&& same_snapshot(h.go, r.go)
        },
        h.treasury != r.treasury ==> tells(epoch_critical(h, r, next, epoch), "treasury"@, h.treasury, r.treasury),
        h.reserves != r.reserves ==> tells(epoch_critical(h, r, next, epoch), "reserves"@, h.reserves, r.reserves),
        h.active_stake != r.active_stake ==> tells(
            epoch_critical(h, r, next, epoch),
            "activeStake"@,
            h.active_stake,
            r.active_stake,
        ),
        h.deposits.stake_key != r.deposits.stake_key ==> tells(
            epoch_critical(h, r, next, epoch),
            "deposits.stakeKey"@,
            h.deposits.stake_key,
            r.deposits.stake_key,
        ),
        h.deposits.pool != r.deposits.pool ==> tells(
            epoch_critical(h, r, next, epoch),
            "deposits.pool"@,
            h.deposits.pool,
            r.deposits.pool,
        ),
        h.deposits.drep != r.deposits.drep ==> tells(
            epoch_critical(h, r, next, epoch),
            "deposits.dRep"@,
            h.deposits.drep,
            r.deposits.drep,
        ),
        h.deposits.proposal != r.deposits.proposal ==> tells(
            epoch_critical(h, r, next, epoch),
            "deposits.proposal"@,
            h.deposits.proposal,
            r.deposits.proposal,
        ),
        h.deposits.total != r.deposits.total ==> tells(
            epoch_critical(h, r, next, epoch),
            "deposits.total"@,
            h.deposits.total,
            r.deposits.total,
        ),
{
    let o = Seq::<FindingModel>::empty();
    let a = number_compared(o, "treasury"@, h.treasury, r.treasury, Wording::Short, true);
    let b = number_compared(a, "reserves"@, h.reserves, r.reserves, Wording::Short, true);
    let c = number_compared(b, "activeStake"@, h.active_stake, r.active_stake, Wording::Short, true);
    let d = deposits_compared(c, h.deposits, r.deposits);
    let e = params_compared(d, h.n_opt, r.n_opt);
    let f = match next {
        Some(n) => rupd_compared(e, h, n, epoch),
        None => e,
    };
    let g = gov_critical(f, h.governance, r.governance);
    let i = snapshot_critical(g, "mark"@, h.mark, r.mark);
    let j = snapshot_critical(i, "set"@, h.set, r.set);
    let m = snapshot_critical(j, "go"@, h.go, r.go);
    lemma_number(o, "treasury"@, h.treasury, r.treasury, Wording::Short, true);
    lemma_number(a, "reserves"@, h.reserves, r.reserves, Wording::Short, true);
    lemma_number(b, "activeStake"@, h.active_stake, r.active_stake, Wording::Short, true);
    lemma_deposits(c, h.deposits, r.deposits);
    lemma_params(d, h.n_opt, r.n_opt);
    if let Some(n) = next {
        lemma_rupd(e, h, n, epoch);
    }
    lemma_gov_critical(f, h.governance, r.governance);
    lemma_snapshot(g, "mark"@, h.mark, r.mark);
    lemma_snapshot(i, "set"@, h.set, r.set);
    lemma_snapshot(j, "go"@, h.go, r.go);
    assert(m == epoch_critical(h, r, next, epoch));
    assert(keeps(d, m)) by {
        assert(keeps(d, e) && keeps(e, f) && keeps(f, g) && keeps(g, i) && keeps(i, j) && keeps(j, m));
    }
    assert(keeps(c, m) && keeps(b, m) && keeps(a, m));
    if h.treasury != r.treasury {
        lemma_tells(a, m, "treasury"@, h.treasury, r.treasury);
    }
    if h.reserves != r.reserves {
        lemma_tells(b, m, "reserves"@, h.reserves, r.reserves);
    }
    if h.active_stake != r.active_stake {
        lemma_tells(c, m, "activeStake"@, h.active_stake, r.active_stake);
    }
    if h.deposits.stake_key != r.deposits.stake_key {
        lemma_tells(d, m, "deposits.stakeKey"@, h.deposits.stake_key, r.deposits.stake_key);
    }
    if h.deposits.pool != r.deposits.pool {
        lemma_tells(d, m, "deposits.pool"@, h.deposits.pool, r.deposits.pool);
    }
    if h.deposits.drep != r.deposits.drep {
        lemma_tells(d, m, "deposits.dRep"@, h.deposits.drep, r.deposits.drep);
    }
    if h.deposits.proposal != r.deposits.proposal {
        lemma_tells(d, m, "deposits.proposal"@, h.deposits.proposal, r.deposits.proposal);
    }
    if h.deposits.total != r.deposits.total {
        lemma_tells(d, m, "deposits.total"@, h.deposits.total, r.deposits.total);
    }
}

/// What a dump says of the representatives: how many there are, and their stake
/// together.
pub proof fn law_dreps_read(g: GovernanceRecord)
    ensures
        g.dreps is None ==> drep_count(g) is None && drep_total(g) == 0,
        g.dreps matches Some(l) ==> drep_total(g) == record_total(l@),
        g.dreps matches Some(l) ==> (l@.len() <= u64::MAX ==> drep_count(g) is Some && drep_count(g)->0 == l@.len()),
        governance_stake(Some(g)) == drep_total(g),
        governance_stake(None) == 0,
{
}

proof fn lemma_action(l: Seq<FindingModel>, purpose: Seq<char>, h: Option<String>, r: Option<String>)
    ensures
        ({
            let m = action_compared(l, purpose, h, r);
            &&& keeps(l, m)
            &&& m.len() == l.len() <==> (h is Some ==> r is Some) && same_text(h, r)
        }),
{
}

/// Whether two texts are both missing, or both there.
pub open spec fn both_or_none(h: Option<String>, r: Option<String>) -> bool {
    h is Some == r is Some
}

/// Whether an enacted action of the Haskell dump is the same in the other one.
pub open spec fn same_action(h: Option<String>, r: Option<String>) -> bool {
    (h is Some ==> r is Some) && same_text(h, r)
}

/// A comparison of two dumps raises no warning where, and only where, the fees
/// and the era agree, the committee, its quorum and the enacted actions do,
/// neither constitution is missing alone, and the Haskell dump lacks neither
/// governance nor a snapshot that the other one has.
pub proof fn law_no_warning(h: DumpRecord, r: DumpRecord)
    ensures
        epoch_warnings(h, r).len() == 0 <==> {
            &&& h.epoch_fees == r.epoch_fees
            &&& same_text(h.era, r.era)
            &&& r.governance is Some ==> h.governance is Some
            &&& h.governance matches Some(a) ==> r.governance matches Some(b) ==> {
                &&& a.members == b.members
                &&& a.threshold_numerator == b.threshold_numerator
                &&& a.threshold_denominator == b.threshold_denominator
                &&& both_or_none(a.constitution_url, b.constitution_url)
                &&& a.enacted matches Some(x) ==> b.enacted matches Some(y) ==> {
                    &&& same_action(x.committee, y.committee)
                    &&& same_action(x.constitution, y.constitution)
                    &&& same_action(x.hard_fork, y.hard_fork)
                    &&& same_action(x.pparam_update, y.pparam_update)
                }
            }
            &&& r.mark is Some ==> h.mark is Some
            &&& r.set is Some ==> h.set is Some
            &&& r.go is Some ==> h.go is Some
        },
        h.epoch_fees != r.epoch_fees ==> tells(epoch_warnings(h, r), "epochFees"@, h.epoch_fees, r.epoch_fees),
{
    let o = Seq::<FindingModel>::empty();
    let a = number_compared(o, "epochFees"@, h.epoch_fees, r.epoch_fees, Wording::Short, true);
    let b = era_compared(a, h.era, r.era);
    let c = gov_warnings(b, h.governance, r.governance);
    let d = snapshot_warnings(c, "mark"@, h.mark, r.mark);
    let e = snapshot_warnings(d, "set"@, h.set, r.set);
    let m = snapshot_warnings(e, "go"@, h.go, r.go);
    lemma_number(o, "epochFees"@, h.epoch_fees, r.epoch_fees, Wording::Short, true);
    assert(keeps(a, b));
    if let (Some(x), Some(y)) = (h.governance, r.governance) {
        let k = optional_compared(b, "conwayGov.committee.members count"@, x.members, y.members);
        lemma_optional(b, "conwayGov.committee.members count"@, x.members, y.members);
        let n = committee_compared(b, x, y);
        assert(keeps(k, n));
        let p = url_missing(n, x.constitution_url, y.constitution_url);
        assert(keeps(n, p));
        if let (Some(f), Some(g)) = (x.enacted, y.enacted) {
            let q = action_compared(p, "Committee"@, f.committee, g.committee);
            let s = action_compared(q, "Constitution"@, f.constitution, g.constitution);
            let t = action_compared(s, "HardFork"@, f.hard_fork, g.hard_fork);
            lemma_action(p, "Committee"@, f.committee, g.committee);
            lemma_action(q, "Constitution"@, f.constitution, g.constitution);
            lemma_action(s, "HardFork"@, f.hard_fork, g.hard_fork);
            lemma_action(t, "PParamUpdate"@, f.pparam_update, g.pparam_update);
            assert(c == action_compared(t, "PParamUpdate"@, f.pparam_update, g.pparam_update));
        } else {
            assert(c == p);
        }
        assert(keeps(b, c));
    } else {
        assert(keeps(b, c));
    }
    assert(keeps(c, d) && keeps(d, e) && keeps(e, m));
    assert(m == epoch_warnings(h, r));
    assert(keeps(a, m));
    if h.epoch_fees != r.epoch_fees {
        lemma_tells(a, m, "epochFees"@, h.epoch_fees, r.epoch_fees);
    }
}

/// Whether the stake of two snapshots agrees, where both dumps hold them.
pub open spec fn same_held_stake(h: Option<Option<SnapshotRecord>>, r: Option<Option<SnapshotRecord>>) -> bool {
    &&& h is Some ==> r is Some
    &&& h matches Some(Some(a)) ==> r matches Some(Some(b)) ==> {
        &&& record_total(a.stake@) == record_total(b.stake@)
        &&& same_stake(stake_by_name(a.stake@), stake_by_name(b.stake@))
    }
}

proof fn lemma_stake_only(
    l: Seq<FindingModel>,
    name: Seq<char>,
    h: Option<Option<SnapshotRecord>>,
    r: Option<Option<SnapshotRecord>>,
)
    ensures
        ({
            let m = stake_only_compared(l, name, h, r);
            &&& keeps(l, m)
            &&& m.len() == l.len() <==> same_held_stake(h, r)
        }),
{
    if let (Some(Some(a)), Some(Some(b))) = (h, r) {
        lemma_snapshot_stake(l, name, a.stake@, b.stake@, true);
    }
}

/// The comparison that a node makes as it follows the chain raises nothing
/// where, and only where, the treasury, the reserves, the active stake, the
/// stake of the representatives and that of the snapshots agree, and the reward
/// update that was applied is the one that the Haskell node had computed before.
pub proof fn law_node_agrees(r: DumpRecord, h: DumpRecord, previous: Option<DumpRecord>, epoch: u64)
    requires
        governance_stake(h.governance) <= u64::MAX,
        governance_stake(r.governance) <= u64::MAX,
    ensures
        dumps_compared(r, h, previous, epoch).len() == 0 <==> {
            &&& h.treasury == r.treasury
            &&& h.reserves == r.reserves
            &&& h.active_stake == r.active_stake
            &&& governance_stake(h.governance) == governance_stake(r.governance)
            &&& same_held_stake(h.mark, r.mark)
            &&& same_held_stake(h.set, r.set)
            &&& same_held_stake(h.go, r.go)
            &&& epoch > 0 ==> (previous matches Some(p) ==> (p.rupd_next is Some && r.rupd is Some ==> p.rupd_next
                == r.rupd))
        },
{
    let o = Seq::<FindingModel>::empty();
    let (hg, rg) = (Some(governance_stake(h.governance) as u64), Some(governance_stake(r.governance) as u64));
    let a = number_compared(o, "treasury"@, h.treasury, r.treasury, Wording::Sides, true);
    let b = number_compared(a, "reserves"@, h.reserves, r.reserves, Wording::Sides, true);
    let c = number_compared(b, "activeStake"@, h.active_stake, r.active_stake, Wording::Sides, true);
    let d = number_compared(c, "conwayGov.drepDistr total stake"@, hg, rg, Wording::Sides, true);
    let e = stake_only_compared(d, "mark"@, h.mark, r.mark);
    let f = stake_only_compared(e, "set"@, h.set, r.set);
    let g = stake_only_compared(f, "go"@, h.go, r.go);
    lemma_number(o, "treasury"@, h.treasury, r.treasury, Wording::Sides, true);
    lemma_number(a, "reserves"@, h.reserves, r.reserves, Wording::Sides, true);
    lemma_number(b, "activeStake"@, h.active_stake, r.active_stake, Wording::Sides, true);
    lemma_number(c, "conwayGov.drepDistr total stake"@, hg, rg, Wording::Sides, true);
    lemma_stake_only(d, "mark"@, h.mark, r.mark);
    lemma_stake_only(e, "set"@, h.set, r.set);
    lemma_stake_only(f, "go"@, h.go, r.go);
    if epoch > 0 {
        if let Some(p) = previous {
            if let (Some(x), Some(y)) = (p.rupd_next, r.rupd) {
                lemma_rewards(g, (epoch - 1) as u64, x, y);
            }
        }
    }
}

// ---- words ----

/// A difference below zero has a sign; a number that may be missing says so.
pub proof fn law_numbers_worded(x: nat, n: u64)
    ensures
        signed_chars(x as int) == decimal_chars(x),
        x > 0 ==> signed_chars(-(x as int)) == "-"@ + decimal_chars(x),
        optional_chars(None) == "None"@,
        optional_chars(Some(n)) == "Some("@ + decimal_chars(n as nat) + ")"@,
{
}

/// Numbers that should agree, missing or not, are named with both sides.
pub proof fn law_optional_worded(l: Seq<FindingModel>, place: Seq<char>, h: Option<u64>, r: Option<u64>)
    ensures
        h == r ==> optional_compared(l, place, h, r) == l,
        h != r ==> optional_compared(l, place, h, r) == l.push(
            FindingModel {
                text: place + ": haskell="@ + optional_chars(h) + " hayate="@ + optional_chars(r),
                lovelace: None,
            },
        ),
{
}

/// A credential whose stake differs is named with both stakes, and one that the
/// Haskell dump does not have with the stake that it has in the other.
pub proof fn law_stake_worded(
    l: Seq<FindingModel>,
    name: Seq<char>,
    s: Seq<(Seq<char>, u64)>,
    x: (Seq<char>, u64),
    m: Map<Seq<char>, u64>,
)
    ensures
        ({
            let place = "snapshots."@ + name + ".stake["@ + x.0 + "]"@;
            let there = if m.dom().contains(x.0) { m[x.0] } else { 0 };
            &&& x.1 == there ==> stake_differs(l, name, s.push(x), m) == stake_differs(l, name, s, m)
            &&& x.1 != there ==> stake_differs(l, name, s.push(x), m) == stake_differs(l, name, s, m).push(
                FindingModel {
                    text: place + ": haskell="@ + decimal_chars(x.1 as nat) + " hayate="@ + decimal_chars(there as nat),
                    lovelace: None,
                },
            )
            &&& m.dom().contains(x.0) ==> stake_extra(l, name, s.push(x), m) == stake_extra(l, name, s, m)
            &&& !m.dom().contains(x.0) ==> stake_extra(l, name, s.push(x), m) == stake_extra(l, name, s, m).push(
                FindingModel {
                    text: place + ": missing in haskell, hayate="@ + decimal_chars(x.1 as nat),
                    lovelace: None,
                },
            )
        }),
{
    assert(s.push(x).drop_last() =~= s);
}

/// A pool that the other dump lacks, or has on top, is named by its first 28
/// bytes; of one that both have the pledge and the cost are compared.
pub proof fn law_pools_worded(l: Seq<FindingModel>, name: Seq<char>, s: Seq<PoolRecord>, x: PoolRecord, m: Seq<PoolRecord>)
    ensures
        ({
            let place = "snapshots."@ + name + ".poolParams["@ + first_bytes(x.id@, 56) + "]"@;
            let before = pools_differ(l, name, s, m);
            &&& counterpart_of(m, x.id@) is None ==> pools_differ(l, name, s.push(x), m) == before.push(
                FindingModel { text: place + ": missing in hayate"@, lovelace: None },
            )
            &&& counterpart_of(m, x.id@) matches Some(i) ==> pools_differ(l, name, s.push(x), m) == optional_compared(
                optional_compared(before, place + ".pledge"@, x.pledge, m[i].pledge),
                place + ".cost"@,
                x.cost,
                m[i].cost,
            )
            &&& counterpart_of(m, x.id@) is Some ==> pools_extra(l, name, s.push(x), m) == pools_extra(l, name, s, m)
            &&& counterpart_of(m, x.id@) is None ==> pools_extra(l, name, s.push(x), m) == pools_extra(l, name, s, m).push(
                FindingModel { text: place + ": extra pool in hayate"@, lovelace: None },
            )
        }),
{
    assert(s.push(x).drop_last() =~= s);
}

/// What else is found is named in words of its own.
pub proof fn law_findings_worded(
    l: Seq<FindingModel>,
    name: Seq<char>,
    a: String,
    b: String,
    g: GovernanceRecord,
    s: Option<SnapshotRecord>,
    d: DumpRecord,
    n: DumpRecord,
    epoch: u64,
)
    ensures
        ({
            let say = |t: Seq<char>| l.push(FindingModel { text: t, lovelace: None });
            &&& a@ != b@ ==> era_compared(l, Some(a), Some(b)) == say(
                "snapshotEraName"@ + ": haskell="@ + a@ + " hayate="@ + b@,
            )
            &&& a@ != b@ ==> url_differs(l, Some(a), Some(b)) == say(
                "conwayGov.constitution.url"@ + ": haskell="@ + a@ + " hayate="@ + b@,
            )
            &&& url_missing(l, Some(a), None) == say("conwayGov.constitution.url"@ + ": missing in hayate"@)
            &&& url_missing(l, None, Some(a)) == say("conwayGov.constitution.url"@ + ": missing in haskell"@)
            &&& a@ != b@ ==> action_compared(l, name, Some(a), Some(b)) == say(
                "conwayGov.nextEnactState.prevGovActionIds."@ + name + ": haskell="@ + a@ + " hayate="@ + b@,
            )
            &&& action_compared(l, name, Some(a), None) == say(
                "conwayGov.nextEnactState.prevGovActionIds."@ + name + ": present in haskell, null in hayate"@,
            )
            &&& gov_critical(l, Some(g), None) == say("conwayGov: present in haskell but null in hayate"@)
            &&& gov_warnings(l, None, Some(g)) == say("conwayGov: present in hayate but null in haskell"@)
            &&& snapshot_critical(l, name, Some(s), None) == say("snapshots."@ + name + ": missing in hayate"@)
            &&& snapshot_warnings(l, name, None, Some(s)) == say("snapshots."@ + name + ": missing in haskell"@)
            &&& due(d) is None ==> rupd_compared(l, d, n, epoch) == say(
                "rupdNext: missing in haskell["@ + decimal_chars(epoch as nat) + "]"@,
            )
            &&& due(d) is Some && n.rupd is None ==> rupd_compared(l, d, n, epoch) == say(
                "rupd: missing in hayate["@ + decimal_chars((epoch + 1) as nat) + "]"@,
            )
        }),
{
}

/// The values of a reward update are named with both epochs, and compared one
/// by one.
pub proof fn law_reward_worded(l: Seq<FindingModel>, epoch: u64, key: Seq<char>, h: Option<u64>, r: Option<u64>)
    ensures
        reward_compared(l, epoch, key, h, r) == number_compared(
            l,
            "rupdNext (haskell["@ + decimal_chars(epoch as nat) + "] vs hayate["@ + decimal_chars((epoch + 1) as nat)
                + "])."@ + key,
            h,
            r,
            Wording::Number,
            true,
        ),
{
}

} // verus!
