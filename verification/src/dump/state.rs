//! What the dump of an epoch holds.

use vstd::prelude::*;
use crate::dump::labels::{credential_label, drep_label, label_credential, label_drep, label_table, labelled};
use crate::item::{Item, Key};
use crate::ledger::eras::{era_chars, snapshot_era_name};
use crate::ledger::primitives::{Anchor, DRep, EpochNo, Hash28, Hash32, Lovelace};
use crate::ledger::ratify::voter_stake;
use crate::ledger::state::{
    amount_of, gov_total, lemma_gov_total_prefix, DepositsByType, DepositsModel, LedgerModel, LedgerState,
    SnapshotModel, StakeSnapshot,
};
use crate::sums::{lemma_seq_sum_prefix, lemma_seq_sum_step, map_sum, seq_sum};
use crate::table::{listing, Table};
use crate::text::{decimal, decimal_chars};

verus! {

// ---- totals ----

pub open spec fn amounts<K>() -> spec_fn(K, Lovelace) -> nat {
    |k: K, v: Lovelace| v.0 as nat
}

/// A total that fits `u64`.
pub open spec fn fitting(n: nat) -> Option<u64> {
    if n <= u64::MAX {
        Some(n as u64)
    } else {
        None
    }
}

/// Adds up a table of amounts.
pub fn total_amount<K: Key>(t: &Table<K, Lovelace>) -> (r: Option<u64>)
    ensures
        r == fitting(map_sum(t@, amounts::<K::M>())),
{
    let ghost f = amounts::<K::M>();
    let ghost e = t.entries();
    let n: usize = t.len();
    proof {
        t.lemma_sum(f);
    }
    let mut sum: u64 = 0;
    let mut i: usize = 0;
    while i < n
        invariant
            i <= n,
            n == e.len(),
            e == t.entries(),
            f == amounts::<K::M>(),
            map_sum(t@, f) == seq_sum(e, f),
            sum == seq_sum(e.take(i as int), f),
        decreases n - i,
    {
        proof {
            lemma_seq_sum_step(e, f, i as int);
            lemma_seq_sum_prefix(e, f, i + 1);
        }
        match sum.checked_add(t.value_at(i).0) {
            Some(x) => {
                sum = x;
            },
            None => {
                return None;
            },
        }
        i += 1;
    }
    assert(e.take(i as int) =~= e);
    Some(sum)
}

/// Deposits by kind.
#[derive(Clone, Copy, Debug, PartialEq, Eq, Structural)]
pub struct DepositTotals {
    pub pool: u64,
    pub stake_key: u64,
    pub proposal: u64,
    pub drep: u64,
    pub total: u64,
}

pub open spec fn pool_deposits() -> spec_fn(Hash32, DepositsModel) -> nat {
    |c: Hash32, d: DepositsModel| amount_of(d.pool)
}

pub open spec fn stake_deposits() -> spec_fn(Hash32, DepositsModel) -> nat {
    |c: Hash32, d: DepositsModel| amount_of(d.stake)
}

pub open spec fn proposal_deposits() -> spec_fn(Hash32, DepositsModel) -> nat {
    |c: Hash32, d: DepositsModel| gov_total(d.governance)
}

pub open spec fn drep_deposits() -> spec_fn(Hash32, DepositsModel) -> nat {
    |c: Hash32, d: DepositsModel| amount_of(d.drep)
}

/// All deposits of each kind and together, where the sum fits `u64`.
pub open spec fn deposits_totalled(m: Map<Hash32, DepositsModel>) -> Option<DepositTotals> {
    let pool = map_sum(m, pool_deposits());
    let stake = map_sum(m, stake_deposits());
    let proposal = map_sum(m, proposal_deposits());
    let drep = map_sum(m, drep_deposits());
    if pool + stake + proposal + drep <= u64::MAX {
        Some(
            DepositTotals {
                pool: pool as u64,
                stake_key: stake as u64,
                proposal: proposal as u64,
                drep: drep as u64,
                total: (pool + stake + proposal + drep) as u64,
            },
        )
    } else {
        None
    }
}

fn amount_in(x: &Option<Lovelace>) -> (r: u64)
    ensures
        r == amount_of(*x),
{
    match x {
        Some(l) => l.0,
        None => 0,
    }
}

fn gov_amount(d: &DepositsByType) -> (r: Option<u64>)
    ensures
        r == fitting(gov_total(d.model().governance)),
{
    let ghost s = d.governance@;
    let mut sum: u64 = 0;
    let mut i: usize = 0;
    while i < d.governance.len()
        invariant
            i <= d.governance.len(),
            s == d.governance@,
            sum == gov_total(s.take(i as int)),
        decreases d.governance.len() - i,
    {
        proof {
            assert(s.take(i + 1).drop_last() =~= s.take(i as int));
            lemma_gov_total_prefix(s, i + 1);
        }
        match sum.checked_add(d.governance[i].1.0) {
            Some(x) => {
                sum = x;
            },
            None => {
                return None;
            },
        }
        i += 1;
    }
    assert(s.take(i as int) =~= s);
    Some(sum)
}

/// Adds up the deposits of each kind.
pub fn total_deposits(t: &Table<Hash32, DepositsByType>) -> (r: Option<DepositTotals>)
    ensures
        r == deposits_totalled(t@),
{
    let ghost (fp, fs, fg, fd) = (pool_deposits(), stake_deposits(), proposal_deposits(), drep_deposits());
    let ghost e = t.entries();
    let n: usize = t.len();
    proof {
        t.lemma_sum(fp);
        t.lemma_sum(fs);
        t.lemma_sum(fg);
        t.lemma_sum(fd);
    }
    let mut pool: u64 = 0;
    let mut stake_key: u64 = 0;
    let mut proposal: u64 = 0;
    let mut drep: u64 = 0;
    let mut i: usize = 0;
    while i < n
        invariant
            i <= n,
            n == e.len(),
            e == t.entries(),
            fp == pool_deposits(),
            fs == stake_deposits(),
            fg == proposal_deposits(),
            fd == drep_deposits(),
            map_sum(t@, fp) == seq_sum(e, fp),
            map_sum(t@, fs) == seq_sum(e, fs),
            map_sum(t@, fg) == seq_sum(e, fg),
            map_sum(t@, fd) == seq_sum(e, fd),
            pool == seq_sum(e.take(i as int), fp),
            stake_key == seq_sum(e.take(i as int), fs),
            proposal == seq_sum(e.take(i as int), fg),
            drep == seq_sum(e.take(i as int), fd),
        decreases n - i,
    {
        proof {
            lemma_seq_sum_step(e, fp, i as int);
            lemma_seq_sum_prefix(e, fp, i + 1);
            lemma_seq_sum_step(e, fs, i as int);
            lemma_seq_sum_prefix(e, fs, i + 1);
            lemma_seq_sum_step(e, fg, i as int);
            lemma_seq_sum_prefix(e, fg, i + 1);
            lemma_seq_sum_step(e, fd, i as int);
            lemma_seq_sum_prefix(e, fd, i + 1);
        }
        let d = t.value_at(i);
        let gov: u64 = match gov_amount(d) {
            Some(x) => x,
            None => {
                return None;
            },
        };
        match (
            pool.checked_add(amount_in(&d.pool)),
            stake_key.checked_add(amount_in(&d.stake)),
            proposal.checked_add(gov),
            drep.checked_add(amount_in(&d.drep)),
        ) {
            (Some(a), Some(b), Some(c), Some(x)) => {
                pool = a;
                stake_key = b;
                proposal = c;
                drep = x;
            },
            _ => {
                return None;
            },
        }
        i += 1;
    }
    assert(e.take(i as int) =~= e);
    let total: u128 = pool as u128 + stake_key as u128 + proposal as u128 + drep as u128;
    if total > u64::MAX as u128 {
        return None;
    }
    Some(DepositTotals { pool, stake_key, proposal, drep, total: total as u64 })
}

// ---- representatives ----

pub open spec fn power_at(m: Map<Seq<char>, nat>, k: Seq<char>) -> nat {
    if m.dom().contains(k) {
        m[k]
    } else {
        0
    }
}

/// The stake behind each representative, by its name. Credentials without
/// stake bring none.
pub open spec fn power_by_label(s: LedgerModel, l: Seq<(Hash32, DRep)>) -> Map<Seq<char>, nat>
    decreases l.len(),
{
    if l.len() == 0 {
        Map::empty()
    } else {
        let m = power_by_label(s, l.drop_last());
        let k = drep_label(l.last().1);
        let x = voter_stake(s, l.last().0);
        if x == 0 {
            m
        } else {
            m.insert(k, power_at(m, k) + x)
        }
    }
}

pub open spec fn all_fit(m: Map<Seq<char>, nat>) -> bool {
    forall|k: Seq<char>| #[trigger] m.dom().contains(k) ==> m[k] <= u64::MAX
}

/// A map of numbers that fit `u64`.
pub open spec fn fitted(m: Map<Seq<char>, nat>) -> Map<Seq<char>, u64> {
    Map::new(|k: Seq<char>| m.dom().contains(k), |k: Seq<char>| m[k] as u64)
}

proof fn lemma_power_grows(s: LedgerModel, l: Seq<(Hash32, DRep)>, i: int, k: Seq<char>)
    requires
        0 <= i <= l.len(),
        power_by_label(s, l.take(i)).dom().contains(k),
    ensures
        power_by_label(s, l).dom().contains(k),
        power_by_label(s, l.take(i))[k] <= power_by_label(s, l)[k],
    decreases l.len() - i,
{
    if i == l.len() {
        assert(l.take(i) =~= l);
    } else {
        assert(l.take(i + 1).drop_last() =~= l.take(i));
        lemma_power_grows(s, l, i + 1, k);
    }
}

impl LedgerState {
    pub(crate) fn checked_voter_stake(&self, cred: &Hash32) -> (r: Option<u64>)
        ensures
            r == fitting(voter_stake(self@, *cred)),
    {
        let utxo: u64 = match self.stake_distribution.stake_map.get(cred) {
            Some(l) => l.0,
            None => 0,
        };
        let reward: u64 = match self.reward_accounts.get(cred) {
            Some(l) => l.0,
            None => 0,
        };
        let gov: u64 = match self.deposit_tracker.deposits.get(cred) {
            Some(d) => match gov_amount(d) {
                Some(x) => x,
                None => {
                    return None;
                },
            },
            None => 0,
        };
        let sum: u128 = utxo as u128 + reward as u128 + gov as u128;
        if sum > u64::MAX as u128 {
            None
        } else {
            Some(sum as u64)
        }
    }

    /// The stake behind each representative, by its name; `None` where a sum
    /// does not fit `u64`.
    pub fn drep_distribution(&self) -> (r: Option<Table<String, u64>>)
        ensures
            ({
                let m = power_by_label(self@, listing::<Hash32, DRep>(self@.governance.vote_delegations));
                match r {
                    Some(t) => all_fit(m) && t@ == fitted(m),
                    None => !all_fit(m),
                }
            }),
    {
        let votes = &self.governance.vote_delegations;
        let ghost l = votes.entries();
        let n: usize = votes.len();
        proof {
            votes.lemma_entries();
        }
        let ghost whole = power_by_label(self@, l);
        let mut r: Table<String, u64> = Table::new();
        let mut i: usize = 0;
        assert(r@ =~= fitted(power_by_label(self@, l.take(0))));
        while i < n
            invariant
                i <= n,
                n == l.len(),
                l == votes.entries(),
                votes == &self.governance.vote_delegations,
                l == listing::<Hash32, DRep>(self@.governance.vote_delegations),
                whole == power_by_label(self@, l),
                all_fit(power_by_label(self@, l.take(i as int))),
                r@ == fitted(power_by_label(self@, l.take(i as int))),
            decreases n - i,
        {
            let c = votes.key_at(i);
            let d = votes.value_at(i);
            let ghost before = power_by_label(self@, l.take(i as int));
            let ghost after = power_by_label(self@, l.take(i + 1));
            let ghost label = drep_label(*d);
            let ghost stake = voter_stake(self@, *c);
            proof {
                assert(l.take(i + 1).drop_last() =~= l.take(i as int));
                assert(l.take(i + 1).last() == l[i as int]);
                assert(after == if stake == 0 {
                    before
                } else {
                    before.insert(label, power_at(before, label) + stake)
                });
                if stake > 0 {
                    lemma_power_grows(self@, l, i + 1, label);
                }
            }
            let x: u64 = match self.checked_voter_stake(c) {
                Some(x) => x,
                None => {
                    assert(whole.dom().contains(label));
                    return None;
                },
            };
            if x > 0 {
                let k = label_drep(d);
                let had: u64 = match r.get(&k) {
                    Some(y) => *y,
                    None => 0,
                };
                assert(had == power_at(before, label));
                match had.checked_add(x) {
                    Some(y) => {
                        r.insert(k, y);
                        assert(r@ =~= fitted(after));
                    },
                    None => {
                        assert(whole.dom().contains(label));
                        return None;
                    },
                }
            }
            i += 1;
        }
        assert(l.take(i as int) =~= l);
        Some(r)
    }
}

// ---- committee ----

/// How a committee member stands.
#[derive(Clone, Copy, Debug, PartialEq, Eq)]
pub enum MemberState {
    /// It authorized a hot credential.
    Authorized {
        script: bool,
        hot: Hash32,
    },
    Resigned,
}

impl Item for MemberState {
    type M = MemberState;

    open spec fn model(&self) -> MemberState {
        *self
    }

    fn dup(&self) -> (r: Self) {
        *self
    }
}

pub open spec fn authorized(
    l: Seq<(Hash32, Hash32)>,
    scripts: Set<Hash32>,
    hot_scripts: Set<Hash32>,
) -> Map<Seq<char>, MemberState>
    decreases l.len(),
{
    if l.len() == 0 {
        Map::empty()
    } else {
        let e = l.last();
        authorized(l.drop_last(), scripts, hot_scripts).insert(
            credential_label(scripts.contains(e.0), e.0),
            MemberState::Authorized { script: hot_scripts.contains(e.1), hot: e.1 },
        )
    }
}

/// Members that resigned are added where no hot credential is known.
pub open spec fn resigned(
    m: Map<Seq<char>, MemberState>,
    l: Seq<(Hash32, Option<Anchor>)>,
    scripts: Set<Hash32>,
) -> Map<Seq<char>, MemberState>
    decreases l.len(),
{
    if l.len() == 0 {
        m
    } else {
        let t = resigned(m, l.drop_last(), scripts);
        let k = credential_label(scripts.contains(l.last().0), l.last().0);
        if t.dom().contains(k) {
            t
        } else {
            t.insert(k, MemberState::Resigned)
        }
    }
}

/// How each committee member stands, by the name of its cold credential.
pub open spec fn member_states(s: LedgerModel) -> Map<Seq<char>, MemberState> {
    let g = s.governance;
    resigned(
        authorized(
            listing::<Hash32, Hash32>(g.committee_hot_keys),
            g.script_committee_credentials,
            g.script_committee_hot_credentials,
        ),
        listing::<Hash32, Option<Anchor>>(g.committee_resigned),
        g.script_committee_credentials,
    )
}

impl LedgerState {
    /// How each committee member stands.
    pub fn committee_states(&self) -> (r: Table<String, MemberState>)
        ensures
            r@ == member_states(self@),
    {
        let g = &self.governance;
        let ghost l = g.committee_hot_keys.entries();
        let n: usize = g.committee_hot_keys.len();
        proof {
            g.committee_hot_keys.lemma_entries();
        }
        let mut r: Table<String, MemberState> = Table::new();
        let mut i: usize = 0;
        while i < n
            invariant
                i <= n,
                n == l.len(),
                l == g.committee_hot_keys.entries(),
                r@ == authorized(
                    l.take(i as int),
                    g@.script_committee_credentials,
                    g@.script_committee_hot_credentials,
                ),
            decreases n - i,
        {
            proof {
                assert(l.take(i + 1).drop_last() =~= l.take(i as int));
                assert(l.take(i + 1).last() == l[i as int]);
            }
            let k = g.committee_hot_keys.key_at(i);
            let hot: Hash32 = *g.committee_hot_keys.value_at(i);
            r.insert(
                label_credential(g.script_committee_credentials.contains(k), k),
                MemberState::Authorized { script: g.script_committee_hot_credentials.contains(&hot), hot },
            );
            i += 1;
        }
        assert(l.take(i as int) =~= l);
        let ghost m = r@;
        let ghost q = g.committee_resigned.entries();
        let k: usize = g.committee_resigned.len();
        proof {
            g.committee_resigned.lemma_entries();
        }
        let mut j: usize = 0;
        while j < k
            invariant
                j <= k,
                k == q.len(),
                q == g.committee_resigned.entries(),
                r@ == resigned(m, q.take(j as int), g@.script_committee_credentials),
            decreases k - j,
        {
            proof {
                assert(q.take(j + 1).drop_last() =~= q.take(j as int));
                assert(q.take(j + 1).last() == q[j as int]);
            }
            let c = g.committee_resigned.key_at(j);
            let label = label_credential(g.script_committee_credentials.contains(c), c);
            if !r.contains_key(&label) {
                r.insert(label, MemberState::Resigned);
            }
            j += 1;
        }
        assert(q.take(j as int) =~= q);
        r
    }
}

// ---- the dump ----

/// A snapshot under the names of its credentials.
pub struct SnapshotDump {
    pub stake: Table<String, Lovelace>,
    pub delegations: Table<String, Hash28>,
}

#[verifier::ext_equal]
pub struct SnapshotDumpModel {
    pub stake: Map<Seq<char>, Lovelace>,
    pub delegations: Map<Seq<char>, Hash28>,
}

impl SnapshotDump {
    pub open spec fn model(&self) -> SnapshotDumpModel {
        SnapshotDumpModel { stake: self.stake@, delegations: self.delegations@ }
    }
}

pub open spec fn snapshot_dumped(s: Option<SnapshotModel>) -> Option<SnapshotDumpModel> {
    match s {
        Some(s) => Some(
            SnapshotDumpModel {
                stake: labelled(listing::<Hash32, Lovelace>(s.stake_distribution), s.script_stake_credentials),
                delegations: labelled(listing::<Hash32, Hash28>(s.delegations), s.script_stake_credentials),
            },
        ),
        None => None,
    }
}

pub open spec fn optional_dump(s: Option<SnapshotDump>) -> Option<SnapshotDumpModel> {
    match s {
        Some(s) => Some(s.model()),
        None => None,
    }
}

fn dump_snapshot(s: &Option<StakeSnapshot>) -> (r: Option<SnapshotDump>)
    ensures
        optional_dump(r) == snapshot_dumped(s.model()),
{
    match s {
        Some(s) => Some(
            SnapshotDump {
                stake: label_table(&s.stake_distribution, &s.script_stake_credentials),
                delegations: label_table(&s.delegations, &s.script_stake_credentials),
            },
        ),
        None => None,
    }
}

/// The governance part of a dump.
pub struct GovernanceDump {
    /// When the term of each committee member ends.
    pub members: Table<String, EpochNo>,
    pub states: Table<String, MemberState>,
    pub dreps: Table<String, u64>,
}

#[verifier::ext_equal]
pub struct GovernanceDumpModel {
    pub members: Map<Seq<char>, EpochNo>,
    pub states: Map<Seq<char>, MemberState>,
    pub dreps: Map<Seq<char>, u64>,
}

/// What an epoch dump holds besides the plain fields of the ledger state.
pub struct EpochDump {
    pub file: String,
    pub epoch: u64,
    pub slot: u64,
    pub era: &'static str,
    /// Stake of the go snapshot.
    pub active_stake: u64,
    /// Stake of all pools in the mark snapshot, of which each has a share.
    pub mark_pool_stake: u64,
    pub deposits: DepositTotals,
    pub mark: Option<SnapshotDump>,
    pub set: Option<SnapshotDump>,
    pub go: Option<SnapshotDump>,
    pub pay: Option<SnapshotDump>,
    /// From the first Conway epoch on.
    pub governance: Option<GovernanceDump>,
}

#[verifier::ext_equal]
pub struct DumpModel {
    pub file: Seq<char>,
    pub epoch: u64,
    pub slot: u64,
    pub era: Seq<char>,
    pub active_stake: u64,
    pub mark_pool_stake: u64,
    pub deposits: DepositTotals,
    pub mark: Option<SnapshotDumpModel>,
    pub set: Option<SnapshotDumpModel>,
    pub go: Option<SnapshotDumpModel>,
    pub pay: Option<SnapshotDumpModel>,
    pub governance: Option<GovernanceDumpModel>,
}

impl EpochDump {
    pub open spec fn view(&self) -> DumpModel {
        DumpModel {
            file: self.file@,
            epoch: self.epoch,
            slot: self.slot,
            era: self.era@,
            active_stake: self.active_stake,
            mark_pool_stake: self.mark_pool_stake,
            deposits: self.deposits,
            mark: optional_dump(self.mark),
            set: optional_dump(self.set),
            go: optional_dump(self.go),
            pay: optional_dump(self.pay),
            governance: match self.governance {
                Some(g) => Some(GovernanceDumpModel { members: g.members@, states: g.states@, dreps: g.dreps@ }),
                None => None,
            },
        }
    }
}

pub open spec fn active_stake_of(s: LedgerModel) -> nat {
    match s.snapshots.go {
        Some(go) => map_sum(go.stake_distribution, amounts::<Hash32>()),
        None => 0,
    }
}

pub open spec fn mark_pool_stake_of(s: LedgerModel) -> nat {
    match s.snapshots.mark {
        Some(mark) => map_sum(mark.pool_stake, amounts::<Hash28>()),
        None => 0,
    }
}

pub open spec fn power_of_dump(s: LedgerModel) -> Map<Seq<char>, nat> {
    power_by_label(s, listing::<Hash32, DRep>(s.governance.vote_delegations))
}

/// The totals of a dump can be counted in `u64`.
pub open spec fn dump_fits(s: LedgerModel) -> bool {
    &&& active_stake_of(s) <= u64::MAX
    &&& mark_pool_stake_of(s) <= u64::MAX
    &&& deposits_totalled(s.deposits) is Some
    &&& s.governance.conway_cur_params is Some ==> all_fit(power_of_dump(s))
}

/// The era as dumps name it.
pub open spec fn dump_era(major: u64) -> Seq<char> {
    if major >= 12 {
        "Dijkstra"@
    } else {
        era_chars(major)
    }
}

/// The dump of a ledger state.
pub open spec fn dumped(s: LedgerModel, slot: u64) -> DumpModel {
    let g = s.governance;
    DumpModel {
        file: decimal_chars(s.epoch.0 as nat) + "-hayate.json"@,
        epoch: s.epoch.0,
        slot,
        era: dump_era(s.protocol_params.protocol_version_major),
        active_stake: active_stake_of(s) as u64,
        mark_pool_stake: mark_pool_stake_of(s) as u64,
        deposits: deposits_totalled(s.deposits)->0,
        mark: snapshot_dumped(s.snapshots.mark),
        set: snapshot_dumped(s.snapshots.set),
        go: snapshot_dumped(s.snapshots.go),
        pay: snapshot_dumped(s.snapshots.pay),
        governance: if g.conway_cur_params is Some {
            Some(
                GovernanceDumpModel {
                    members: labelled(
                        listing::<Hash32, EpochNo>(g.committee_expiration),
                        g.script_committee_credentials,
                    ),
                    states: member_states(s),
                    dreps: fitted(power_of_dump(s)),
                },
            )
        } else {
            None
        },
    }
}

impl LedgerState {
    fn dump_governance(&self) -> (r: Option<GovernanceDump>)
        ensures
            match r {
                Some(g) => all_fit(power_of_dump(self@)) && g.members@ == labelled(
                    listing::<Hash32, EpochNo>(self@.governance.committee_expiration),
                    self@.governance.script_committee_credentials,
                ) && g.states@ == member_states(self@) && g.dreps@ == fitted(power_of_dump(self@)),
                None => !all_fit(power_of_dump(self@)),
            },
    {
        match self.drep_distribution() {
            Some(dreps) => Some(
                GovernanceDump {
                    members: label_table(
                        &self.governance.committee_expiration,
                        &self.governance.script_committee_credentials,
                    ),
                    states: self.committee_states(),
                    dreps,
                },
            ),
            None => None,
        }
    }

    /// What goes into the dump of this epoch; `None` where a total does not
    /// fit `u64`.
    pub fn dump_epoch_state(&self, slot: u64) -> (r: Option<EpochDump>)
        ensures
            match r {
                Some(d) => dump_fits(self@) && d@ == dumped(self@, slot),
                None => !dump_fits(self@),
            },
    {
        let active_stake: u64 = match &self.snapshots.go {
            Some(go) => match total_amount(&go.stake_distribution) {
                Some(x) => x,
                None => {
                    return None;
                },
            },
            None => 0,
        };
        let mark_pool_stake: u64 = match &self.snapshots.mark {
            Some(mark) => match total_amount(&mark.pool_stake) {
                Some(x) => x,
                None => {
                    return None;
                },
            },
            None => 0,
        };
        let deposits = match total_deposits(&self.deposit_tracker.deposits) {
            Some(d) => d,
            None => {
                return None;
            },
        };
        let governance = if self.governance.conway_cur_params.is_some() {
            match self.dump_governance() {
                Some(g) => Some(g),
                None => {
                    return None;
                },
            }
        } else {
            None
        };
        let mut file = decimal(self.epoch.0);
        file.append("-hayate.json");
        let d = EpochDump {
            file,
            epoch: self.epoch.0,
            slot,
            era: snapshot_era_name(self.protocol_params.protocol_version_major),
            active_stake,
            mark_pool_stake,
            deposits,
            mark: dump_snapshot(&self.snapshots.mark),
            set: dump_snapshot(&self.snapshots.set),
            go: dump_snapshot(&self.snapshots.go),
            pay: dump_snapshot(&self.snapshots.pay),
            governance,
        };
        assert(d@ =~= dumped(self@, slot));
        Some(d)
    }
}

} // verus!
