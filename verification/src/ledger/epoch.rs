//! The epoch boundary (NEWEPOCH rule).

use vstd::prelude::*;
use crate::item::Item;
use crate::ledger::changes::changes_text;
use crate::ledger::enact::{deposit_returned, enacted_all, paid, pay_account, updated_params};
use crate::ledger::governance::{stake_of, to_pool_fn};
use crate::ledger::nonce::nonce_ticked;
use crate::ledger::primitives::{
    pad_key, padded_key, sat_add, sat_sub, DRep, EpochNo, GovActionId, Hash28, Hash32, Lovelace, ProtocolParamUpdate,
    ProtocolParameters,
};
use crate::ledger::ratify::{
    after_ratification, enactments_of, live_power, power_fits, ratify_fits, ratify_round, standing_power,
};
use crate::ledger::rewards::{after_rewards, pending_rewards_fit, reward_update, rewards_fit};
use crate::ledger::state::{
    account_key, credential_to_hash, without_deposit, DRepModel, DRepRegistration, DepositType, GovernanceModel,
    LedgerModel, LedgerState, PendingEnactment, PoolRegistration, ProposalModel, ProposalState, SnapshotModel,
    SnapshotsModel, StakeSnapshot,
};
use crate::sums::{clamp, distinct_keys, lemma_pairs_map, lemma_pairs_step, lemma_seq_sum_step, map_sum, pairs_map, seq_sum};
use crate::table::{listing, KeySet, Table};
use crate::text::{decimal, decimal_chars};

verus! {

// ---- parameters ----

/// From the second Conway epoch on, the Conway parameters are in force.
pub open spec fn conway_propagated(s: LedgerModel, new_epoch: EpochNo) -> LedgerModel {
    match (s.conway_genesis_epoch, s.governance.conway_cur_params) {
        (Some(genesis), Some(p)) => if new_epoch.0 > genesis {
            LedgerModel { protocol_params: p, ..s }
        } else {
            s
        },
        _ => s,
    }
}

// ---- rewards ----

/// The reward update of the last boundary is applied, and kept for reference.
pub open spec fn rewards_applied(s: LedgerModel) -> LedgerModel {
    match s.pending_reward_update {
        Some(r) => LedgerModel {
            last_applied_rupd: Some(r),
            ..after_rewards(LedgerModel { pending_reward_update: None, ..s }, r)
        },
        None => LedgerModel { last_applied_rupd: None, ..s },
    }
}

// ---- snapshots ----

pub open spec fn delegated_to(delegations: Map<Hash32, Hash28>, p: Hash28) -> bool {
    exists|c: Hash32| #[trigger] delegations.dom().contains(c) && delegations[c] == p
}

/// Stake of each pool that anyone delegates to: unspent outputs and rewards of
/// its delegators.
pub open spec fn pool_stakes(s: LedgerModel) -> Map<Hash28, Lovelace> {
    Map::new(
        |p: Hash28| delegated_to(s.delegations, p),
        |p: Hash28| Lovelace(
            clamp(map_sum(s.delegations, to_pool_fn(s.stake_map, s.reward_accounts, p)) as int),
        ),
    )
}

/// Stake of each credential that delegates to a registered pool and has any.
pub open spec fn delegated_stakes(s: LedgerModel) -> Map<Hash32, Lovelace> {
    Map::new(
        |c: Hash32|
            s.delegations.dom().contains(c) && s.pool_params.dom().contains(s.delegations[c]) && stake_of(
                s.stake_map,
                s.reward_accounts,
                c,
            ) > 0,
        |c: Hash32| Lovelace(clamp(stake_of(s.stake_map, s.reward_accounts, c) as int)),
    )
}

/// The snapshot of the epoch that ends.
pub open spec fn new_mark(s: LedgerModel) -> SnapshotModel {
    SnapshotModel {
        epoch: s.epoch,
        delegations: s.delegations,
        pool_stake: pool_stakes(s),
        pool_params: s.pool_params,
        stake_distribution: delegated_stakes(s),
        epoch_blocks_by_pool: s.epoch_blocks_by_pool,
        script_stake_credentials: s.script_stake_credentials,
    }
}

/// Go takes over set, set takes over mark, and a new mark is taken.
pub open spec fn snapped(s: LedgerModel) -> LedgerModel {
    LedgerModel {
        snapshots: SnapshotsModel {
            go: s.snapshots.set,
            set: s.snapshots.mark,
            mark: Some(new_mark(s)),
            ..s.snapshots
        },
        ..s
    }
}

// ---- pool retirement ----

/// Re-registrations take effect.
pub open spec fn pools_activated(s: LedgerModel) -> LedgerModel {
    LedgerModel {
        pool_params: s.pool_params.union_prefer_right(s.future_pool_params),
        future_pool_params: Map::empty(),
        ..s
    }
}

/// The pools that are due at an epoch, in ascending order.
pub open spec fn due(l: Seq<(Hash28, EpochNo)>, epoch: EpochNo) -> Seq<Hash28>
    decreases l.len(),
{
    if l.len() == 0 {
        Seq::empty()
    } else if l.last().1 == epoch {
        due(l.drop_last(), epoch).push(l.last().0)
    } else {
        due(l.drop_last(), epoch)
    }
}

/// The key under which the deposit of a pool is kept.
pub open spec fn pool_key(p: Hash28) -> Hash32 {
    padded_key(p@)
}

pub(crate) fn key_of_pool(p: &Hash28) -> (r: Hash32)
    ensures
        r == pool_key(*p),
{
    assert(p@.subrange(0, 28) =~= p@);
    pad_key(p.as_slice(), 0)
}

/// A pool retires. Its deposit goes to the reward account of its operator, or
/// to the treasury where that account is not registered.
pub open spec fn pool_retired(s: LedgerModel, p: Hash28) -> LedgerModel {
    if !s.pool_params.dom().contains(p) {
        LedgerModel { pending_retirements: s.pending_retirements.remove(p), ..s }
    } else {
        let operator = account_key(s.pool_params[p].reward_account);
        let deposit = s.protocol_params.pool_deposit;
        let known = s.reward_accounts.dom().contains(operator) || s.delegations.dom().contains(operator);
        LedgerModel {
            pending_retirements: s.pending_retirements.remove(p),
            pool_params: s.pool_params.remove(p),
            reward_accounts: if known {
                paid(s.reward_accounts, operator, deposit)
            } else {
                s.reward_accounts
            },
            treasury: if known {
                s.treasury
            } else {
                Lovelace(sat_add(s.treasury.0, deposit))
            },
            deposits: without_deposit(s.deposits, pool_key(p), DepositType::Pool),
            ..s
        }
    }
}

pub open spec fn pools_retired(s: LedgerModel, l: Seq<Hash28>) -> LedgerModel
    decreases l.len(),
{
    if l.len() == 0 {
        s
    } else {
        pool_retired(pools_retired(s, l.drop_last()), l.last())
    }
}

/// The delegations to pools other than the given ones.
pub open spec fn delegations_kept(delegations: Map<Hash32, Hash28>, gone: spec_fn(Hash28) -> bool) -> Map<Hash32, Hash28> {
    Map::new(
        |c: Hash32| delegations.dom().contains(c) && !gone(delegations[c]),
        |c: Hash32| delegations[c],
    )
}

/// Which pools are gone between two states.
pub open spec fn gone_fn(before: LedgerModel, after: LedgerModel) -> spec_fn(Hash28) -> bool {
    |p: Hash28| before.pool_params.dom().contains(p) && !after.pool_params.dom().contains(p)
}

/// Pools that are due retire (POOLREAP rule), and nobody delegates to them
/// any more.
pub open spec fn pools_reaped(s: LedgerModel, new_epoch: EpochNo) -> LedgerModel {
    let a = pools_activated(s);
    let r = pools_retired(a, due(listing::<Hash28, EpochNo>(s.pending_retirements), new_epoch));
    LedgerModel { delegations: delegations_kept(a.delegations, gone_fn(a, r)), ..r }
}

// ---- parameter updates before Conway ----

/// How many delegates propose an update.
pub open spec fn supporters(l: Seq<(Hash32, ProtocolParamUpdate)>, u: ProtocolParamUpdate) -> nat
    decreases l.len(),
{
    if l.len() == 0 {
        0
    } else {
        supporters(l.drop_last(), u) + if l.last().1 == u {
            1nat
        } else {
            0nat
        }
    }
}

/// The first proposal from position `i` on that enough delegates support.
pub open spec fn voted_from(l: Seq<(Hash32, ProtocolParamUpdate)>, quorum: u64, i: int) -> Option<ProtocolParamUpdate>
    decreases l.len() - i,
{
    if i < 0 || i >= l.len() {
        None
    } else if supporters(l, l[i].1) >= quorum {
        Some(l[i].1)
    } else {
        voted_from(l, quorum, i + 1)
    }
}

/// The update that enough delegates propose.
pub open spec fn voted_update(m: Map<Hash32, ProtocolParamUpdate>, quorum: u64) -> Option<ProtocolParamUpdate> {
    voted_from(listing::<Hash32, ProtocolParamUpdate>(m), quorum, 0)
}

/// What is logged of an enacted update.
pub open spec fn enacted_message(new_epoch: EpochNo, p: ProtocolParameters, u: ProtocolParamUpdate) -> Seq<char> {
    "PPUP: enacted protocol parameter update epoch="@ + decimal_chars(new_epoch.0 as nat) + " changes=\""@
        + changes_text(p, u) + "\""@
}

/// The proposals of the epoch that ends are decided, and those of earlier
/// epochs discarded.
pub open spec fn updates_decided(s: LedgerModel, new_epoch: EpochNo) -> LedgerModel {
    let kept = Map::new(
        |e: EpochNo| s.pending_pp_updates.dom().contains(e) && e.0 > s.epoch.0,
        |e: EpochNo| s.pending_pp_updates[e],
    );
    let winner = if s.pending_pp_updates.dom().contains(s.epoch) {
        voted_update(s.pending_pp_updates[s.epoch], s.update_quorum)
    } else {
        None
    };
    match winner {
        Some(u) => LedgerModel {
            pending_pp_updates: kept,
            protocol_params: updated_params(s.protocol_params, u),
            ppup_enacted_log: Some(enacted_message(new_epoch, s.protocol_params, u)),
            ..s
        },
        None => LedgerModel { pending_pp_updates: kept, ..s },
    }
}

// ---- governance ----

/// The proposals whose lifetime is over, in ascending order.
pub open spec fn overdue(l: Seq<(GovActionId, ProposalModel)>, epoch: EpochNo) -> Seq<GovActionId>
    decreases l.len(),
{
    if l.len() == 0 {
        Seq::empty()
    } else if l.last().1.expires_epoch.0 < epoch.0 {
        overdue(l.drop_last(), epoch).push(l.last().0)
    } else {
        overdue(l.drop_last(), epoch)
    }
}

/// A proposal expires: its deposit goes back, and its votes are forgotten.
pub open spec fn proposal_expired(s: LedgerModel, id: GovActionId) -> LedgerModel {
    let g = s.governance;
    let t = LedgerModel {
        governance: GovernanceModel {
            proposals: g.proposals.remove(id),
            votes_by_action: g.votes_by_action.remove(id),
            ..g
        },
        ..s
    };
    if g.proposals.dom().contains(id) {
        let p = g.proposals[id].procedure;
        deposit_returned(t, id, p.return_addr.hash(), p.deposit)
    } else {
        t
    }
}

pub open spec fn proposals_expired(s: LedgerModel, l: Seq<GovActionId>) -> LedgerModel
    decreases l.len(),
{
    if l.len() == 0 {
        s
    } else {
        proposal_expired(proposals_expired(s, l.drop_last()), l.last())
    }
}

pub open spec fn overdue_expired(s: LedgerModel, new_epoch: EpochNo) -> LedgerModel {
    let l = overdue(listing::<GovActionId, ProposalModel>(s.governance.proposals), new_epoch);
    let t = proposals_expired(s, l);
    LedgerModel { governance: GovernanceModel { last_expired: l, ..t.governance }, ..t }
}

/// A DRep is active as long as its last activity is no further back than the
/// activity period.
pub open spec fn drep_aged(d: DRepModel, period: u64, epoch: EpochNo) -> DRepModel {
    DRepModel { active: sat_sub(epoch.0, d.last_active_epoch.0) <= period, ..d }
}

pub open spec fn dreps_aged(s: LedgerModel, new_epoch: EpochNo) -> LedgerModel {
    let period = s.protocol_params.drep_activity_period;
    if period == 0 {
        s
    } else {
        LedgerModel {
            governance: GovernanceModel {
                dreps: s.governance.dreps.map_values(|d: DRepModel| drep_aged(d, period, new_epoch)),
                ..s.governance
            },
            ..s
        }
    }
}

/// Whether the term of a committee member is over.
pub open spec fn term_over(g: GovernanceModel, c: Hash32, epoch: EpochNo) -> bool {
    g.committee_expiration.dom().contains(c) && g.committee_expiration[c].0 <= epoch.0
}

/// Committee members whose term is over leave.
pub open spec fn committee_expired(s: LedgerModel, new_epoch: EpochNo) -> LedgerModel {
    let g = s.governance;
    LedgerModel {
        governance: GovernanceModel {
            committee_hot_keys: Map::new(
                |c: Hash32| g.committee_hot_keys.dom().contains(c) && !term_over(g, c, new_epoch),
                |c: Hash32| g.committee_hot_keys[c],
            ),
            committee_expiration: Map::new(
                |c: Hash32| g.committee_expiration.dom().contains(c) && !term_over(g, c, new_epoch),
                |c: Hash32| g.committee_expiration[c],
            ),
            ..g
        },
        ..s
    }
}

/// The DRep power is kept for the next ratification, where anyone delegates
/// a vote.
pub open spec fn power_snapped(s: LedgerModel) -> LedgerModel {
    if s.governance.vote_delegations == Map::<Hash32, DRep>::empty() {
        s
    } else {
        LedgerModel {
            governance: GovernanceModel {
                drep_power_snapshot: live_power(s),
                drep_no_confidence_snapshot: standing_power(s, DRep::AlwaysNoConfidence) as u64,
                drep_abstain_snapshot: standing_power(s, DRep::AlwaysAbstain) as u64,
                ..s.governance
            },
            ..s
        }
    }
}

// ---- the next reward update ----

/// The stake of go with the blocks of the epoch that ends.
pub open spec fn pay_snapshot(s: LedgerModel) -> Option<SnapshotModel> {
    match s.snapshots.go {
        Some(go) => Some(SnapshotModel { epoch_blocks_by_pool: s.epoch_blocks_by_pool, ..go }),
        None => None,
    }
}

/// What rewards are computed from: the pay snapshot, or one without stake as
/// long as there is none.
pub open spec fn reward_basis(s: LedgerModel) -> SnapshotModel {
    match pay_snapshot(s) {
        Some(pay) => pay,
        None => SnapshotModel {
            epoch: s.epoch,
            delegations: Map::empty(),
            pool_stake: Map::empty(),
            pool_params: s.pool_params,
            stake_distribution: Map::empty(),
            epoch_blocks_by_pool: Map::empty(),
            script_stake_credentials: Set::empty(),
        },
    }
}

/// The next reward update is computed, under the parameters of the epoch that
/// ends.
pub open spec fn rewards_computed(s: LedgerModel, pp: ProtocolParameters) -> LedgerModel {
    LedgerModel {
        snapshots: SnapshotsModel { pay: pay_snapshot(s), ..s.snapshots },
        pending_reward_update: Some(reward_update(s, reward_basis(s), s.snapshots.current_epoch_fees, pp)),
        ..s
    }
}

/// The counters of the epoch start anew.
pub open spec fn epoch_started(s: LedgerModel, new_epoch: EpochNo) -> LedgerModel {
    LedgerModel {
        epoch_fees: Lovelace(0),
        epoch_blocks_by_pool: Map::empty(),
        epoch_block_count: 0,
        epoch: new_epoch,
        ..s
    }
}

// ---- the transition ----

/// The state in which proposals are ratified.
pub open spec fn before_ratification(s: LedgerModel, new_epoch: EpochNo) -> LedgerModel {
    let t = pools_reaped(snapped(rewards_applied(conway_propagated(s, new_epoch))), new_epoch);
    let u = LedgerModel {
        pending_enactments: Seq::empty(),
        snapshots: SnapshotsModel { current_epoch_fees: t.epoch_fees, ..t.snapshots },
        ..t
    };
    LedgerModel {
        prev_epoch_decentralization: s.protocol_params.decentralization,
        ..updates_decided(u, new_epoch)
    }
}

/// Proposals are ratified and enacted, and what is overdue expires.
pub open spec fn governed(s: LedgerModel, new_epoch: EpochNo) -> LedgerModel {
    let t = enacted_all(after_ratification(s), enactments_of(ratify_round(s).ratified));
    committee_expired(dreps_aged(overdue_expired(t, new_epoch), new_epoch), new_epoch)
}

/// The state in which the DRep power is kept.
pub open spec fn before_power(s: LedgerModel, new_epoch: EpochNo) -> LedgerModel {
    governed(before_ratification(s, new_epoch), new_epoch)
}

/// The state in which the next reward update is computed.
pub open spec fn before_rewards(s: LedgerModel, new_epoch: EpochNo) -> LedgerModel {
    nonce_ticked(power_snapped(before_power(s, new_epoch)))
}

/// The ledger after an epoch boundary.
pub open spec fn after_transition(s: LedgerModel, new_epoch: EpochNo) -> LedgerModel {
    epoch_started(rewards_computed(before_rewards(s, new_epoch), s.protocol_params), new_epoch)
}

/// All sums that an epoch boundary takes stay within `u64`.
pub open spec fn transition_fits(s: LedgerModel, new_epoch: EpochNo) -> bool {
    let r = before_rewards(s, new_epoch);
    &&& pending_rewards_fit(s)
    &&& ratify_fits(before_ratification(s, new_epoch))
    &&& before_power(s, new_epoch).governance.vote_delegations != Map::<Hash32, DRep>::empty()
        ==> power_fits(before_power(s, new_epoch))
    &&& rewards_fit(r, reward_basis(r), r.snapshots.current_epoch_fees, s.protocol_params)
}

// ---- the steps ----

spec fn stakes_over(m: Map<Hash32, Hash28>, s: LedgerModel) -> Map<Hash32, Lovelace> {
    delegated_stakes(LedgerModel { delegations: m, ..s })
}

spec fn seq_delegated(e: Seq<(Hash32, Hash28)>, p: Hash28) -> bool {
    exists|j: int| #![trigger e[j]] 0 <= j < e.len() && e[j].1 == p
}

proof fn lemma_seq_delegated(e: Seq<(Hash32, Hash28)>, i: int, p: Hash28)
    requires
        0 <= i < e.len(),
    ensures
        seq_delegated(e.take(i + 1), p) == (seq_delegated(e.take(i), p) || e[i].1 == p),
{
    let a = e.take(i);
    let b = e.take(i + 1);
    assert(b[i] == e[i]);
    if seq_delegated(b, p) {
        let j = choose|j: int| #![trigger b[j]] 0 <= j < b.len() && b[j].1 == p;
        if j < i {
            assert(a[j] == b[j]);
        }
    }
    if seq_delegated(a, p) {
        let j = choose|j: int| #![trigger a[j]] 0 <= j < a.len() && a[j].1 == p;
        assert(b[j] == a[j]);
    }
}

spec fn pool_or_zero(m: Map<Hash28, Lovelace>, p: Hash28) -> u64 {
    if m.dom().contains(p) {
        m[p].0
    } else {
        0
    }
}

impl LedgerState {
    fn propagate_conway_params(&mut self, new_epoch: EpochNo)
        ensures
            final(self)@ == conway_propagated(old(self)@, new_epoch),
    {
        if let Some(genesis) = self.conway_genesis_epoch {
            if let Some(p) = self.governance.conway_cur_params {
                if new_epoch.0 > genesis {
                    self.protocol_params = p;
                }
            }
        }
    }

    fn apply_due_rewards(&mut self)
        requires
            pending_rewards_fit(old(self)@),
        ensures
            final(self)@ == rewards_applied(old(self)@),
    {
        let ghost s = self@;
        match self.pending_reward_update.take() {
            Some(rupd) => {
                assert(self@ =~= (LedgerModel { pending_reward_update: None, ..s }));
                self.apply_rewards(&rupd);
                self.last_applied_rupd = Some(rupd);
            },
            None => {
                self.last_applied_rupd = None;
            },
        }
        assert(self@ =~= rewards_applied(s));
    }

    /// Unspent outputs and rewards of a credential, as far as `u64` goes.
    fn stake_now(&self, cred: &Hash32) -> (r: u64)
        ensures
            r == clamp(stake_of(self@.stake_map, self@.reward_accounts, *cred) as int),
    {
        let utxo: u64 = match self.stake_distribution.stake_map.get(cred) {
            Some(l) => l.0,
            None => 0,
        };
        let reward: u64 = match self.reward_accounts.get(cred) {
            Some(l) => l.0,
            None => 0,
        };
        utxo.saturating_add(reward)
    }

    fn stake_by_pool(&self) -> (r: Table<Hash28, Lovelace>)
        ensures
            r@ == pool_stakes(self@),
    {
        let ghost s = self@;
        let ghost e = self.delegations.entries();
        let n: usize = self.delegations.len();
        let mut r: Table<Hash28, Lovelace> = Table::new();
        let mut i: usize = 0;
        while i < n
            invariant
                i <= n,
                n == e.len(),
                s == self@,
                e == self.delegations.entries(),
                forall|p: Hash28|
                    #![trigger r@.dom().contains(p)]
                    r@.dom().contains(p) == seq_delegated(e.take(i as int), p),
                forall|p: Hash28| #[trigger]
                    pool_or_zero(r@, p) == clamp(
                        seq_sum(e.take(i as int), to_pool_fn(s.stake_map, s.reward_accounts, p)) as int,
                    ),
            decreases n - i,
        {
            let cred: &Hash32 = self.delegations.key_at(i);
            let pool: Hash28 = *self.delegations.value_at(i);
            let stake: u64 = self.stake_now(cred);
            let before: u64 = match r.get(&pool) {
                Some(l) => l.0,
                None => 0,
            };
            let ghost old_r = r@;
            r.insert(pool, Lovelace(before.saturating_add(stake)));
            proof {
                assert(pool_or_zero(old_r, pool) == before);
                assert forall|p: Hash28| #[trigger] pool_or_zero(r@, p) == clamp(
                    seq_sum(e.take(i + 1), to_pool_fn(s.stake_map, s.reward_accounts, p)) as int,
                ) by {
                    lemma_seq_sum_step(e, to_pool_fn(s.stake_map, s.reward_accounts, p), i as int);
                    assert(pool_or_zero(old_r, p) == clamp(
                        seq_sum(e.take(i as int), to_pool_fn(s.stake_map, s.reward_accounts, p)) as int,
                    ));
                }
                assert forall|p: Hash28|
                    #![trigger r@.dom().contains(p)]
                    r@.dom().contains(p) == seq_delegated(e.take(i + 1), p) by {
                    lemma_seq_delegated(e, i as int, p);
                    assert(old_r.dom().contains(p) == seq_delegated(e.take(i as int), p));
                }
            }
            i += 1;
        }
        proof {
            assert(e.take(i as int) =~= e);
            self.delegations.lemma_entries();
            lemma_pairs_map(e);
            let m = s.delegations;
            assert forall|p: Hash28| seq_delegated(e, p) == #[trigger] delegated_to(m, p) by {
                if seq_delegated(e, p) {
                    let j = choose|j: int| #![trigger e[j]] 0 <= j < e.len() && e[j].1 == p;
                    assert(m.dom().contains(e[j].0));
                }
                if delegated_to(m, p) {
                    let c = choose|c: Hash32| #[trigger] m.dom().contains(c) && m[c] == p;
                    let j = choose|j: int| #![trigger e[j]] 0 <= j < e.len() && e[j].0 == c;
                    assert(m[e[j].0] == e[j].1);
                }
            }
            assert forall|p: Hash28| #[trigger] r@.dom().contains(p) implies r@[p] == Lovelace(
                clamp(map_sum(m, to_pool_fn(s.stake_map, s.reward_accounts, p)) as int),
            ) by {
                self.delegations.lemma_sum(to_pool_fn(s.stake_map, s.reward_accounts, p));
                assert(pool_or_zero(r@, p) == r@[p].0);
            }
            assert(r@ =~= pool_stakes(s));
        }
        r
    }

    fn stake_by_delegator(&self) -> (r: Table<Hash32, Lovelace>)
        ensures
            r@ == delegated_stakes(self@),
    {
        let ghost s = self@;
        let ghost e = self.delegations.entries();
        let n: usize = self.delegations.len();
        let mut r: Table<Hash32, Lovelace> = Table::new();
        proof {
            self.delegations.lemma_entries();
            assert(r@ =~= stakes_over(pairs_map(e.take(0)), s));
        }
        let mut i: usize = 0;
        while i < n
            invariant
                i <= n,
                n == e.len(),
                s == self@,
                e == self.delegations.entries(),
                distinct_keys(e),
                r@ == stakes_over(pairs_map(e.take(i as int)), s),
            decreases n - i,
        {
            proof {
                lemma_pairs_step(e, i as int);
            }
            let cred: &Hash32 = self.delegations.key_at(i);
            if self.pool_params.contains_key(self.delegations.value_at(i)) {
                let stake: u64 = self.stake_now(cred);
                if stake > 0 {
                    r.insert(*cred, Lovelace(stake));
                }
            }
            assert(r@ =~= stakes_over(pairs_map(e.take(i + 1)), s));
            i += 1;
        }
        proof {
            assert(e.take(i as int) =~= e);
            assert(stakes_over(pairs_map(e), s) =~= delegated_stakes(s));
        }
        r
    }

    fn take_snapshot(&mut self)
        ensures
            final(self)@ == snapped(old(self)@),
    {
        let ghost s = self@;
        let mark = StakeSnapshot {
            epoch: self.epoch,
            delegations: self.delegations.dup(),
            pool_stake: self.stake_by_pool(),
            pool_params: self.pool_params.dup(),
            stake_distribution: self.stake_by_delegator(),
            epoch_blocks_by_pool: self.epoch_blocks_by_pool.dup(),
            script_stake_credentials: self.script_stake_credentials.dup(),
        };
        assert(mark.model() =~= new_mark(s));
        self.snapshots.go = self.snapshots.set.take();
        self.snapshots.set = self.snapshots.mark.take();
        self.snapshots.mark = Some(mark);
        assert(self@ =~= snapped(s));
    }

    fn activate_pools(&mut self)
        ensures
            final(self)@ == pools_activated(old(self)@),
    {
        let ghost s = self@;
        let ghost e = self.future_pool_params.entries();
        let n: usize = self.future_pool_params.len();
        proof {
            self.future_pool_params.lemma_entries();
            assert(s.pool_params =~= s.pool_params.union_prefer_right(pairs_map(e.take(0))));
        }
        let mut i: usize = 0;
        while i < n
            invariant
                i <= n,
                n == e.len(),
                e == self.future_pool_params.entries(),
                distinct_keys(e),
                self@ == (LedgerModel {
                    pool_params: s.pool_params.union_prefer_right(pairs_map(e.take(i as int))),
                    ..s
                }),
            decreases n - i,
        {
            proof {
                lemma_pairs_step(e, i as int);
            }
            let id: Hash28 = *self.future_pool_params.key_at(i);
            let reg: PoolRegistration = self.future_pool_params.value_at(i).dup();
            self.pool_params.insert(id, reg);
            assert(self@.pool_params =~= s.pool_params.union_prefer_right(pairs_map(e.take(i + 1))));
            i += 1;
        }
        assert(e.take(i as int) =~= e);
        self.future_pool_params.clear();
        assert(self@ =~= pools_activated(s));
    }

    fn due_pools(&self, epoch: EpochNo) -> (r: Vec<Hash28>)
        ensures
            r@ == due(listing::<Hash28, EpochNo>(self@.pending_retirements), epoch),
    {
        let ghost l = self.pending_retirements.entries();
        let n: usize = self.pending_retirements.len();
        let mut r: Vec<Hash28> = Vec::new();
        let mut i: usize = 0;
        while i < n
            invariant
                i <= n,
                n == l.len(),
                l == self.pending_retirements.entries(),
                r@ == due(l.take(i as int), epoch),
            decreases n - i,
        {
            assert(l.take(i + 1).drop_last() =~= l.take(i as int));
            if self.pending_retirements.value_at(i).0 == epoch.0 {
                r.push(*self.pending_retirements.key_at(i));
            }
            i += 1;
        }
        proof {
            assert(l.take(i as int) =~= l);
            self.pending_retirements.lemma_entries();
        }
        r
    }

    /// Retires one pool; tells whether it was registered.
    fn retire_pool(&mut self, pool: &Hash28) -> (r: bool)
        ensures
            final(self)@ == pool_retired(old(self)@, *pool),
            r == old(self)@.pool_params.dom().contains(*pool),
    {
        let ghost s = self@;
        self.pending_retirements.remove(pool);
        match self.pool_params.remove(pool) {
            Some(reg) => {
                let operator: Hash32 = Self::reward_account_to_hash(reg.reward_account.as_slice());
                let deposit: u64 = self.protocol_params.pool_deposit;
                if self.reward_accounts.contains_key(&operator) || self.delegations.contains_key(&operator) {
                    pay_account(&mut self.reward_accounts, &operator, deposit);
                } else {
                    self.treasury = Lovelace(self.treasury.0.saturating_add(deposit));
                }
                let _ = self.deposit_tracker.refund_deposit(&key_of_pool(pool), DepositType::Pool);
                assert(self@ =~= pool_retired(s, *pool));
                true
            },
            None => {
                assert(self@ =~= pool_retired(s, *pool));
                false
            },
        }
    }

    fn reap_pools(&mut self, new_epoch: EpochNo)
        ensures
            final(self)@ == pools_reaped(old(self)@, new_epoch),
    {
        let ghost s = self@;
        self.activate_pools();
        let ghost a = self@;
        let list: Vec<Hash28> = self.due_pools(new_epoch);
        let ghost l = list@;
        let mut gone: KeySet<Hash28> = KeySet::new();
        let mut i: usize = 0;
        while i < list.len()
            invariant
                i <= list.len(),
                l == list@,
                self@ == pools_retired(a, l.take(i as int)),
                forall|p: Hash28| #[trigger] gone@.contains(p) == gone_fn(a, self@)(p),
                forall|p: Hash28| #[trigger] self@.pool_params.dom().contains(p) ==> a.pool_params.dom().contains(p),
                self@.delegations == a.delegations,
            decreases list.len() - i,
        {
            assert(l.take(i + 1).drop_last() =~= l.take(i as int));
            let pool: Hash28 = list[i];
            let ghost t = self@;
            if self.retire_pool(&pool) {
                gone.insert(pool);
            }
            proof {
                assert forall|p: Hash28| #[trigger] gone@.contains(p) == gone_fn(a, self@)(p) by {
                    assert(t.pool_params.dom().contains(p) ==> a.pool_params.dom().contains(p));
                }
                assert forall|p: Hash28| #[trigger] self@.pool_params.dom().contains(p) implies a.pool_params.dom().contains(p) by {
                    assert(t.pool_params.dom().contains(p));
                }
            }
            i += 1;
        }
        assert(l.take(i as int) =~= l);
        let ghost r = self@;
        let ghost gf = gone_fn(a, r);
        let ghost e = self.delegations.entries();
        let n: usize = self.delegations.len();
        let mut kept: Table<Hash32, Hash28> = Table::new();
        proof {
            self.delegations.lemma_entries();
            assert(kept@ =~= delegations_kept(pairs_map(e.take(0)), gf));
        }
        let mut j: usize = 0;
        while j < n
            invariant
                j <= n,
                n == e.len(),
                e == self.delegations.entries(),
                distinct_keys(e),
                self@ == r,
                gf == gone_fn(a, r),
                forall|p: Hash28| #[trigger] gone@.contains(p) == gf(p),
                kept@ == delegations_kept(pairs_map(e.take(j as int)), gf),
            decreases n - j,
        {
            proof {
                lemma_pairs_step(e, j as int);
            }
            let pool: Hash28 = *self.delegations.value_at(j);
            if !gone.contains(&pool) {
                kept.insert(*self.delegations.key_at(j), pool);
            }
            assert(kept@ =~= delegations_kept(pairs_map(e.take(j + 1)), gf));
            j += 1;
        }
        assert(e.take(j as int) =~= e);
        self.delegations = kept;
        assert(self@ =~= pools_reaped(s, new_epoch));
    }
}

/// How many proposals equal the one at position `i`.
fn count_supporters(proposals: &Table<Hash32, ProtocolParamUpdate>, i: usize) -> (r: u64)
    requires
        i < proposals.entries().len(),
    ensures
        r == supporters(proposals.entries(), proposals.entries()[i as int].1),
{
    let ghost l = proposals.entries();
    let n: usize = proposals.len();
    let u: ProtocolParamUpdate = *proposals.value_at(i);
    let mut count: u64 = 0;
    let mut j: usize = 0;
    while j < n
        invariant
            j <= n,
            n == l.len(),
            l == proposals.entries(),
            count == supporters(l.take(j as int), u),
            count <= j,
        decreases n - j,
    {
        assert(l.take(j + 1).drop_last() =~= l.take(j as int));
        if proposals.value_at(j).same(&u) {
            count += 1;
        }
        j += 1;
    }
    assert(l.take(j as int) =~= l);
    count
}

/// The update that enough delegates propose.
pub fn voted_value(proposals: &Table<Hash32, ProtocolParamUpdate>, quorum: u64) -> (r: Option<ProtocolParamUpdate>)
    ensures
        r == voted_update(proposals@, quorum),
{
    let ghost l = proposals.entries();
    let n: usize = proposals.len();
    proof {
        proposals.lemma_entries();
    }
    let mut i: usize = 0;
    while i < n
        invariant
            i <= n,
            n == l.len(),
            l == proposals.entries(),
            l == listing::<Hash32, ProtocolParamUpdate>(proposals@),
            voted_from(l, quorum, 0) == voted_from(l, quorum, i as int),
        decreases n - i,
    {
        if count_supporters(proposals, i) >= quorum {
            return Some(*proposals.value_at(i));
        }
        i += 1;
    }
    None
}

fn message_of(new_epoch: EpochNo, p: &ProtocolParameters, u: &ProtocolParamUpdate) -> (r: String)
    ensures
        r@ == enacted_message(new_epoch, *p, *u),
{
    let mut r = "PPUP: enacted protocol parameter update epoch=".to_string();
    r.append(decimal(new_epoch.0).as_str());
    r.append(" changes=\"");
    r.append(u.format_changes(p).as_str());
    r.append("\"");
    r
}

spec fn later_updates(m: Map<EpochNo, Map<Hash32, ProtocolParamUpdate>>, epoch: EpochNo) -> Map<
    EpochNo,
    Map<Hash32, ProtocolParamUpdate>,
> {
    Map::new(|e: EpochNo| m.dom().contains(e) && e.0 > epoch.0, |e: EpochNo| m[e])
}

spec fn terms_kept(m: Map<Hash32, EpochNo>, epoch: EpochNo) -> Map<Hash32, EpochNo> {
    Map::new(|c: Hash32| m.dom().contains(c) && m[c].0 > epoch.0, |c: Hash32| m[c])
}

spec fn hot_keys_kept(m: Map<Hash32, Hash32>, g: GovernanceModel, epoch: EpochNo) -> Map<Hash32, Hash32> {
    Map::new(|c: Hash32| m.dom().contains(c) && !term_over(g, c, epoch), |c: Hash32| m[c])
}

impl LedgerState {
    fn decide_updates(&mut self, new_epoch: EpochNo)
        ensures
            final(self)@ == updates_decided(old(self)@, new_epoch),
    {
        let ghost s = self@;
        let winner: Option<ProtocolParamUpdate> = match self.pending_pp_updates.get(&self.epoch) {
            Some(proposals) => voted_value(proposals, self.update_quorum),
            None => None,
        };
        if let Some(u) = winner {
            let message = message_of(new_epoch, &self.protocol_params, &u);
            let _ = self.apply_protocol_param_update(&u);
            self.ppup_enacted_log = Some(message);
        }
        let ghost t = self@;
        let ghost e = self.pending_pp_updates.entries();
        let n: usize = self.pending_pp_updates.len();
        let mut kept: Table<EpochNo, Table<Hash32, ProtocolParamUpdate>> = Table::new();
        proof {
            self.pending_pp_updates.lemma_entries();
            assert(kept@ =~= later_updates(pairs_map(e.take(0)), s.epoch));
        }
        let mut i: usize = 0;
        while i < n
            invariant
                i <= n,
                n == e.len(),
                e == self.pending_pp_updates.entries(),
                distinct_keys(e),
                self@ == t,
                t.epoch == s.epoch,
                kept@ == later_updates(pairs_map(e.take(i as int)), s.epoch),
            decreases n - i,
        {
            proof {
                lemma_pairs_step(e, i as int);
            }
            let epoch: EpochNo = *self.pending_pp_updates.key_at(i);
            if epoch.0 > self.epoch.0 {
                let proposals = self.pending_pp_updates.value_at(i).dup();
                kept.insert(epoch, proposals);
            }
            assert(kept@ =~= later_updates(pairs_map(e.take(i + 1)), s.epoch));
            i += 1;
        }
        assert(e.take(i as int) =~= e);
        self.pending_pp_updates = kept;
        assert(self@ =~= updates_decided(s, new_epoch));
    }

    fn overdue_proposals(&self, epoch: EpochNo) -> (r: Vec<GovActionId>)
        ensures
            r@ == overdue(listing::<GovActionId, ProposalModel>(self@.governance.proposals), epoch),
    {
        let ghost l = self.governance.proposals.entries();
        let n: usize = self.governance.proposals.len();
        let mut r: Vec<GovActionId> = Vec::new();
        let mut i: usize = 0;
        while i < n
            invariant
                i <= n,
                n == l.len(),
                l == self.governance.proposals.entries(),
                r@ == overdue(l.take(i as int), epoch),
            decreases n - i,
        {
            assert(l.take(i + 1).drop_last() =~= l.take(i as int));
            if self.governance.proposals.value_at(i).expires_epoch.0 < epoch.0 {
                r.push(*self.governance.proposals.key_at(i));
            }
            i += 1;
        }
        proof {
            assert(l.take(i as int) =~= l);
            self.governance.proposals.lemma_entries();
        }
        r
    }

    fn expire_proposal(&mut self, id: &GovActionId)
        ensures
            final(self)@ == proposal_expired(old(self)@, *id),
    {
        let ghost s = self@;
        let gone: Option<ProposalState> = self.governance.proposals.remove(id);
        self.governance.votes_by_action.remove(id);
        let ghost t = LedgerModel {
            governance: GovernanceModel {
                proposals: s.governance.proposals.remove(*id),
                votes_by_action: s.governance.votes_by_action.remove(*id),
                ..s.governance
            },
            ..s
        };
        assert(self@ =~= t);
        if let Some(p) = gone {
            self.return_deposit(id, &credential_to_hash(&p.procedure.return_addr), p.procedure.deposit);
        }
    }

    fn expire_proposals(&mut self, new_epoch: EpochNo)
        ensures
            final(self)@ == overdue_expired(old(self)@, new_epoch),
    {
        let ghost s = self@;
        let list: Vec<GovActionId> = self.overdue_proposals(new_epoch);
        let ghost l = list@;
        let mut i: usize = 0;
        while i < list.len()
            invariant
                i <= list.len(),
                l == list@,
                self@ == proposals_expired(s, l.take(i as int)),
            decreases list.len() - i,
        {
            assert(l.take(i + 1).drop_last() =~= l.take(i as int));
            self.expire_proposal(&list[i]);
            i += 1;
        }
        assert(l.take(i as int) =~= l);
        self.governance.last_expired = list;
        assert(self@ =~= overdue_expired(s, new_epoch));
    }

    fn age_dreps(&mut self, new_epoch: EpochNo)
        ensures
            final(self)@ == dreps_aged(old(self)@, new_epoch),
    {
        let ghost s = self@;
        let period: u64 = self.protocol_params.drep_activity_period;
        if period == 0 {
            return;
        }
        let ghost f = |d: DRepModel| drep_aged(d, period, new_epoch);
        let ghost e = self.governance.dreps.entries();
        let n: usize = self.governance.dreps.len();
        let mut aged: Table<Hash32, DRepRegistration> = Table::new();
        proof {
            self.governance.dreps.lemma_entries();
            assert(aged@ =~= pairs_map(e.take(0)).map_values(f));
        }
        let mut i: usize = 0;
        while i < n
            invariant
                i <= n,
                n == e.len(),
                e == self.governance.dreps.entries(),
                distinct_keys(e),
                self@ == s,
                f == (|d: DRepModel| drep_aged(d, period, new_epoch)),
                aged@ == pairs_map(e.take(i as int)).map_values(f),
            decreases n - i,
        {
            proof {
                lemma_pairs_step(e, i as int);
            }
            let mut d: DRepRegistration = self.governance.dreps.value_at(i).dup();
            d.active = new_epoch.0.saturating_sub(d.last_active_epoch.0) <= period;
            aged.insert(*self.governance.dreps.key_at(i), d);
            assert(aged@ =~= pairs_map(e.take(i + 1)).map_values(f));
            i += 1;
        }
        assert(e.take(i as int) =~= e);
        self.governance.dreps = aged;
        assert(self@ =~= dreps_aged(s, new_epoch));
    }

    fn expire_committee(&mut self, new_epoch: EpochNo)
        ensures
            final(self)@ == committee_expired(old(self)@, new_epoch),
    {
        let ghost s = self@;
        let ghost g = s.governance;
        let ghost h = self.governance.committee_hot_keys.entries();
        let hn: usize = self.governance.committee_hot_keys.len();
        let mut hot: Table<Hash32, Hash32> = Table::new();
        proof {
            self.governance.committee_hot_keys.lemma_entries();
            assert(hot@ =~= hot_keys_kept(pairs_map(h.take(0)), g, new_epoch));
        }
        let mut i: usize = 0;
        while i < hn
            invariant
                i <= hn,
                hn == h.len(),
                h == self.governance.committee_hot_keys.entries(),
                distinct_keys(h),
                self@ == s,
                g == s.governance,
                hot@ == hot_keys_kept(pairs_map(h.take(i as int)), g, new_epoch),
            decreases hn - i,
        {
            proof {
                lemma_pairs_step(h, i as int);
            }
            let cold: &Hash32 = self.governance.committee_hot_keys.key_at(i);
            let over: bool = match self.governance.committee_expiration.get(cold) {
                Some(e) => e.0 <= new_epoch.0,
                None => false,
            };
            if !over {
                hot.insert(*cold, *self.governance.committee_hot_keys.value_at(i));
            }
            assert(hot@ =~= hot_keys_kept(pairs_map(h.take(i + 1)), g, new_epoch));
            i += 1;
        }
        assert(h.take(i as int) =~= h);
        let ghost e = self.governance.committee_expiration.entries();
        let n: usize = self.governance.committee_expiration.len();
        let mut terms: Table<Hash32, EpochNo> = Table::new();
        proof {
            self.governance.committee_expiration.lemma_entries();
            assert(terms@ =~= terms_kept(pairs_map(e.take(0)), new_epoch));
        }
        let mut j: usize = 0;
        while j < n
            invariant
                j <= n,
                n == e.len(),
                e == self.governance.committee_expiration.entries(),
                distinct_keys(e),
                self@ == s,
                terms@ == terms_kept(pairs_map(e.take(j as int)), new_epoch),
            decreases n - j,
        {
            proof {
                lemma_pairs_step(e, j as int);
            }
            let term: EpochNo = *self.governance.committee_expiration.value_at(j);
            if term.0 > new_epoch.0 {
                terms.insert(*self.governance.committee_expiration.key_at(j), term);
            }
            assert(terms@ =~= terms_kept(pairs_map(e.take(j + 1)), new_epoch));
            j += 1;
        }
        assert(e.take(j as int) =~= e);
        self.governance.committee_hot_keys = hot;
        self.governance.committee_expiration = terms;
        assert(self@ =~= committee_expired(s, new_epoch));
    }

    pub(crate) fn snapshot_drep_power(&mut self)
        requires
            old(self)@.governance.vote_delegations != Map::<Hash32, DRep>::empty() ==> power_fits(old(self)@),
        ensures
            final(self)@ == power_snapped(old(self)@),
    {
        let ghost s = self@;
        if !self.governance.vote_delegations.is_empty() {
            let (power, no_confidence, abstain) = self.compute_drep_distribution_for_snapshot();
            self.governance.drep_power_snapshot = power;
            self.governance.drep_no_confidence_snapshot = no_confidence;
            self.governance.drep_abstain_snapshot = abstain;
        }
        assert(self@ =~= power_snapped(s));
    }

    /// Computes the next reward update. Where a sum of it does not fit
    /// nothing is changed.
    pub(crate) fn compute_next_rewards(&mut self, pp: &ProtocolParameters) -> (done: bool)
        ensures
            done == rewards_fit(
                old(self)@,
                reward_basis(old(self)@),
                old(self)@.snapshots.current_epoch_fees,
                *pp,
            ),
            final(self)@ == if done {
                rewards_computed(old(self)@, *pp)
            } else {
                old(self)@
            },
    {
        let ghost s = self@;
        let fees: Lovelace = self.snapshots.current_epoch_fees;
        let pay: Option<StakeSnapshot> = match &self.snapshots.go {
            Some(go) => {
                let mut p: StakeSnapshot = go.dup();
                p.epoch_blocks_by_pool = self.epoch_blocks_by_pool.dup();
                assert(p.model() =~= pay_snapshot(s)->0);
                Some(p)
            },
            None => None,
        };
        let rupd = match &pay {
            Some(p) => self.checked_rewards(p, fees, pp),
            None => {
                let empty = StakeSnapshot {
                    epoch: self.epoch,
                    delegations: Table::new(),
                    pool_stake: Table::new(),
                    pool_params: self.pool_params.dup(),
                    stake_distribution: Table::new(),
                    epoch_blocks_by_pool: Table::new(),
                    script_stake_credentials: KeySet::new(),
                };
                assert(empty.model() =~= reward_basis(s));
                self.checked_rewards(&empty, fees, pp)
            },
        };
        match rupd {
            Some(u) => {
                self.snapshots.pay = pay;
                self.pending_reward_update = Some(u);
                assert(self@ =~= rewards_computed(s, *pp));
                true
            },
            None => false,
        }
    }

    pub(crate) fn close_epoch(&mut self, new_epoch: EpochNo)
        requires
            pending_rewards_fit(old(self)@),
        ensures
            final(self)@ == before_ratification(old(self)@, new_epoch),
    {
        let ghost s = self@;
        let prev_pp: ProtocolParameters = self.protocol_params;
        self.propagate_conway_params(new_epoch);
        self.apply_due_rewards();
        self.take_snapshot();
        self.reap_pools(new_epoch);
        let ghost t = self@;
        self.pending_enactments = Vec::new();
        self.snapshots.current_epoch_fees = self.epoch_fees;
        assert(self@ =~= (LedgerModel {
            pending_enactments: Seq::empty(),
            snapshots: SnapshotsModel { current_epoch_fees: t.epoch_fees, ..t.snapshots },
            ..t
        }));
        self.decide_updates(new_epoch);
        self.prev_epoch_decentralization = prev_pp.decentralization;
    }

    pub(crate) fn govern(&mut self, new_epoch: EpochNo)
        requires
            ratify_fits(old(self)@),
        ensures
            final(self)@ == governed(old(self)@, new_epoch),
    {
        let ratified: Vec<PendingEnactment> = self.ratify_proposals();
        self.enact_ratified(&ratified);
        self.expire_proposals(new_epoch);
        self.age_dreps(new_epoch);
        self.expire_committee(new_epoch);
    }

    pub(crate) fn start_epoch(&mut self, new_epoch: EpochNo)
        ensures
            final(self)@ == epoch_started(old(self)@, new_epoch),
    {
        let ghost s = self@;
        self.epoch_fees = Lovelace(0);
        self.epoch_blocks_by_pool.clear();
        self.epoch_block_count = 0;
        self.epoch = new_epoch;
        assert(self@ =~= epoch_started(s, new_epoch));
    }

    /// Crosses an epoch boundary: applies the pending reward update, takes the
    /// mark snapshot, retires pools, decides parameter updates, ratifies and
    /// enacts proposals, expires what is overdue, and computes the nonce and
    /// the reward update of the next boundary.
    pub fn process_epoch_transition(&mut self, new_epoch: EpochNo)
        requires
            transition_fits(old(self)@, new_epoch),
        ensures
            final(self)@ == after_transition(old(self)@, new_epoch),
    {
        let prev_pp: ProtocolParameters = self.protocol_params;
        self.close_epoch(new_epoch);
        self.govern(new_epoch);
        self.snapshot_drep_power();
        self.compute_epoch_nonce();
        self.compute_next_rewards(&prev_pp);
        self.start_epoch(new_epoch);
    }
}

} // verus!
