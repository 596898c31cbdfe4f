//! Laws of the epoch boundary.

use vstd::prelude::*;
use crate::ledger::bounds::{
    held, law_rewards_add_up, law_rewards_conserve, lovelace_fn, lovelace_total, member_stakes, pool_consistent,
};
use crate::ledger::enact::{enacted, enacted_all, payable, treasury_left, treasury_paid};
use crate::ledger::epoch::{
    after_transition, before_ratification, before_rewards, conway_propagated, delegated_to, due, governed, new_mark, overdue,
    pools_activated, pools_reaped, pools_retired, proposals_expired, rewards_applied, snapped, supporters, voted_from,
    voted_update,
};
use crate::ledger::governance::{delaying, priority, to_pool_fn};
use crate::ledger::primitives::{
    lemma_hash_exists, padded, sat_add, ActionModel, Credential, EpochNo, GovActionId, Hash28, Hash32, Lovelace, ProtocolParamUpdate,
    ProtocolParameters,
};
use crate::ledger::ratify::{
    after_ratification, enactments_of, of_priority, ordered_below, ratify_order, ratify_power, ratify_round, round,
    without_actions,
};
use crate::ledger::rewards::{
    is_owner, lovelace_of, owner_key, owner_stake, reward_update, rewards_fit, unregistered_amount, unregistered_total,
};
use crate::ledger::state::{at_least_one, EnactmentModel, LedgerModel, ProposalModel, SnapshotModel};
use crate::sums::{
    lemma_sum_add, lemma_sum_insert, lemma_sum_le, lemma_sum_remove, lemma_sum_same, lemma_sum_scaled, map_sum,
};
use crate::table::{lemma_listing, listing};

verus! {

/// What governance and retirements leave alone.
spec fn kept(a: LedgerModel, b: LedgerModel) -> bool {
    &&& a.snapshots == b.snapshots
    &&& a.epoch == b.epoch
    &&& a.epoch_length == b.epoch_length
    &&& a.reserves == b.reserves
    &&& a.stake_map == b.stake_map
    &&& a.pending_reward_update == b.pending_reward_update
    &&& a.last_applied_rupd == b.last_applied_rupd
    &&& a.epoch_fees == b.epoch_fees
    &&& a.epoch_blocks_by_pool == b.epoch_blocks_by_pool
    &&& a.epoch_block_count == b.epoch_block_count
}

proof fn lemma_retired_kept(s: LedgerModel, l: Seq<Hash28>)
    ensures
        kept(s, pools_retired(s, l)),
        pools_retired(s, l).governance == s.governance,
        pools_retired(s, l).protocol_params == s.protocol_params,
        pools_retired(s, l).treasury.0 <= s.treasury.0 + l.len() * s.protocol_params.pool_deposit,
    decreases l.len(),
{
    if l.len() > 0 {
        lemma_retired_kept(s, l.drop_last());
        let d = s.protocol_params.pool_deposit as int;
        let n = l.len() as int;
        assert(n * d == (n - 1) * d + d) by (nonlinear_arith);
    } else {
        assert(0 * (s.protocol_params.pool_deposit as int) == 0) by (nonlinear_arith);
    }
}

proof fn lemma_treasury_left(t: u64, w: Seq<(Credential, Lovelace)>)
    ensures
        treasury_left(t, w) <= t,
    decreases w.len(),
{
    if w.len() > 0 {
        lemma_treasury_left(t, w.drop_last());
    }
}

proof fn lemma_enacted_kept(s: LedgerModel, a: ActionModel)
    ensures
        kept(s, enacted(s, a)),
        enacted(s, a).treasury.0 <= s.treasury.0,
{
    if let ActionModel::TreasuryWithdrawals { withdrawals, .. } = a {
        lemma_treasury_left(s.treasury.0, withdrawals);
    }
}

proof fn lemma_enacted_all_kept(s: LedgerModel, l: Seq<EnactmentModel>)
    ensures
        kept(s, enacted_all(s, l)),
        enacted_all(s, l).treasury.0 <= s.treasury.0,
    decreases l.len(),
{
    if l.len() > 0 {
        lemma_enacted_all_kept(s, l.drop_last());
        lemma_enacted_kept(enacted_all(s, l.drop_last()), l.last().gov_action);
    }
}

proof fn lemma_expired_kept(s: LedgerModel, l: Seq<GovActionId>)
    ensures
        kept(s, proposals_expired(s, l)),
        proposals_expired(s, l).treasury == s.treasury,
    decreases l.len(),
{
    if l.len() > 0 {
        lemma_expired_kept(s, l.drop_last());
    }
}

proof fn lemma_round_kept(s: LedgerModel, l: Seq<(GovActionId, ProposalModel)>, power: Map<Hash32, u64>, nc: u64)
    ensures
        kept(s, round(s, l, power, nc).state),
        round(s, l, power, nc).state.treasury == s.treasury,
    decreases l.len(),
{
    if l.len() > 0 {
        lemma_round_kept(s, l.drop_last(), power, nc);
    }
}

proof fn lemma_governed_kept(s: LedgerModel, e: EpochNo)
    ensures
        kept(s, governed(s, e)),
        governed(s, e).treasury.0 <= s.treasury.0,
{
    let r = ratify_round(s);
    lemma_round_kept(s, ratify_order(s), ratify_power(s).0, ratify_power(s).1);
    let a = after_ratification(s);
    let t = enacted_all(a, enactments_of(r.ratified));
    lemma_enacted_all_kept(a, enactments_of(r.ratified));
    lemma_expired_kept(t, overdue(listing::<GovActionId, ProposalModel>(t.governance.proposals), e));
}

/// An epoch boundary moves to the new epoch and starts its counters anew. The
/// pending reward update is applied and kept for reference, and the next one
/// is computed with the fees of the epoch that ended.
pub proof fn law_boundary_advances(s: LedgerModel, e: EpochNo)
    ensures
        ({
            let t = after_transition(s, e);
            &&& t.epoch == e
            &&& t.epoch_fees == Lovelace(0)
            &&& t.epoch_blocks_by_pool == Map::<Hash28, u64>::empty()
            &&& t.epoch_block_count == 0
            &&& t.snapshots.current_epoch_fees == s.epoch_fees
            &&& t.last_applied_rupd == s.pending_reward_update
            &&& t.pending_reward_update is Some
        }),
{
    lemma_reaches_rewards(s, e);
}

/// The state before the next rewards are computed is the one after the last
/// were applied, but for what governance and retirements change.
pub(crate) proof fn lemma_reaches_rewards(s: LedgerModel, e: EpochNo)
    ensures
        ({
            let a = rewards_applied(conway_propagated(s, e));
            let b = before_rewards(s, e);
            &&& b.snapshots.go == s.snapshots.set
            &&& b.snapshots.set == s.snapshots.mark
            &&& b.snapshots.mark == Some(new_mark(a))
            &&& b.snapshots.current_epoch_fees == s.epoch_fees
            &&& b.last_applied_rupd == s.pending_reward_update
            &&& b.epoch == s.epoch
            &&& b.epoch_blocks_by_pool == s.epoch_blocks_by_pool
            &&& b.reserves == a.reserves
            &&& b.treasury.0 <= a.treasury.0 + due(
                listing::<Hash28, EpochNo>(s.pending_retirements),
                e,
            ).len() * conway_propagated(s, e).protocol_params.pool_deposit
        }),
{
    let a = rewards_applied(conway_propagated(s, e));
    let b = snapped(a);
    let l = due(listing::<Hash28, EpochNo>(s.pending_retirements), e);
    lemma_retired_kept(pools_activated(b), l);
    lemma_governed_kept(before_ratification(s, e), e);
}

/// The snapshots rotate: go takes over set, set takes over mark, and mark is
/// the stake after the rewards were applied. Rewards are paid on the new go
/// with the blocks of the epoch that ended. A snapshot is not changed on its
/// way: two boundaries later mark is go.
pub proof fn law_snapshots_rotate(s: LedgerModel, e: EpochNo, next: EpochNo)
    ensures
        ({
            let t = after_transition(s, e);
            &&& t.snapshots.go == s.snapshots.set
            &&& t.snapshots.set == s.snapshots.mark
            &&& t.snapshots.mark == Some(new_mark(rewards_applied(conway_propagated(s, e))))
            &&& (t.snapshots.mark->0).epoch == s.epoch
            &&& t.snapshots.pay == match s.snapshots.set {
                Some(go) => Some(SnapshotModel { epoch_blocks_by_pool: s.epoch_blocks_by_pool, ..go }),
                None => None,
            }
            &&& after_transition(t, next).snapshots.go == s.snapshots.mark
        }),
{
    lemma_reaches_rewards(s, e);
    lemma_reaches_rewards(after_transition(s, e), next);
}

/// The treasury and the reserves grow by no more than the fees of the update
/// that is applied and the deposits of the pools that retire.
pub proof fn law_supply_bounded(s: LedgerModel, e: EpochNo, fees: nat)
    requires
        s.pending_reward_update matches Some(r) ==> {
            &&& r.rewards.dom().finite()
            &&& r.delta_reserves <= s.reserves.0
            &&& lovelace_total(r.rewards) + r.undistributed + r.delta_treasury <= r.delta_reserves + fees
            &&& unregistered_total(s.reward_accounts, r.rewards) <= u64::MAX
        },
    ensures
        ({
            let t = after_transition(s, e);
            let leaving = due(listing::<Hash28, EpochNo>(s.pending_retirements), e).len();
            t.treasury.0 + t.reserves.0 <= s.treasury.0 + s.reserves.0 + fees + leaving * conway_propagated(
                s,
                e,
            ).protocol_params.pool_deposit
        }),
{
    lemma_reaches_rewards(s, e);
    if let Some(r) = s.pending_reward_update {
        let f = unregistered_amount(s.reward_accounts);
        assert forall|k: Hash32| #[trigger] r.rewards.dom().contains(k) implies f(k, r.rewards[k]) <= lovelace_fn()(
            k,
            r.rewards[k],
        ) by {}
        lemma_sum_le(r.rewards, f, lovelace_fn());
    }
}

/// Between rewards and ratification nothing moves lovelace, unless a pool
/// retires.
proof fn lemma_held_until_ratification(s: LedgerModel, e: EpochNo)
    requires
        due(listing::<Hash28, EpochNo>(s.pending_retirements), e).len() == 0,
    ensures
        held(before_ratification(s, e)) == held(rewards_applied(conway_propagated(s, e))),
        before_ratification(s, e).governance.proposals == s.governance.proposals,
{
}

proof fn lemma_nothing_ordered(l: Seq<(GovActionId, ProposalModel)>, p: u8)
    requires
        l.len() == 0,
    ensures
        ordered_below(l, p).len() == 0,
    decreases p,
{
    if p > 0 {
        lemma_nothing_ordered(l, (p - 1) as u8);
    }
}

/// Without proposals, governance moves no lovelace.
proof fn lemma_held_without_proposals(s: LedgerModel, e: EpochNo)
    requires
        s.governance.proposals == Map::<GovActionId, ProposalModel>::empty(),
    ensures
        held(governed(s, e)) == held(s),
{
    let l = listing::<GovActionId, ProposalModel>(s.governance.proposals);
    lemma_listing::<GovActionId, ProposalModel>(s.governance.proposals);
    assert(l.len() == 0) by {
        if l.len() > 0 {
            assert(s.governance.proposals.dom().contains(l[0].0));
        }
    }
    lemma_nothing_ordered(l, 7);
    let r = ratify_round(s);
    let a = after_ratification(s);
    assert(r.ratified.len() == 0);
    assert(a.governance.proposals == s.governance.proposals);
    let t = enacted_all(a, enactments_of(r.ratified));
    assert(t == a);
    assert(overdue(l, e).len() == 0);
}

/// A whole boundary moves lovelace and makes none: where no pool retires and
/// no proposal is open, treasury, reserves and accounts together gain exactly
/// the fees of the reward update that is applied, and nothing where none is
/// pending.
pub proof fn law_boundary_conserves(
    s: LedgerModel,
    e: EpochNo,
    then: LedgerModel,
    go: SnapshotModel,
    fees: Lovelace,
    pp: ProtocolParameters,
)
    requires
        match s.pending_reward_update {
            Some(r) => {
                &&& rewards_fit(then, go, fees, pp)
                &&& go.pool_stake.dom().finite()
                &&& go.delegations.dom().finite()
                &&& r == reward_update(then, go, fees, pp)
                &&& r.total_distributed <= r.reward_pot_after_treasury
                &&& r.delta_reserves <= s.reserves.0
            },
            None => fees.0 == 0,
        },
        s.reward_accounts.dom().finite(),
        s.pending_retirements.dom().finite(),
        forall|p: Hash28| #[trigger] s.pending_retirements.dom().contains(p) ==> s.pending_retirements[p] != e,
        s.governance.proposals == Map::<GovActionId, ProposalModel>::empty(),
        held(s) + fees.0 <= u64::MAX,
    ensures
        held(after_transition(s, e)) == held(s) + fees.0,
{
    let l = listing::<Hash28, EpochNo>(s.pending_retirements);
    lemma_listing::<Hash28, EpochNo>(s.pending_retirements);
    assert(due(l, e).len() == 0) by {
        if due(l, e).len() > 0 {
            let p = due(l, e)[0];
            assert(due(l, e).contains(p));
            lemma_due(l, e, p);
            let i = choose|i: int| 0 <= i < l.len() && l[i] == (p, e);
            assert(s.pending_retirements.dom().contains(l[i].0));
        }
    }
    let b = conway_propagated(s, e);
    if let Some(r) = s.pending_reward_update {
        law_rewards_add_up(then, go, fees, pp);
        law_rewards_conserve(LedgerModel { pending_reward_update: None, ..b }, r, fees.0 as nat);
    }
    lemma_held_until_ratification(s, e);
    lemma_held_without_proposals(before_ratification(s, e), e);
}

/// The mark snapshot is there when proposals are ratified.
pub(crate) proof fn lemma_mark_taken(s: LedgerModel, e: EpochNo)
    ensures
        before_ratification(s, e).snapshots.mark is Some,
{
    let a = snapped(rewards_applied(conway_propagated(s, e)));
    lemma_retired_kept(pools_activated(a), due(listing::<Hash28, EpochNo>(a.pending_retirements), e));
}

// ---- pools ----

/// What governance leaves alone of the pools.
spec fn pools_kept(a: LedgerModel, b: LedgerModel) -> bool {
    &&& a.pool_params == b.pool_params
    &&& a.future_pool_params == b.future_pool_params
    &&& a.pending_retirements == b.pending_retirements
    &&& a.delegations == b.delegations
}

proof fn lemma_enacted_all_pools(s: LedgerModel, l: Seq<EnactmentModel>)
    ensures
        pools_kept(s, enacted_all(s, l)),
    decreases l.len(),
{
    if l.len() > 0 {
        lemma_enacted_all_pools(s, l.drop_last());
    }
}

proof fn lemma_expired_pools(s: LedgerModel, l: Seq<GovActionId>)
    ensures
        pools_kept(s, proposals_expired(s, l)),
    decreases l.len(),
{
    if l.len() > 0 {
        lemma_expired_pools(s, l.drop_last());
    }
}

proof fn lemma_round_pools(s: LedgerModel, l: Seq<(GovActionId, ProposalModel)>, power: Map<Hash32, u64>, nc: u64)
    ensures
        pools_kept(s, round(s, l, power, nc).state),
    decreases l.len(),
{
    if l.len() > 0 {
        lemma_round_pools(s, l.drop_last(), power, nc);
    }
}

proof fn lemma_transition_pools(s: LedgerModel, e: EpochNo)
    ensures
        pools_kept(pools_reaped(snapped(rewards_applied(conway_propagated(s, e))), e), after_transition(s, e)),
{
    let b = before_ratification(s, e);
    let r = ratify_round(b);
    lemma_round_pools(b, ratify_order(b), ratify_power(b).0, ratify_power(b).1);
    let a = after_ratification(b);
    let t = enacted_all(a, enactments_of(r.ratified));
    lemma_enacted_all_pools(a, enactments_of(r.ratified));
    lemma_expired_pools(t, overdue(listing::<GovActionId, ProposalModel>(t.governance.proposals), e));
}

pub(crate) proof fn lemma_stays_retired(s: LedgerModel, l: Seq<Hash28>, p: Hash28)
    ensures
        !s.pool_params.dom().contains(p) ==> !pools_retired(s, l).pool_params.dom().contains(p),
        l.contains(p) ==> !pools_retired(s, l).pool_params.dom().contains(p)
            && !pools_retired(s, l).pending_retirements.dom().contains(p),
        !l.contains(p) && s.pool_params.dom().contains(p) ==> pools_retired(s, l).pool_params.dom().contains(p)
            && pools_retired(s, l).pool_params[p] == s.pool_params[p],
    decreases l.len(),
{
    if l.len() > 0 {
        let k = l.drop_last();
        lemma_stays_retired(s, k, p);
        if l.contains(p) {
            let i = choose|i: int| 0 <= i < l.len() && l[i] == p;
            if i < k.len() {
                assert(k[i] == p);
            }
        } else {
            assert(l[l.len() - 1] == l.last());
            assert(!k.contains(p)) by {
                if k.contains(p) {
                    let i = choose|i: int| 0 <= i < k.len() && k[i] == p;
                    assert(l[i] == p);
                }
            }
        }
    }
}

proof fn lemma_due(l: Seq<(Hash28, EpochNo)>, e: EpochNo, p: Hash28)
    ensures
        due(l, e).contains(p) <==> exists|i: int| 0 <= i < l.len() && l[i] == (p, e),
    decreases l.len(),
{
    if l.len() > 0 {
        let k = l.drop_last();
        lemma_due(k, e, p);
        let d = due(k, e);
        if due(l, e).contains(p) {
            let i = choose|i: int| 0 <= i < due(l, e).len() && due(l, e)[i] == p;
            if l.last().1 == e && i == d.len() {
                assert(l[l.len() - 1] == (p, e));
            } else {
                assert(d[i] == p);
                let j = choose|j: int| 0 <= j < k.len() && k[j] == (p, e);
                assert(l[j] == (p, e));
            }
        }
        if exists|i: int| 0 <= i < l.len() && l[i] == (p, e) {
            let i = choose|i: int| 0 <= i < l.len() && l[i] == (p, e);
            if i < k.len() {
                assert(k[i] == (p, e));
                let j = choose|j: int| 0 <= j < d.len() && d[j] == p;
                assert(due(l, e)[j] == p);
            } else {
                assert(due(l, e)[d.len() as int] == p);
            }
        }
    }
}

pub(crate) proof fn lemma_due_map(m: Map<Hash28, EpochNo>, e: EpochNo, p: Hash28)
    requires
        m.dom().finite(),
    ensures
        due(listing::<Hash28, EpochNo>(m), e).contains(p) <==> m.dom().contains(p) && m[p] == e,
{
    let l = listing::<Hash28, EpochNo>(m);
    lemma_listing::<Hash28, EpochNo>(m);
    lemma_due(l, e, p);
    if m.dom().contains(p) && m[p] == e {
        let i = choose|i: int| #![trigger l[i]] 0 <= i < l.len() && l[i].0 == p;
        assert(l[i] == (p, e));
    }
}

/// A pool that is to retire at an epoch leaves at its boundary: it is no
/// longer registered, nobody delegates to it, and its retirement is done.
pub proof fn law_pool_retires(s: LedgerModel, e: EpochNo, p: Hash28)
    requires
        s.pending_retirements.dom().finite(),
        s.pending_retirements.dom().contains(p),
        s.pending_retirements[p] == e,
        s.pool_params.dom().contains(p),
    ensures
        ({
            let t = after_transition(s, e);
            &&& !t.pool_params.dom().contains(p)
            &&& !t.pending_retirements.dom().contains(p)
            &&& forall|c: Hash32| #[trigger] t.delegations.dom().contains(c) ==> t.delegations[c] != p
        }),
{
    lemma_transition_pools(s, e);
    lemma_due_map(s.pending_retirements, e, p);
    let a = pools_activated(snapped(rewards_applied(conway_propagated(s, e))));
    lemma_stays_retired(a, due(listing::<Hash28, EpochNo>(s.pending_retirements), e), p);
}

/// A re-registration takes effect at the next boundary, unless the pool
/// retires there; a pool that does neither stays as it is.
pub proof fn law_pool_update_takes_effect(s: LedgerModel, e: EpochNo, p: Hash28)
    requires
        s.pending_retirements.dom().finite(),
        s.pool_params.dom().contains(p) || s.future_pool_params.dom().contains(p),
        !(s.pending_retirements.dom().contains(p) && s.pending_retirements[p] == e),
    ensures
        ({
            let t = after_transition(s, e);
            &&& t.pool_params.dom().contains(p)
            &&& t.pool_params[p] == if s.future_pool_params.dom().contains(p) {
                s.future_pool_params[p]
            } else {
                s.pool_params[p]
            }
            &&& !t.future_pool_params.dom().contains(p)
        }),
{
    lemma_transition_pools(s, e);
    lemma_due_map(s.pending_retirements, e, p);
    let a = pools_activated(snapped(rewards_applied(conway_propagated(s, e))));
    lemma_stays_retired(a, due(listing::<Hash28, EpochNo>(s.pending_retirements), e), p);
    lemma_no_future(a, due(listing::<Hash28, EpochNo>(s.pending_retirements), e));
}

proof fn lemma_no_future(s: LedgerModel, l: Seq<Hash28>)
    ensures
        pools_retired(s, l).future_pool_params == s.future_pool_params,
    decreases l.len(),
{
    if l.len() > 0 {
        lemma_no_future(s, l.drop_last());
    }
}

// ---- parameter updates before Conway ----

proof fn lemma_voted(l: Seq<(Hash32, ProtocolParamUpdate)>, quorum: u64, i: int)
    requires
        0 <= i,
    ensures
        match voted_from(l, quorum, i) {
            Some(u) => supporters(l, u) >= quorum && exists|j: int| i <= j < l.len() && (#[trigger] l[j]).1 == u,
            None => forall|j: int| i <= j < l.len() ==> supporters(l, (#[trigger] l[j]).1) < quorum,
        },
    decreases l.len() - i,
{
    if i < l.len() {
        if supporters(l, l[i].1) < quorum {
            lemma_voted(l, quorum, i + 1);
        }
    }
}

/// An update is decided on if and only if a quorum of delegates proposes it:
/// what is decided was proposed and has the quorum, and where nothing is
/// decided no proposal has it.
pub proof fn law_quorum_decides(m: Map<Hash32, ProtocolParamUpdate>, quorum: u64)
    requires
        m.dom().finite(),
    ensures
        ({
            let l = listing::<Hash32, ProtocolParamUpdate>(m);
            match voted_update(m, quorum) {
                Some(u) => supporters(l, u) >= quorum && exists|k: Hash32| #[trigger] m.dom().contains(k) && m[k] == u,
                None => forall|k: Hash32| #[trigger] m.dom().contains(k) ==> supporters(l, m[k]) < quorum,
            }
        }),
{
    let l = listing::<Hash32, ProtocolParamUpdate>(m);
    lemma_listing::<Hash32, ProtocolParamUpdate>(m);
    lemma_voted(l, quorum, 0);
    match voted_update(m, quorum) {
        Some(u) => {
            let j = choose|j: int| 0 <= j < l.len() && (#[trigger] l[j]).1 == u;
            assert(m.dom().contains(l[j].0));
        },
        None => {
            assert forall|k: Hash32| #[trigger] m.dom().contains(k) implies supporters(l, m[k]) < quorum by {
                let j = choose|j: int| #![trigger l[j]] 0 <= j < l.len() && l[j].0 == k;
                assert(m[k] == l[j].1);
            }
        },
    }
}

// ---- governance ----

spec fn in_order(l: Seq<(GovActionId, ProposalModel)>) -> bool {
    forall|i: int, j: int|
        #![trigger l[i], l[j]]
        0 <= i < j < l.len() ==> priority(l[i].1.procedure.gov_action) <= priority(l[j].1.procedure.gov_action)
}

proof fn lemma_of_priority(l: Seq<(GovActionId, ProposalModel)>, p: u8)
    ensures
        forall|i: int|
            #![trigger of_priority(l, p)[i]]
            0 <= i < of_priority(l, p).len() ==> priority(of_priority(l, p)[i].1.procedure.gov_action) == p,
    decreases l.len(),
{
    if l.len() > 0 {
        lemma_of_priority(l.drop_last(), p);
        let q = of_priority(l, p);
        let k = of_priority(l.drop_last(), p);
        assert forall|i: int| #![trigger q[i]] 0 <= i < q.len() implies priority(q[i].1.procedure.gov_action) == p by {
            if i < k.len() {
                assert(q[i] == k[i]);
            }
        }
    }
}

proof fn lemma_ordered(l: Seq<(GovActionId, ProposalModel)>, p: u8)
    ensures
        in_order(ordered_below(l, p)),
        forall|i: int|
            #![trigger ordered_below(l, p)[i]]
            0 <= i < ordered_below(l, p).len() ==> priority(ordered_below(l, p)[i].1.procedure.gov_action) < p,
    decreases p,
{
    if p > 0 {
        lemma_ordered(l, (p - 1) as u8);
        lemma_of_priority(l, (p - 1) as u8);
        let a = ordered_below(l, (p - 1) as u8);
        let b = of_priority(l, (p - 1) as u8);
        let q = ordered_below(l, p);
        assert(q == a + b);
        assert forall|i: int| #![trigger q[i]] 0 <= i < q.len() implies priority(q[i].1.procedure.gov_action) < p by {
            if i < a.len() {
                assert(q[i] == a[i]);
            } else {
                assert(q[i] == b[i - a.len()]);
            }
        }
        assert forall|i: int, j: int| #![trigger q[i], q[j]] 0 <= i < j < q.len() implies priority(
            q[i].1.procedure.gov_action,
        ) <= priority(q[j].1.procedure.gov_action) by {
            if j < a.len() {
                assert(q[i] == a[i] && q[j] == a[j]);
            } else {
                assert(q[j] == b[j - a.len()]);
                if i < a.len() {
                    assert(q[i] == a[i]);
                } else {
                    assert(q[i] == b[i - a.len()]);
                }
            }
        }
    }
}

spec fn all_but_last_go_on(l: Seq<(GovActionId, ProposalModel)>) -> bool {
    forall|i: int| #![trigger l[i]] 0 <= i < l.len() - 1 ==> !delaying(l[i].1.procedure.gov_action)
}

spec fn no_info(l: Seq<(GovActionId, ProposalModel)>) -> bool {
    forall|i: int| #![trigger l[i]] 0 <= i < l.len() ==> !(l[i].1.procedure.gov_action is InfoAction)
}

proof fn lemma_round_ratified(s: LedgerModel, l: Seq<(GovActionId, ProposalModel)>, power: Map<Hash32, u64>, nc: u64)
    requires
        in_order(l),
    ensures
        ({
            let r = round(s, l, power, nc);
            &&& in_order(r.ratified)
            &&& all_but_last_go_on(r.ratified)
            &&& no_info(r.ratified)
            &&& r.delayed == (r.ratified.len() > 0 && delaying(r.ratified.last().1.procedure.gov_action))
            &&& forall|i: int| #![trigger r.ratified[i]] 0 <= i < r.ratified.len() ==> l.contains(r.ratified[i])
        }),
    decreases l.len(),
{
    if l.len() > 0 {
        let k = l.drop_last();
        assert(in_order(k)) by {
            assert forall|i: int, j: int| #![trigger k[i], k[j]] 0 <= i < j < k.len() implies priority(
                k[i].1.procedure.gov_action,
            ) <= priority(k[j].1.procedure.gov_action) by {
                assert(k[i] == l[i] && k[j] == l[j]);
            }
        }
        lemma_round_ratified(s, k, power, nc);
        let b = round(s, k, power, nc);
        let r = round(s, l, power, nc);
        assert(l[l.len() - 1] == l.last());
        assert forall|i: int| #![trigger r.ratified[i]] 0 <= i < r.ratified.len() implies l.contains(r.ratified[i]) by {
            if i < b.ratified.len() {
                assert(r.ratified[i] == b.ratified[i]);
                let j = choose|j: int| 0 <= j < k.len() && k[j] == b.ratified[i];
                assert(l[j] == r.ratified[i]);
            } else {
                assert(l[l.len() - 1] == r.ratified[i]);
            }
        }
        assert forall|i: int, j: int| #![trigger r.ratified[i], r.ratified[j]] 0 <= i < j < r.ratified.len() implies priority(
            r.ratified[i].1.procedure.gov_action,
        ) <= priority(r.ratified[j].1.procedure.gov_action) by {
            assert(r.ratified[i] == b.ratified[i]);
            if j < b.ratified.len() {
                assert(r.ratified[j] == b.ratified[j]);
            } else {
                let x = choose|x: int| 0 <= x < k.len() && k[x] == b.ratified[i];
                assert(l[x] == k[x]);
            }
        }
        assert forall|i: int| #![trigger r.ratified[i]] 0 <= i < r.ratified.len() - 1 implies !delaying(
            r.ratified[i].1.procedure.gov_action,
        ) by {
            if r.ratified.len() > b.ratified.len() {
                assert(r.ratified[i] == b.ratified[i]);
                if i == b.ratified.len() - 1 {
                    assert(b.ratified[i] == b.ratified.last());
                }
            }
        }
        assert forall|i: int| #![trigger r.ratified[i]] 0 <= i < r.ratified.len() implies !(
        r.ratified[i].1.procedure.gov_action is InfoAction) by {
            if i < b.ratified.len() {
                assert(r.ratified[i] == b.ratified[i]);
            }
        }
    }
}

/// Proposals are ratified in order of their priority. Nothing is ratified
/// after an action that delays, and an info action never is.
pub proof fn law_ratification_order(s: LedgerModel)
    ensures
        ({
            let l = ratify_round(s).ratified;
            &&& forall|i: int, j: int|
                #![trigger l[i], l[j]]
                0 <= i < j < l.len() ==> priority(l[i].1.procedure.gov_action) <= priority(
                    l[j].1.procedure.gov_action,
                )
            &&& forall|i: int| #![trigger l[i]] 0 <= i < l.len() - 1 ==> !delaying(l[i].1.procedure.gov_action)
            &&& forall|i: int| #![trigger l[i]] 0 <= i < l.len() ==> !(l[i].1.procedure.gov_action is InfoAction)
        }),
{
    lemma_ordered(listing::<GovActionId, ProposalModel>(s.governance.proposals), 7);
    lemma_round_ratified(s, ratify_order(s), ratify_power(s).0, ratify_power(s).1);
}

proof fn lemma_overdue(l: Seq<(GovActionId, ProposalModel)>, e: EpochNo, i: int)
    requires
        0 <= i < l.len(),
        l[i].1.expires_epoch.0 < e.0,
    ensures
        overdue(l, e).contains(l[i].0),
    decreases l.len(),
{
    let k = l.drop_last();
    if i < k.len() {
        assert(k[i] == l[i]);
        lemma_overdue(k, e, i);
        let j = choose|j: int| 0 <= j < overdue(k, e).len() && overdue(k, e)[j] == l[i].0;
        assert(overdue(l, e)[j] == l[i].0);
    } else {
        assert(overdue(l, e)[overdue(k, e).len() as int] == l[i].0);
    }
}

proof fn lemma_expired_gone(s: LedgerModel, l: Seq<GovActionId>, id: GovActionId)
    ensures
        proposals_expired(s, l).governance.proposals.dom().contains(id) ==> !l.contains(id)
            && s.governance.proposals.dom().contains(id) && proposals_expired(s, l).governance.proposals[id]
            == s.governance.proposals[id],
    decreases l.len(),
{
    if l.len() > 0 {
        let k = l.drop_last();
        lemma_expired_gone(s, k, id);
        if proposals_expired(s, l).governance.proposals.dom().contains(id) && l.contains(id) {
            let i = choose|i: int| 0 <= i < l.len() && l[i] == id;
            if i < k.len() {
                assert(k[i] == id);
            }
        }
    }
}

proof fn lemma_fewer<V>(m: Map<GovActionId, V>, l: Seq<(GovActionId, ProposalModel)>)
    requires
        m.dom().finite(),
    ensures
        without_actions(m, l).dom().finite(),
    decreases l.len(),
{
    if l.len() > 0 {
        lemma_fewer(m, l.drop_last());
    }
}

proof fn lemma_round_proposals(s: LedgerModel, l: Seq<(GovActionId, ProposalModel)>, power: Map<Hash32, u64>, nc: u64)
    ensures
        round(s, l, power, nc).state.governance.proposals == s.governance.proposals,
    decreases l.len(),
{
    if l.len() > 0 {
        lemma_round_proposals(s, l.drop_last(), power, nc);
    }
}

proof fn lemma_enacted_proposals(s: LedgerModel, l: Seq<EnactmentModel>)
    ensures
        enacted_all(s, l).governance.proposals == s.governance.proposals,
    decreases l.len(),
{
    if l.len() > 0 {
        lemma_enacted_proposals(s, l.drop_last());
    }
}

/// After a boundary no proposal is open whose lifetime ended before the new
/// epoch, and no committee member is in office whose term ends by then.
pub proof fn law_nothing_overdue(s: LedgerModel, e: EpochNo)
    requires
        s.governance.proposals.dom().finite(),
    ensures
        ({
            let g = after_transition(s, e).governance;
            &&& forall|id: GovActionId| #[trigger]
                g.proposals.dom().contains(id) ==> g.proposals[id].expires_epoch.0 >= e.0
            &&& forall|c: Hash32| #[trigger]
                g.committee_expiration.dom().contains(c) ==> g.committee_expiration[c].0 > e.0
        }),
{
    let b = before_ratification(s, e);
    let start = pools_activated(snapped(rewards_applied(conway_propagated(s, e))));
    lemma_retired_kept(start, due(listing::<Hash28, EpochNo>(s.pending_retirements), e));
    assert(b.governance == s.governance);
    lemma_round_proposals(b, ratify_order(b), ratify_power(b).0, ratify_power(b).1);
    let r = ratify_round(b);
    let a = after_ratification(b);
    lemma_fewer(s.governance.proposals, r.ratified);
    let t = enacted_all(a, enactments_of(r.ratified));
    lemma_enacted_proposals(a, enactments_of(r.ratified));
    let m = t.governance.proposals;
    let l = listing::<GovActionId, ProposalModel>(m);
    lemma_listing::<GovActionId, ProposalModel>(m);
    let o = overdue(l, e);
    let x = proposals_expired(t, o);
    assert forall|id: GovActionId| #[trigger] x.governance.proposals.dom().contains(id) implies x.governance.proposals[id].expires_epoch.0
        >= e.0 by {
        lemma_expired_gone(t, o, id);
        let i = choose|i: int| #![trigger l[i]] 0 <= i < l.len() && l[i].0 == id;
        if l[i].1.expires_epoch.0 < e.0 {
            lemma_overdue(l, e, i);
        }
    }
}

// ---- withdrawals ----

/// Withdrawals from the treasury move lovelace to reward accounts and make
/// none: what the treasury and the accounts hold together stays the same.
pub proof fn law_withdrawals_conserve(accounts: Map<Hash32, Lovelace>, treasury: u64, w: Seq<(Credential, Lovelace)>)
    requires
        accounts.dom().finite(),
        treasury + lovelace_total(accounts) <= u64::MAX,
    ensures
        treasury_paid(accounts, treasury, w).dom().finite(),
        treasury_left(treasury, w) + lovelace_total(treasury_paid(accounts, treasury, w)) == treasury + lovelace_total(
            accounts,
        ),
    decreases w.len(),
{
    if w.len() > 0 {
        law_withdrawals_conserve(accounts, treasury, w.drop_last());
        let before = treasury_paid(accounts, treasury, w.drop_last());
        let left = treasury_left(treasury, w.drop_last());
        let amount = payable(w.last().1.0, left);
        if amount > 0 {
            let k = w.last().0.hash();
            let f = lovelace_fn();
            if before.dom().contains(k) {
                lemma_sum_remove(before, f, k);
            }
            lemma_sum_insert(before, f, k, Lovelace(sat_add(lovelace_of(before, k), amount)));
        }
    }
}

// ---- snapshots ----

/// The owners of a pool are all different.
pub open spec fn owners_differ(owners: Seq<Hash28>) -> bool {
    forall|i: int, j: int| #![trigger owners[i], owners[j]] 0 <= i < j < owners.len() ==> owners[i] != owners[j]
}

spec fn owns(owners: Seq<Hash28>, k: Hash32) -> bool {
    exists|i: int| 0 <= i < owners.len() && padded(#[trigger] owners[i]@) == k@
}

spec fn owner_part(go: SnapshotModel, p: Hash28, owners: Seq<Hash28>) -> spec_fn(Hash32, Hash28) -> nat {
    |c: Hash32, q: Hash28|
        if q == p && owns(owners, c) {
            lovelace_of(go.stake_distribution, c) as nat
        } else {
            0
        }
}

proof fn lemma_owner_key_value(o: Hash28)
    ensures
        owner_key(o)@ == padded(o@),
{
    assert(padded(o@).len() == 32);
    lemma_hash_exists(padded(o@));
}

proof fn lemma_owner_part(go: SnapshotModel, p: Hash28, owners: Seq<Hash28>)
    requires
        go.delegations.dom().finite(),
        owners_differ(owners),
    ensures
        owner_stake(go, p, owners) == map_sum(go.delegations, owner_part(go, p, owners)),
    decreases owners.len(),
{
    let m = go.delegations;
    let f = owner_part(go, p, owners);
    if owners.len() == 0 {
        let zero = |c: Hash32, q: Hash28| 0nat;
        assert forall|c: Hash32| #[trigger] m.dom().contains(c) implies f(c, m[c]) * 1nat <= 0nat * zero(c, m[c]) by {
            assert(0 * zero(c, m[c]) == 0) by (nonlinear_arith);
        }
        lemma_sum_scaled(m, f, zero, 1, 0);
        let z = map_sum(m, zero);
        assert(0 * z == 0) by (nonlinear_arith);
    } else {
        let rest = owners.drop_last();
        assert(owners_differ(rest)) by {
            assert forall|i: int, j: int| #![trigger rest[i], rest[j]] 0 <= i < j < rest.len() implies rest[i]
                != rest[j] by {
                assert(rest[i] == owners[i] && rest[j] == owners[j]);
            }
        }
        lemma_owner_part(go, p, rest);
        let g = owner_part(go, p, rest);
        let k = owner_key(owners.last());
        lemma_owner_key_value(owners.last());
        assert(owners[owners.len() - 1] == owners.last());
        // no other owner has this key
        assert(!owns(rest, k)) by {
            if owns(rest, k) {
                let i = choose|i: int| 0 <= i < rest.len() && padded(#[trigger] rest[i]@) == k@;
                assert(rest[i] == owners[i]);
                assert(padded(owners[i]@).take(28) =~= owners[i]@);
                assert(padded(owners.last()@).take(28) =~= owners.last()@);
                assert(owners[i] =~= owners.last());
            }
        }
        assert forall|c: Hash32| c != k implies owns(owners, c) == owns(rest, c) by {
            if owns(owners, c) {
                let i = choose|i: int| 0 <= i < owners.len() && padded(#[trigger] owners[i]@) == c@;
                if i == owners.len() - 1 {
                    assert(c =~= k);
                } else {
                    assert(rest[i] == owners[i]);
                }
            }
            if owns(rest, c) {
                let i = choose|i: int| 0 <= i < rest.len() && padded(#[trigger] rest[i]@) == c@;
                assert(owners[i] == rest[i]);
            }
        }
        if m.dom().contains(k) {
            lemma_sum_remove(m, f, k);
            lemma_sum_remove(m, g, k);
            let others = m.remove(k);
            assert forall|c: Hash32| #[trigger] others.dom().contains(c) implies f(c, others[c]) == g(c, others[c]) by {}
            lemma_sum_same(others, f, g);
            assert(owns(owners, k));
        } else {
            assert forall|c: Hash32| #[trigger] m.dom().contains(c) implies f(c, m[c]) == g(c, m[c]) by {}
            lemma_sum_same(m, f, g);
        }
    }
}

/// The snapshot that a boundary takes is consistent: the stake of a
/// registered pool is that of its owners and of its members, where its owners
/// are all different and its stake can be counted.
pub proof fn law_mark_consistent(s: LedgerModel, p: Hash28)
    requires
        s.delegations.dom().finite(),
        s.pool_params.dom().contains(p),
        delegated_to(s.delegations, p),
        owners_differ(s.pool_params[p].owners),
        s.pool_params[p].margin_numerator <= at_least_one(s.pool_params[p].margin_denominator),
        map_sum(s.delegations, to_pool_fn(s.stake_map, s.reward_accounts, p)) <= u64::MAX,
    ensures
        pool_consistent(new_mark(s), p),
{
    let go = new_mark(s);
    let pool = s.pool_params[p];
    let m = s.delegations;
    lemma_owner_part(go, p, pool.owners);
    let f = owner_part(go, p, pool.owners);
    let g = member_stakes(go, p);
    let h = to_pool_fn(s.stake_map, s.reward_accounts, p);
    lemma_sum_add(m, f, g);
    let both = |c: Hash32, q: Hash28| f(c, q) + g(c, q);
    assert forall|c: Hash32| #[trigger] m.dom().contains(c) implies both(c, m[c]) == h(c, m[c]) by {
        assert(owns(pool.owners, c) == is_owner(pool, c));
        if m[c] == p {
            lemma_sum_remove(m, h, c);
        }
    }
    lemma_sum_same(m, both, h);
}

} // verus!
