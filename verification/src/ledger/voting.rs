//! What a vote decides.

use vstd::prelude::*;
use crate::ledger::formula::over;
use crate::ledger::bounds::lemma_cast_mul;
use crate::ledger::certificates::drep_hash;
use crate::ledger::governance::{
    active_fn, all_groups_met, ballot, bootstrap, committee_approves, committee_cast, committee_votes, counted_stake_fn,
    delaying, delegator_fn, drep_counted, drep_groups, drep_power_fn, drep_votes, drep_yes, gov_groups, group_threshold,
    groups_of, limit_groups, pool_groups, spo_groups, tagged, member_counted_fn, member_yes_fn, pool_vote, pool_votes,
    power_of_pool, prev_ok, priority, proposed, spo_counted, spo_yes, stake_of, threshold_met, to_pool_fn, touches_security,
    voted, votes_on, yes_stake_fn, BallotModel, DRepPPGroup, PPGroup, StakePoolPPGroup,
};
use crate::ledger::primitives::{
    ActionModel, Credential, DRep, EpochNo, GovActionId, Hash28, Hash32, Lovelace, ProtocolParamUpdate, ProtocolParameters,
    Rational, Vote, Voter, VotingProcedure,
};
use crate::ledger::primitives::ProcedureModel;
use crate::ledger::ratify::{
    accepted, after_ratification, backed, backing_fn, enactments_of, live_power, of_priority, ordered_below, ratify_order,
    ratify_power, ratify_round, rooted, round, standing_fn, standing_power, taking_part_fn, voter_stake, without_actions,
};
use crate::ledger::state::{account_key, gov_total, GovernanceModel, LedgerModel, ProposalModel, SnapshotModel};
use crate::sums::{lemma_sum_insert, lemma_sum_remove, lemma_sum_same, lemma_sum_scaled, map_sum};
use crate::table::{lemma_listing, listing};

verus! {

// ---- thresholds ----

/// A threshold is reached where the part of the votes that say yes is at least
/// the threshold. One of zero is always reached; any other one is not where no
/// vote counts.
pub proof fn law_threshold(yes: nat, total: nat, t: Rational)
    ensures
        t.numerator == 0 ==> threshold_met(yes, total, t),
        t.numerator > 0 && total == 0 ==> !threshold_met(yes, total, t),
        t.numerator > 0 && t.denominator > 0 && total > 0 ==> threshold_met(yes, total, t) == (over(
            yes as int,
            total as int,
        ) >= over(t.numerator as int, t.denominator as int)),
{
    if t.numerator > 0 && t.denominator > 0 && total > 0 {
        let (y, w, n, d) = (yes as real, total as real, t.numerator as real, t.denominator as real);
        lemma_cast_mul(yes as int, t.denominator as int);
        lemma_cast_mul(t.numerator as int, total as int);
        if yes * t.denominator >= t.numerator * total {
            assert(y / w >= n / d) by (nonlinear_arith)
                requires
                    w > 0 as real,
                    d > 0 as real,
                    y * d >= n * w,
            ;
        } else {
            assert(y / w < n / d) by (nonlinear_arith)
                requires
                    w > 0 as real,
                    d > 0 as real,
                    y * d < n * w,
            ;
        }
    }
}

// ---- what an action needs ----

/// A parameter change, a hard fork, a new constitution or a treasury withdrawal
/// that the committee does not approve is never accepted, whatever the others
/// say.
pub proof fn law_committee_needed(s: LedgerModel, id: GovActionId, a: ActionModel, power: Map<Hash32, u64>, nc: u64)
    requires
        a is ParameterChange || a is HardForkInitiation || a is NewConstitution || a is TreasuryWithdrawals,
        accepted(s, id, a, power, nc),
    ensures
        committee_approves(
            s.governance,
            id,
            s.epoch,
            s.protocol_params.committee_min_size,
            s.protocol_params.protocol_version_major == 9,
        ),
{
}

/// The threshold for representatives on an action, where there is one for the
/// whole action.
pub open spec fn drep_bar(s: LedgerModel, a: ActionModel) -> Option<Rational> {
    let p = s.protocol_params;
    if a is HardForkInitiation {
        Some(p.dvt_hard_fork)
    } else if a is NoConfidence {
        Some(p.dvt_no_confidence)
    } else if a is UpdateCommittee && s.governance.no_confidence {
        Some(p.dvt_committee_no_confidence)
    } else if a is UpdateCommittee {
        Some(p.dvt_committee_normal)
    } else if a is NewConstitution {
        Some(p.dvt_constitution)
    } else if a is TreasuryWithdrawals {
        Some(p.dvt_treasury_withdrawal)
    } else {
        None
    }
}

/// Once the bootstrap is over, an action that the representatives turn down is
/// never accepted. A parameter change has to reach the threshold of every group
/// that it touches.
pub proof fn law_dreps_needed(s: LedgerModel, id: GovActionId, a: ActionModel, power: Map<Hash32, u64>, nc: u64)
    requires
        s.protocol_params.protocol_version_major != 9,
        accepted(s, id, a, power, nc),
    ensures
        ({
            let b = ballot(s, id, a);
            &&& drep_bar(s, a) matches Some(t) ==> threshold_met(drep_yes(b, power, nc), drep_counted(b, power, nc), t)
            &&& a matches ActionModel::ParameterChange { update, .. } ==> all_groups_met(
                update,
                s.protocol_params,
                drep_yes(b, power, nc),
                drep_counted(b, power, nc),
            )
        }),
{
}

/// The threshold for pools on an action, where they vote on it.
pub open spec fn pool_bar(s: LedgerModel, a: ActionModel) -> Option<Rational> {
    let p = s.protocol_params;
    if a is HardForkInitiation {
        Some(p.pvt_hard_fork)
    } else if a is NoConfidence {
        Some(p.pvt_motion_no_confidence)
    } else if a is UpdateCommittee && s.governance.no_confidence {
        Some(p.pvt_committee_no_confidence)
    } else if a is UpdateCommittee {
        Some(p.pvt_committee_normal)
    } else if a is ParameterChange && touches_security(a->ParameterChange_update) {
        Some(p.pvt_pp_security_group)
    } else {
        None
    }
}

/// An action on which pools vote and which they turn down is never accepted,
/// also during the bootstrap.
pub proof fn law_pools_needed(s: LedgerModel, id: GovActionId, a: ActionModel, power: Map<Hash32, u64>, nc: u64)
    requires
        accepted(s, id, a, power, nc),
    ensures
        ({
            let b = ballot(s, id, a);
            pool_bar(s, a) matches Some(t) ==> threshold_met(spo_yes(b), spo_counted(b), t)
        }),
{
}

/// An action that has all it needs is accepted; the committee has no say on
/// itself, and representatives have none during the bootstrap.
pub proof fn law_enough_votes(s: LedgerModel, id: GovActionId, a: ActionModel, power: Map<Hash32, u64>, nc: u64)
    requires
        !(a is InfoAction),
        a is NoConfidence || a is UpdateCommittee || committee_approves(
            s.governance,
            id,
            s.epoch,
            s.protocol_params.committee_min_size,
            s.protocol_params.protocol_version_major == 9,
        ),
        pool_bar(s, a) matches Some(t) ==> threshold_met(spo_yes(ballot(s, id, a)), spo_counted(ballot(s, id, a)), t),
        s.protocol_params.protocol_version_major == 9 || (drep_bar(s, a) matches Some(t) ==> threshold_met(
            drep_yes(ballot(s, id, a), power, nc),
            drep_counted(ballot(s, id, a), power, nc),
            t,
        )),
        s.protocol_params.protocol_version_major == 9 || (a matches ActionModel::ParameterChange { update, .. }
            ==> all_groups_met(
            update,
            s.protocol_params,
            drep_yes(ballot(s, id, a), power, nc),
            drep_counted(ballot(s, id, a), power, nc),
        )),
    ensures
        accepted(s, id, a, power, nc),
{
}

/// An info action is never accepted.
pub proof fn law_info_waits(s: LedgerModel, id: GovActionId, power: Map<Hash32, u64>, nc: u64)
    ensures
        !accepted(s, id, ActionModel::InfoAction, power, nc),
{
}

// ---- the last vote counts ----

/// The last vote that a representative casts is the one that counts.
pub proof fn law_last_drep_vote(votes: Seq<(Voter, VotingProcedure)>, i: int, cred: Credential)
    requires
        0 <= i < votes.len(),
        votes[i].0 == Voter::DRep(cred),
        forall|j: int, c: Credential|
            #![trigger votes[j], c.hash()]
            i < j < votes.len() && votes[j].0 == Voter::DRep(c) ==> c.hash() != cred.hash(),
    ensures
        drep_votes(votes).dom().contains(cred.hash()),
        drep_votes(votes)[cred.hash()] == votes[i].1.vote,
    decreases votes.len(),
{
    if i < votes.len() - 1 {
        let t = votes.drop_last();
        assert(votes.last() == votes[votes.len() - 1]);
        assert forall|j: int, c: Credential|
            #![trigger t[j], c.hash()]
            i < j < t.len() && t[j].0 == Voter::DRep(c) implies c.hash() != cred.hash() by {
            assert(t[j] == votes[j]);
        }
        law_last_drep_vote(t, i, cred);
        if let Voter::DRep(c) = votes.last().0 {
            assert(c.hash() != cred.hash());
        }
    }
}

/// A representative that casts no vote has none.
pub proof fn law_no_drep_vote(votes: Seq<(Voter, VotingProcedure)>, h: Hash32)
    requires
        forall|j: int, c: Credential|
            #![trigger votes[j], c.hash()]
            0 <= j < votes.len() && votes[j].0 == Voter::DRep(c) ==> c.hash() != h,
    ensures
        !drep_votes(votes).dom().contains(h),
    decreases votes.len(),
{
    if votes.len() > 0 {
        let t = votes.drop_last();
        assert(votes.last() == votes[votes.len() - 1]);
        assert forall|j: int, c: Credential|
            #![trigger t[j], c.hash()]
            0 <= j < t.len() && t[j].0 == Voter::DRep(c) implies c.hash() != h by {
            assert(t[j] == votes[j]);
        }
        law_no_drep_vote(t, h);
        if let Voter::DRep(c) = votes.last().0 {
            assert(c.hash() != h);
        }
    }
}

/// The last vote that a pool casts is the one that counts.
pub proof fn law_last_pool_vote(votes: Seq<(Voter, VotingProcedure)>, i: int, p: Hash28)
    requires
        0 <= i < votes.len(),
        votes[i].0 == Voter::StakePool(p),
        forall|j: int| #![trigger votes[j]] i < j < votes.len() ==> votes[j].0 != Voter::StakePool(p),
    ensures
        pool_votes(votes).dom().contains(p),
        pool_votes(votes)[p] == votes[i].1.vote,
    decreases votes.len(),
{
    if i < votes.len() - 1 {
        let t = votes.drop_last();
        assert(votes.last() == votes[votes.len() - 1]);
        assert forall|j: int| #![trigger t[j]] i < j < t.len() implies t[j].0 != Voter::StakePool(p) by {
            assert(t[j] == votes[j]);
        }
        law_last_pool_vote(t, i, p);
    }
}

/// A pool that casts no vote has none.
pub proof fn law_no_pool_vote(votes: Seq<(Voter, VotingProcedure)>, p: Hash28)
    requires
        forall|j: int| #![trigger votes[j]] 0 <= j < votes.len() ==> votes[j].0 != Voter::StakePool(p),
    ensures
        !pool_votes(votes).dom().contains(p),
    decreases votes.len(),
{
    if votes.len() > 0 {
        let t = votes.drop_last();
        assert(votes.last() == votes[votes.len() - 1]);
        assert forall|j: int| #![trigger t[j]] 0 <= j < t.len() implies t[j].0 != Voter::StakePool(p) by {
            assert(t[j] == votes[j]);
        }
        law_no_pool_vote(t, p);
    }
}

/// The last vote of a hot committee credential is the one that counts.
pub proof fn law_last_committee_vote(votes: Seq<(Voter, VotingProcedure)>, i: int, cred: Credential)
    requires
        0 <= i < votes.len(),
        votes[i].0 == Voter::ConstitutionalCommittee(cred),
        forall|j: int, c: Credential|
            #![trigger votes[j], c.hash()]
            i < j < votes.len() && votes[j].0 == Voter::ConstitutionalCommittee(c) ==> c.hash() != cred.hash(),
    ensures
        committee_votes(votes).dom().contains(cred.hash()),
        committee_votes(votes)[cred.hash()] == votes[i].1.vote,
    decreases votes.len(),
{
    if i < votes.len() - 1 {
        let t = votes.drop_last();
        assert(votes.last() == votes[votes.len() - 1]);
        assert forall|j: int, c: Credential|
            #![trigger t[j], c.hash()]
            i < j < t.len() && t[j].0 == Voter::ConstitutionalCommittee(c) implies c.hash() != cred.hash() by {
            assert(t[j] == votes[j]);
        }
        law_last_committee_vote(t, i, cred);
        if let Voter::ConstitutionalCommittee(c) = votes.last().0 {
            assert(c.hash() != cred.hash());
        }
    }
}

/// A hot committee credential that casts no vote has none.
pub proof fn law_no_committee_vote(votes: Seq<(Voter, VotingProcedure)>, h: Hash32)
    requires
        forall|j: int, c: Credential|
            #![trigger votes[j], c.hash()]
            0 <= j < votes.len() && votes[j].0 == Voter::ConstitutionalCommittee(c) ==> c.hash() != h,
    ensures
        !committee_votes(votes).dom().contains(h),
    decreases votes.len(),
{
    if votes.len() > 0 {
        let t = votes.drop_last();
        assert(votes.last() == votes[votes.len() - 1]);
        assert forall|j: int, c: Credential|
            #![trigger t[j], c.hash()]
            0 <= j < t.len() && t[j].0 == Voter::ConstitutionalCommittee(c) implies c.hash() != h by {
            assert(t[j] == votes[j]);
        }
        law_no_committee_vote(t, h);
        if let Voter::ConstitutionalCommittee(c) = votes.last().0 {
            assert(c.hash() != h);
        }
    }
}

// ---- the committee ----

/// The members in office that can vote: their terms have not ended, they named
/// a hot credential, and they did not resign.
pub open spec fn sitting(g: GovernanceModel, epoch: EpochNo) -> Set<Hash32> {
    g.committee_expiration.dom().filter(
        |c: Hash32|
            g.committee_expiration[c].0 >= epoch.0 && g.committee_hot_keys.dom().contains(c)
                && !g.committee_resigned.dom().contains(c),
    )
}

/// The sitting members whose hot credentials cast a vote.
pub open spec fn sitting_with(g: GovernanceModel, epoch: EpochNo, votes: Map<Hash32, Vote>, v: Vote) -> Set<Hash32> {
    sitting(g, epoch).filter(
        |c: Hash32| votes.dom().contains(g.committee_hot_keys[c]) && votes[g.committee_hot_keys[c]] == v,
    )
}

/// Counting the entries of a map is counting their keys.
proof fn lemma_count(m: Map<Hash32, EpochNo>, f: spec_fn(Hash32, EpochNo) -> nat, s: Set<Hash32>)
    requires
        m.dom().finite(),
        s.subset_of(m.dom()),
        forall|c: Hash32| #[trigger] m.dom().contains(c) ==> f(c, m[c]) == if s.contains(c) { 1nat } else { 0nat },
    ensures
        s.finite(),
        map_sum(m, f) == s.len(),
    decreases m.dom().len(),
{
    vstd::set_lib::lemma_set_subset_finite(m.dom(), s);
    if m.dom().len() > 0 {
        let k = m.dom().choose();
        assert(m.dom().contains(k)) by {
            if !m.dom().contains(k) {
                assert(m.dom() =~= Set::empty());
            }
        }
        let r = m.remove(k);
        let t = s.remove(k);
        assert(r.dom() =~= m.dom().remove(k));
        assert forall|c: Hash32| #[trigger] r.dom().contains(c) implies f(c, r[c]) == if t.contains(c) {
            1nat
        } else {
            0nat
        } by {
            assert(m.dom().contains(c));
        }
        lemma_count(r, f, t);
        lemma_sum_remove(m, f, k);
        if !s.contains(k) {
            assert(t =~= s);
        }
    } else {
        assert(m.dom() =~= Set::empty());
        assert(s =~= Set::empty());
    }
}

/// The committee approves an action where there is a committee and its quorum
/// is zero, or where enough members sit (during the bootstrap any number above
/// zero), not all of them abstain, and those that say yes are a part of those
/// that do not abstain that reaches the quorum. A member that casts no vote
/// counts as one that says no.
pub proof fn law_committee_approves(g: GovernanceModel, id: GovActionId, epoch: EpochNo, min_size: u64, boot: bool)
    requires
        g.committee_expiration.dom().finite(),
    ensures
        ({
            let votes = committee_votes(votes_on(g, id));
            let all = sitting(g, epoch);
            let yes = sitting_with(g, epoch, votes, Vote::Yes);
            let out = sitting_with(g, epoch, votes, Vote::Abstain);
            &&& all.finite() && yes.finite() && out.finite()
            &&& g.committee_threshold is None ==> !committee_approves(g, id, epoch, min_size, boot)
            &&& g.committee_threshold matches Some(t) ==> (committee_approves(g, id, epoch, min_size, boot) <==> {
                ||| t.numerator == 0
                ||| {
                    &&& all.len() > 0
                    &&& boot || all.len() >= min_size
                    &&& all.len() > out.len()
                    &&& yes.len() * t.denominator >= t.numerator * (all.len() - out.len())
                }
            })
        }),
{
    let votes = committee_votes(votes_on(g, id));
    let m = g.committee_expiration;
    let all = sitting(g, epoch);
    let yes = sitting_with(g, epoch, votes, Vote::Yes);
    let out = sitting_with(g, epoch, votes, Vote::Abstain);
    let kept = all.difference(out);
    assert forall|c: Hash32| #[trigger] m.dom().contains(c) implies active_fn(g, epoch)(c, m[c]) == (if all.contains(c) {
        1nat
    } else {
        0nat
    }) by {}
    lemma_count(m, active_fn(g, epoch), all);
    let yf = member_yes_fn(g, epoch, votes);
    assert forall|c: Hash32| #[trigger] m.dom().contains(c) implies yf(c, m[c]) == (if yes.contains(c) {
        1nat
    } else {
        0nat
    }) by {}
    lemma_count(m, yf, yes);
    let cf = member_counted_fn(g, epoch, votes);
    assert forall|c: Hash32| #[trigger] m.dom().contains(c) implies cf(c, m[c]) == (if kept.contains(c) {
        1nat
    } else {
        0nat
    }) by {}
    lemma_count(m, cf, kept);
    assert(out.subset_of(all));
    vstd::set_lib::lemma_set_subset_finite(all, out);
    vstd::set_lib::lemma_set_disjoint_lens(kept, out);
    assert(kept + out =~= all);
    let n = yes.len() as int;
    assert(kept.len() == all.len() - out.len());
}

// ---- tallies ----

/// How a representative votes on a ballot, if it casts a vote.
pub open spec fn drep_says(b: BallotModel, h: Hash32, v: Vote) -> bool {
    drep_votes(b.votes).dom().contains(h) && drep_votes(b.votes)[h] == v
}

/// The tally of representatives: stake that always votes no confidence counts,
/// and says yes to a motion of no confidence. The stake of a representative
/// counts unless it abstains, and says yes where it votes so; without a vote it
/// counts as one that says no.
pub proof fn law_drep_tally(b: BallotModel, power: Map<Hash32, u64>, nc: u64, h: Hash32, x: u64)
    requires
        power.dom().finite(),
        !power.dom().contains(h),
    ensures
        drep_yes(b, Map::empty(), nc) == if b.no_confidence { nc as nat } else { 0 },
        drep_counted(b, Map::empty(), nc) == nc,
        drep_yes(b, power.insert(h, x), nc) == drep_yes(b, power, nc) + if drep_says(b, h, Vote::Yes) { x as nat } else { 0 },
        drep_counted(b, power.insert(h, x), nc) == drep_counted(b, power, nc) + if drep_says(b, h, Vote::Abstain) {
            0
        } else {
            x as nat
        },
{
    let votes = drep_votes(b.votes);
    let yf = drep_power_fn(votes, Some(Vote::Yes));
    let af = drep_power_fn(votes, Some(Vote::Abstain));
    let all = drep_power_fn(Map::empty(), None);
    let none = Map::<Hash32, u64>::empty();
    assert(none.dom() =~= Set::empty());
    assert(map_sum(none, yf) == 0 && map_sum(none, af) == 0 && map_sum(none, all) == 0);
    lemma_sum_insert(power, yf, h, x);
    lemma_sum_insert(power, af, h, x);
    lemma_sum_insert(power, all, h, x);
    crate::sums::lemma_sum_le(power, af, all);
}

/// How a pool votes: as it says; without a vote it says no to a hard fork,
/// abstains on anything else during the bootstrap, and otherwise abstains where
/// its operator's account delegates to abstention, says yes to a motion of no
/// confidence where the account delegates to that, and says no in all other
/// cases.
pub proof fn law_pool_says(b: BallotModel, mark: SnapshotModel, p: Hash28)
    ensures
        ({
            let v = pool_vote(b, mark, p);
            let cast = pool_votes(b.votes);
            let silent = !cast.dom().contains(p);
            let later = silent && !b.hard_fork && !b.bootstrap;
            let key = if mark.pool_params.dom().contains(p) {
                account_key(mark.pool_params[p].reward_account)
            } else {
                account_key(b.pools[p].reward_account)
            };
            let known = mark.pool_params.dom().contains(p) || b.pools.dom().contains(p);
            let to = |d: DRep| known && b.vote_delegations.dom().contains(key) && b.vote_delegations[key] == d;
            &&& !silent ==> v == cast[p]
            &&& silent && b.hard_fork ==> v == Vote::No
            &&& silent && !b.hard_fork && b.bootstrap ==> v == Vote::Abstain
            &&& later && to(DRep::AlwaysAbstain) ==> v == Vote::Abstain
            &&& later && to(DRep::AlwaysNoConfidence) && b.no_confidence ==> v == Vote::Yes
            &&& later && to(DRep::AlwaysNoConfidence) && !b.no_confidence ==> v == Vote::No
            &&& later && !to(DRep::AlwaysAbstain) && !to(DRep::AlwaysNoConfidence) ==> v == Vote::No
        }),
{
}

/// A snapshot with one more pool and its stake.
pub open spec fn with_pool(mark: SnapshotModel, p: Hash28, x: Lovelace) -> SnapshotModel {
    SnapshotModel { pool_stake: mark.pool_stake.insert(p, x), ..mark }
}

/// The tally of pools: the stake that a pool has in the mark snapshot counts
/// unless the pool abstains, and says yes where the pool does.
pub proof fn law_pool_tally(b: BallotModel, mark: SnapshotModel, p: Hash28, x: Lovelace)
    requires
        b.mark == Some(mark),
        mark.pool_stake.dom().finite(),
        !mark.pool_stake.dom().contains(p),
    ensures
        ({
            let c = BallotModel { mark: Some(with_pool(mark, p, x)), ..b };
            let v = pool_vote(b, mark, p);
            &&& spo_yes(c) == spo_yes(b) + if v == Vote::Yes { x.0 as nat } else { 0 }
            &&& spo_counted(c) == spo_counted(b) + if v == Vote::Abstain { 0 } else { x.0 as nat }
            &&& mark.pool_stake == Map::<Hash28, Lovelace>::empty() ==> spo_yes(b) == 0 && spo_counted(b) == 0
        }),
{
    let m = with_pool(mark, p, x);
    let c = BallotModel { mark: Some(m), ..b };
    let yb = yes_stake_fn(b, mark);
    let cb = counted_stake_fn(b, mark);
    assert forall|q: Hash28| pool_vote(c, m, q) == #[trigger] pool_vote(b, mark, q) by {}
    assert(m.pool_stake.dom() =~= mark.pool_stake.dom().insert(p));
    lemma_sum_same(m.pool_stake, yes_stake_fn(c, m), yb);
    lemma_sum_same(m.pool_stake, counted_stake_fn(c, m), cb);
    lemma_sum_insert(mark.pool_stake, yb, p, x);
    lemma_sum_insert(mark.pool_stake, cb, p, x);
    if mark.pool_stake == Map::<Hash28, Lovelace>::empty() {
        crate::sums::lemma_sum_empty::<Hash28, Lovelace>(yb);
        crate::sums::lemma_sum_empty::<Hash28, Lovelace>(cb);
    }
}

/// Before there is a mark snapshot only pools that cast a vote count, with the
/// stake that is delegated to them.
pub proof fn law_pool_tally_unmarked(b: BallotModel, p: Hash28, procedure: VotingProcedure)
    requires
        b.mark is None,
        pool_votes(b.votes).dom().finite(),
        !pool_votes(b.votes).dom().contains(p),
    ensures
        ({
            let c = BallotModel { votes: b.votes.push((Voter::StakePool(p), procedure)), ..b };
            let x = map_sum(b.delegations, to_pool_fn(b.stake_map, b.accounts, p));
            &&& spo_yes(c) == spo_yes(b) + if procedure.vote == Vote::Yes { x } else { 0 }
            &&& spo_counted(c) == spo_counted(b) + if procedure.vote == Vote::Abstain { 0 } else { x }
            &&& b.votes.len() == 0 ==> spo_yes(b) == 0 && spo_counted(b) == 0
        }),
{
    let c = BallotModel { votes: b.votes.push((Voter::StakePool(p), procedure)), ..b };
    assert(c.votes.drop_last() =~= b.votes);
    let m = pool_votes(b.votes);
    assert(pool_votes(c.votes) == m.insert(p, procedure.vote));
    let yb = crate::ledger::governance::yes_power_fn(b);
    let cb = crate::ledger::governance::counted_power_fn(b);
    lemma_sum_same(pool_votes(c.votes), crate::ledger::governance::yes_power_fn(c), yb);
    lemma_sum_same(pool_votes(c.votes), crate::ledger::governance::counted_power_fn(c), cb);
    lemma_sum_insert(m, yb, p, procedure.vote);
    lemma_sum_insert(m, cb, p, procedure.vote);
    if b.votes.len() == 0 {
        crate::sums::lemma_sum_empty::<Hash28, Vote>(yb);
        crate::sums::lemma_sum_empty::<Hash28, Vote>(cb);
    }
}

/// A delegation brings the unspent outputs and the rewards of its credential
/// to its pool, and nothing to others.
pub proof fn law_delegated_stake(
    delegations: Map<Hash32, Hash28>,
    stake_map: Map<Hash32, Lovelace>,
    accounts: Map<Hash32, Lovelace>,
    c: Hash32,
    q: Hash28,
    p: Hash28,
)
    requires
        delegations.dom().finite(),
        !delegations.dom().contains(c),
        stake_map.dom().contains(c),
        accounts.dom().contains(c),
    ensures
        power_of_pool(None, delegations.insert(c, q), stake_map, accounts, p) == power_of_pool(
            None,
            delegations,
            stake_map,
            accounts,
            p,
        ) + if p == q { (stake_map[c].0 + accounts[c].0) as nat } else { 0 },
        stake_of(stake_map.remove(c), accounts, c) == accounts[c].0,
        stake_of(stake_map, accounts.remove(c), c) == stake_map[c].0,
{
    lemma_sum_insert(delegations, to_pool_fn(stake_map, accounts, p), c, q);
}

// ---- parameter groups ----

proof fn lemma_tagged(l: Seq<PPGroup>, set: bool, d: DRepPPGroup, q: StakePoolPPGroup)
    ensures
        forall|x: PPGroup| #[trigger] tagged(l, set, d, q).contains(x) == (l.contains(x) || (set && x == (d, q))),
{
    reveal(tagged);
    assert forall|x: PPGroup| #[trigger] tagged(l, set, d, q).contains(x) == (l.contains(x) || (set && x == (d, q))) by {
        if set {
            let m = l.push((d, q));
            if l.contains(x) {
                let i = l.index_of(x);
                assert(m[i] == x);
            }
            if x == (d, q) {
                assert(m[l.len() as int] == x);
            }
            if m.contains(x) {
                let i = m.index_of(x);
                if i < l.len() {
                    assert(l[i] == x);
                }
            }
        }
    }
}

proof fn lemma_limit_groups(g0: Seq<PPGroup>, u: ProtocolParamUpdate)
    ensures
        forall|x: PPGroup| #[trigger] limit_groups(g0, u).contains(x) == (g0.contains(x)
            || (u.max_block_body_size is Some && x == (DRepPPGroup::Network, StakePoolPPGroup::Security))
            || (u.max_transaction_size is Some && x == (DRepPPGroup::Network, StakePoolPPGroup::Security))
            || (u.max_block_header_size is Some && x == (DRepPPGroup::Network, StakePoolPPGroup::Security))
            || (u.protocol_version is Some && x == (DRepPPGroup::Network, StakePoolPPGroup::Security))
            || (u.min_fee_a is Some && x == (DRepPPGroup::Economic, StakePoolPPGroup::Security))
            || (u.min_fee_b is Some && x == (DRepPPGroup::Economic, StakePoolPPGroup::Security))
            || (u.key_deposit is Some && x == (DRepPPGroup::Economic, StakePoolPPGroup::NoVote))
            || (u.pool_deposit is Some && x == (DRepPPGroup::Economic, StakePoolPPGroup::NoVote))),
{
    reveal(limit_groups);
    lemma_tagged(g0, u.max_block_body_size is Some, DRepPPGroup::Network, StakePoolPPGroup::Security);
    let g1 = tagged(g0, u.max_block_body_size is Some, DRepPPGroup::Network, StakePoolPPGroup::Security);
    lemma_tagged(g1, u.max_transaction_size is Some, DRepPPGroup::Network, StakePoolPPGroup::Security);
    let g2 = tagged(g1, u.max_transaction_size is Some, DRepPPGroup::Network, StakePoolPPGroup::Security);
    lemma_tagged(g2, u.max_block_header_size is Some, DRepPPGroup::Network, StakePoolPPGroup::Security);
    let g3 = tagged(g2, u.max_block_header_size is Some, DRepPPGroup::Network, StakePoolPPGroup::Security);
    lemma_tagged(g3, u.protocol_version is Some, DRepPPGroup::Network, StakePoolPPGroup::Security);
    let g4 = tagged(g3, u.protocol_version is Some, DRepPPGroup::Network, StakePoolPPGroup::Security);
    lemma_tagged(g4, u.min_fee_a is Some, DRepPPGroup::Economic, StakePoolPPGroup::Security);
    let g5 = tagged(g4, u.min_fee_a is Some, DRepPPGroup::Economic, StakePoolPPGroup::Security);
    lemma_tagged(g5, u.min_fee_b is Some, DRepPPGroup::Economic, StakePoolPPGroup::Security);
    let g6 = tagged(g5, u.min_fee_b is Some, DRepPPGroup::Economic, StakePoolPPGroup::Security);
    lemma_tagged(g6, u.key_deposit is Some, DRepPPGroup::Economic, StakePoolPPGroup::NoVote);
    let g7 = tagged(g6, u.key_deposit is Some, DRepPPGroup::Economic, StakePoolPPGroup::NoVote);
    lemma_tagged(g7, u.pool_deposit is Some, DRepPPGroup::Economic, StakePoolPPGroup::NoVote);
    let g8 = tagged(g7, u.pool_deposit is Some, DRepPPGroup::Economic, StakePoolPPGroup::NoVote);
    assert(g8 == limit_groups(g0, u));
}

proof fn lemma_pool_groups(g0: Seq<PPGroup>, u: ProtocolParamUpdate)
    ensures
        forall|x: PPGroup| #[trigger] pool_groups(g0, u).contains(x) == (g0.contains(x)
            || (u.min_pool_cost is Some && x == (DRepPPGroup::Economic, StakePoolPPGroup::NoVote))
            || (u.rho is Some && x == (DRepPPGroup::Economic, StakePoolPPGroup::NoVote))
            || (u.tau is Some && x == (DRepPPGroup::Economic, StakePoolPPGroup::NoVote))
            || (u.a0 is Some && x == (DRepPPGroup::Economic, StakePoolPPGroup::NoVote))
            || (u.n_opt is Some && x == (DRepPPGroup::Technical, StakePoolPPGroup::Security))
            || (u.e_max is Some && x == (DRepPPGroup::Technical, StakePoolPPGroup::NoVote))
            || (u.decentralization is Some && x == (DRepPPGroup::Technical, StakePoolPPGroup::Security))
            || (u.min_fee_ref_script_cost_per_byte is Some && x == (DRepPPGroup::Economic, StakePoolPPGroup::NoVote))),
{
    reveal(pool_groups);
    lemma_tagged(g0, u.min_pool_cost is Some, DRepPPGroup::Economic, StakePoolPPGroup::NoVote);
    let g1 = tagged(g0, u.min_pool_cost is Some, DRepPPGroup::Economic, StakePoolPPGroup::NoVote);
    lemma_tagged(g1, u.rho is Some, DRepPPGroup::Economic, StakePoolPPGroup::NoVote);
    let g2 = tagged(g1, u.rho is Some, DRepPPGroup::Economic, StakePoolPPGroup::NoVote);
    lemma_tagged(g2, u.tau is Some, DRepPPGroup::Economic, StakePoolPPGroup::NoVote);
    let g3 = tagged(g2, u.tau is Some, DRepPPGroup::Economic, StakePoolPPGroup::NoVote);
    lemma_tagged(g3, u.a0 is Some, DRepPPGroup::Economic, StakePoolPPGroup::NoVote);
    let g4 = tagged(g3, u.a0 is Some, DRepPPGroup::Economic, StakePoolPPGroup::NoVote);
    lemma_tagged(g4, u.n_opt is Some, DRepPPGroup::Technical, StakePoolPPGroup::Security);
    let g5 = tagged(g4, u.n_opt is Some, DRepPPGroup::Technical, StakePoolPPGroup::Security);
    lemma_tagged(g5, u.e_max is Some, DRepPPGroup::Technical, StakePoolPPGroup::NoVote);
    let g6 = tagged(g5, u.e_max is Some, DRepPPGroup::Technical, StakePoolPPGroup::NoVote);
    lemma_tagged(g6, u.decentralization is Some, DRepPPGroup::Technical, StakePoolPPGroup::Security);
    let g7 = tagged(g6, u.decentralization is Some, DRepPPGroup::Technical, StakePoolPPGroup::Security);
    lemma_tagged(g7, u.min_fee_ref_script_cost_per_byte is Some, DRepPPGroup::Economic, StakePoolPPGroup::NoVote);
    let g8 = tagged(g7, u.min_fee_ref_script_cost_per_byte is Some, DRepPPGroup::Economic, StakePoolPPGroup::NoVote);
    assert(g8 == pool_groups(g0, u));
}

proof fn lemma_gov_groups(g0: Seq<PPGroup>, u: ProtocolParamUpdate)
    ensures
        forall|x: PPGroup| #[trigger] gov_groups(g0, u).contains(x) == (g0.contains(x)
            || (u.drep_deposit is Some && x == (DRepPPGroup::Gov, StakePoolPPGroup::NoVote))
            || (u.drep_activity is Some && x == (DRepPPGroup::Gov, StakePoolPPGroup::NoVote))
            || (u.gov_action_lifetime is Some && x == (DRepPPGroup::Gov, StakePoolPPGroup::NoVote))
            || (u.gov_action_deposit is Some && x == (DRepPPGroup::Gov, StakePoolPPGroup::NoVote))
            || (u.committee_min_size is Some && x == (DRepPPGroup::Gov, StakePoolPPGroup::NoVote))
            || (u.committee_max_term_length is Some && x == (DRepPPGroup::Gov, StakePoolPPGroup::NoVote))),
{
    reveal(gov_groups);
    lemma_tagged(g0, u.drep_deposit is Some, DRepPPGroup::Gov, StakePoolPPGroup::NoVote);
    let g1 = tagged(g0, u.drep_deposit is Some, DRepPPGroup::Gov, StakePoolPPGroup::NoVote);
    lemma_tagged(g1, u.drep_activity is Some, DRepPPGroup::Gov, StakePoolPPGroup::NoVote);
    let g2 = tagged(g1, u.drep_activity is Some, DRepPPGroup::Gov, StakePoolPPGroup::NoVote);
    lemma_tagged(g2, u.gov_action_lifetime is Some, DRepPPGroup::Gov, StakePoolPPGroup::NoVote);
    let g3 = tagged(g2, u.gov_action_lifetime is Some, DRepPPGroup::Gov, StakePoolPPGroup::NoVote);
    lemma_tagged(g3, u.gov_action_deposit is Some, DRepPPGroup::Gov, StakePoolPPGroup::NoVote);
    let g4 = tagged(g3, u.gov_action_deposit is Some, DRepPPGroup::Gov, StakePoolPPGroup::NoVote);
    lemma_tagged(g4, u.committee_min_size is Some, DRepPPGroup::Gov, StakePoolPPGroup::NoVote);
    let g5 = tagged(g4, u.committee_min_size is Some, DRepPPGroup::Gov, StakePoolPPGroup::NoVote);
    lemma_tagged(g5, u.committee_max_term_length is Some, DRepPPGroup::Gov, StakePoolPPGroup::NoVote);
    let g6 = tagged(g5, u.committee_max_term_length is Some, DRepPPGroup::Gov, StakePoolPPGroup::NoVote);
    assert(g6 == gov_groups(g0, u));
}

proof fn lemma_drep_groups(g0: Seq<PPGroup>, u: ProtocolParamUpdate)
    ensures
        forall|x: PPGroup| #[trigger] drep_groups(g0, u).contains(x) == (g0.contains(x)
            || (u.dvt_motion_no_confidence is Some && x == (DRepPPGroup::Gov, StakePoolPPGroup::NoVote))
            || (u.dvt_committee_normal is Some && x == (DRepPPGroup::Gov, StakePoolPPGroup::NoVote))
            || (u.dvt_committee_no_confidence is Some && x == (DRepPPGroup::Gov, StakePoolPPGroup::NoVote))
            || (u.dvt_update_to_constitution is Some && x == (DRepPPGroup::Gov, StakePoolPPGroup::NoVote))
            || (u.dvt_hard_fork_initiation is Some && x == (DRepPPGroup::Gov, StakePoolPPGroup::NoVote))
            || (u.dvt_pp_network_group is Some && x == (DRepPPGroup::Gov, StakePoolPPGroup::NoVote))
            || (u.dvt_pp_economic_group is Some && x == (DRepPPGroup::Gov, StakePoolPPGroup::NoVote))
            || (u.dvt_pp_technical_group is Some && x == (DRepPPGroup::Gov, StakePoolPPGroup::NoVote))
            || (u.dvt_pp_gov_group is Some && x == (DRepPPGroup::Gov, StakePoolPPGroup::NoVote))
            || (u.dvt_treasury_withdrawal is Some && x == (DRepPPGroup::Gov, StakePoolPPGroup::NoVote))),
{
    reveal(drep_groups);
    lemma_tagged(g0, u.dvt_motion_no_confidence is Some, DRepPPGroup::Gov, StakePoolPPGroup::NoVote);
    let g1 = tagged(g0, u.dvt_motion_no_confidence is Some, DRepPPGroup::Gov, StakePoolPPGroup::NoVote);
    lemma_tagged(g1, u.dvt_committee_normal is Some, DRepPPGroup::Gov, StakePoolPPGroup::NoVote);
    let g2 = tagged(g1, u.dvt_committee_normal is Some, DRepPPGroup::Gov, StakePoolPPGroup::NoVote);
    lemma_tagged(g2, u.dvt_committee_no_confidence is Some, DRepPPGroup::Gov, StakePoolPPGroup::NoVote);
    let g3 = tagged(g2, u.dvt_committee_no_confidence is Some, DRepPPGroup::Gov, StakePoolPPGroup::NoVote);
    lemma_tagged(g3, u.dvt_update_to_constitution is Some, DRepPPGroup::Gov, StakePoolPPGroup::NoVote);
    let g4 = tagged(g3, u.dvt_update_to_constitution is Some, DRepPPGroup::Gov, StakePoolPPGroup::NoVote);
    lemma_tagged(g4, u.dvt_hard_fork_initiation is Some, DRepPPGroup::Gov, StakePoolPPGroup::NoVote);
    let g5 = tagged(g4, u.dvt_hard_fork_initiation is Some, DRepPPGroup::Gov, StakePoolPPGroup::NoVote);
    lemma_tagged(g5, u.dvt_pp_network_group is Some, DRepPPGroup::Gov, StakePoolPPGroup::NoVote);
    let g6 = tagged(g5, u.dvt_pp_network_group is Some, DRepPPGroup::Gov, StakePoolPPGroup::NoVote);
    lemma_tagged(g6, u.dvt_pp_economic_group is Some, DRepPPGroup::Gov, StakePoolPPGroup::NoVote);
    let g7 = tagged(g6, u.dvt_pp_economic_group is Some, DRepPPGroup::Gov, StakePoolPPGroup::NoVote);
    lemma_tagged(g7, u.dvt_pp_technical_group is Some, DRepPPGroup::Gov, StakePoolPPGroup::NoVote);
    let g8 = tagged(g7, u.dvt_pp_technical_group is Some, DRepPPGroup::Gov, StakePoolPPGroup::NoVote);
    lemma_tagged(g8, u.dvt_pp_gov_group is Some, DRepPPGroup::Gov, StakePoolPPGroup::NoVote);
    let g9 = tagged(g8, u.dvt_pp_gov_group is Some, DRepPPGroup::Gov, StakePoolPPGroup::NoVote);
    lemma_tagged(g9, u.dvt_treasury_withdrawal is Some, DRepPPGroup::Gov, StakePoolPPGroup::NoVote);
    let g10 = tagged(g9, u.dvt_treasury_withdrawal is Some, DRepPPGroup::Gov, StakePoolPPGroup::NoVote);
    assert(g10 == drep_groups(g0, u));
}

proof fn lemma_spo_groups(g0: Seq<PPGroup>, u: ProtocolParamUpdate)
    ensures
        forall|x: PPGroup| #[trigger] spo_groups(g0, u).contains(x) == (g0.contains(x)
            || (u.pvt_motion_no_confidence is Some && x == (DRepPPGroup::Gov, StakePoolPPGroup::NoVote))
            || (u.pvt_committee_normal is Some && x == (DRepPPGroup::Gov, StakePoolPPGroup::NoVote))
            || (u.pvt_committee_no_confidence is Some && x == (DRepPPGroup::Gov, StakePoolPPGroup::NoVote))
            || (u.pvt_hard_fork_initiation is Some && x == (DRepPPGroup::Gov, StakePoolPPGroup::NoVote))
            || (u.pvt_pp_security_group is Some && x == (DRepPPGroup::Gov, StakePoolPPGroup::NoVote))),
{
    reveal(spo_groups);
    lemma_tagged(g0, u.pvt_motion_no_confidence is Some, DRepPPGroup::Gov, StakePoolPPGroup::NoVote);
    let g1 = tagged(g0, u.pvt_motion_no_confidence is Some, DRepPPGroup::Gov, StakePoolPPGroup::NoVote);
    lemma_tagged(g1, u.pvt_committee_normal is Some, DRepPPGroup::Gov, StakePoolPPGroup::NoVote);
    let g2 = tagged(g1, u.pvt_committee_normal is Some, DRepPPGroup::Gov, StakePoolPPGroup::NoVote);
    lemma_tagged(g2, u.pvt_committee_no_confidence is Some, DRepPPGroup::Gov, StakePoolPPGroup::NoVote);
    let g3 = tagged(g2, u.pvt_committee_no_confidence is Some, DRepPPGroup::Gov, StakePoolPPGroup::NoVote);
    lemma_tagged(g3, u.pvt_hard_fork_initiation is Some, DRepPPGroup::Gov, StakePoolPPGroup::NoVote);
    let g4 = tagged(g3, u.pvt_hard_fork_initiation is Some, DRepPPGroup::Gov, StakePoolPPGroup::NoVote);
    lemma_tagged(g4, u.pvt_pp_security_group is Some, DRepPPGroup::Gov, StakePoolPPGroup::NoVote);
    let g5 = tagged(g4, u.pvt_pp_security_group is Some, DRepPPGroup::Gov, StakePoolPPGroup::NoVote);
    assert(g5 == spo_groups(g0, u));
}

/// An update touches the network group where it sets a size or the version.
pub open spec fn touches_network(u: ProtocolParamUpdate) -> bool {
    ||| u.max_block_body_size is Some
    ||| u.max_transaction_size is Some
    ||| u.max_block_header_size is Some
    ||| u.protocol_version is Some
}

/// An update touches the economic group where it sets a fee, a deposit of
/// stake keys or pools, a rate, or what pools cost and earn.
pub open spec fn touches_economic(u: ProtocolParamUpdate) -> bool {
    ||| u.min_fee_a is Some
    ||| u.min_fee_b is Some
    ||| u.key_deposit is Some
    ||| u.pool_deposit is Some
    ||| u.min_pool_cost is Some
    ||| u.rho is Some
    ||| u.tau is Some
    ||| u.a0 is Some
    ||| u.min_fee_ref_script_cost_per_byte is Some
}

/// An update touches the technical group where it sets the optimal pool count,
/// how far ahead pools retire, or the decentralization.
pub open spec fn touches_technical(u: ProtocolParamUpdate) -> bool {
    ||| u.n_opt is Some
    ||| u.e_max is Some
    ||| u.decentralization is Some
}

/// An update touches the governance group where it sets a deposit, a lifetime,
/// the committee's bounds or a voting threshold.
pub open spec fn touches_governance(u: ProtocolParamUpdate) -> bool {
    ||| u.drep_deposit is Some
    ||| u.drep_activity is Some
    ||| u.gov_action_lifetime is Some
    ||| u.gov_action_deposit is Some
    ||| u.committee_min_size is Some
    ||| u.committee_max_term_length is Some
    ||| u.dvt_motion_no_confidence is Some
    ||| u.dvt_committee_normal is Some
    ||| u.dvt_committee_no_confidence is Some
    ||| u.dvt_update_to_constitution is Some
    ||| u.dvt_hard_fork_initiation is Some
    ||| u.dvt_pp_network_group is Some
    ||| u.dvt_pp_economic_group is Some
    ||| u.dvt_pp_technical_group is Some
    ||| u.dvt_pp_gov_group is Some
    ||| u.dvt_treasury_withdrawal is Some
    ||| u.pvt_motion_no_confidence is Some
    ||| u.pvt_committee_normal is Some
    ||| u.pvt_committee_no_confidence is Some
    ||| u.pvt_hard_fork_initiation is Some
    ||| u.pvt_pp_security_group is Some
}

/// The list of groups names exactly those that an update touches.
proof fn lemma_groups(u: ProtocolParamUpdate)
    ensures
        touches_network(u) == (groups_of(u).contains((DRepPPGroup::Network, StakePoolPPGroup::Security)) || groups_of(u).contains(
            (DRepPPGroup::Network, StakePoolPPGroup::NoVote),
        )),
        touches_economic(u) == (groups_of(u).contains((DRepPPGroup::Economic, StakePoolPPGroup::Security)) || groups_of(u).contains(
            (DRepPPGroup::Economic, StakePoolPPGroup::NoVote),
        )),
        touches_technical(u) == (groups_of(u).contains((DRepPPGroup::Technical, StakePoolPPGroup::Security)) || groups_of(u).contains(
            (DRepPPGroup::Technical, StakePoolPPGroup::NoVote),
        )),
        touches_governance(u) == (groups_of(u).contains((DRepPPGroup::Gov, StakePoolPPGroup::Security)) || groups_of(u).contains(
            (DRepPPGroup::Gov, StakePoolPPGroup::NoVote),
        )),
        forall|x: PPGroup| #[trigger]
            groups_of(u).contains(x) && x.1 == StakePoolPPGroup::Security ==> (u.max_block_body_size is Some
                || u.max_transaction_size is Some
                || u.max_block_header_size is Some
                || u.protocol_version is Some
                || u.min_fee_a is Some
                || u.min_fee_b is Some
                || u.n_opt is Some
                || u.decentralization is Some),
        u.max_block_body_size is Some ==> groups_of(u).contains((DRepPPGroup::Network, StakePoolPPGroup::Security)),
        u.max_transaction_size is Some ==> groups_of(u).contains((DRepPPGroup::Network, StakePoolPPGroup::Security)),
        u.max_block_header_size is Some ==> groups_of(u).contains((DRepPPGroup::Network, StakePoolPPGroup::Security)),
        u.protocol_version is Some ==> groups_of(u).contains((DRepPPGroup::Network, StakePoolPPGroup::Security)),
        u.min_fee_a is Some ==> groups_of(u).contains((DRepPPGroup::Economic, StakePoolPPGroup::Security)),
        u.min_fee_b is Some ==> groups_of(u).contains((DRepPPGroup::Economic, StakePoolPPGroup::Security)),
        u.n_opt is Some ==> groups_of(u).contains((DRepPPGroup::Technical, StakePoolPPGroup::Security)),
        u.decentralization is Some ==> groups_of(u).contains((DRepPPGroup::Technical, StakePoolPPGroup::Security)),
{
    reveal(groups_of);
    let e = Seq::<PPGroup>::empty();
    let a = limit_groups(e, u);
    let b = pool_groups(a, u);
    let c = gov_groups(b, u);
    let d = drep_groups(c, u);
    lemma_limit_groups(e, u);
    lemma_pool_groups(a, u);
    lemma_gov_groups(b, u);
    lemma_drep_groups(c, u);
    lemma_spo_groups(d, u);
    assert(groups_of(u) == spo_groups(d, u));
}

/// Representatives accept a parameter change where every group that it touches
/// reaches the threshold of that group, and no other group matters.
pub proof fn law_groups_decide(u: ProtocolParamUpdate, p: ProtocolParameters, yes: nat, total: nat)
    ensures
        all_groups_met(u, p, yes, total) <==> {
            &&& touches_network(u) ==> threshold_met(yes, total, p.dvt_pp_network_group)
            &&& touches_economic(u) ==> threshold_met(yes, total, p.dvt_pp_economic_group)
            &&& touches_technical(u) ==> threshold_met(yes, total, p.dvt_pp_technical_group)
            &&& touches_governance(u) ==> threshold_met(yes, total, p.dvt_pp_gov_group)
        },
{
    lemma_groups(u);
    let l = groups_of(u);
    if all_groups_met(u, p, yes, total) {
        assert forall|x: PPGroup| #[trigger] l.contains(x) implies threshold_met(yes, total, group_threshold(p, x.0)) by {
            let i = l.index_of(x);
            assert(l[i] == x);
        }
    } else {
        let i = choose|i: int|
            #![trigger l[i]]
            0 <= i < l.len() && !threshold_met(yes, total, group_threshold(p, l[i].0));
        assert(l.contains(l[i]));
    }
}

/// Pools vote on a parameter change where it sets a size, the version, a fee
/// per transaction, the optimal pool count or the decentralization.
pub proof fn law_security_group(u: ProtocolParamUpdate)
    ensures
        touches_security(u) <==> {
            ||| u.max_block_body_size is Some
            ||| u.max_transaction_size is Some
            ||| u.max_block_header_size is Some
            ||| u.protocol_version is Some
            ||| u.min_fee_a is Some
            ||| u.min_fee_b is Some
            ||| u.n_opt is Some
            ||| u.decentralization is Some
        },
{
    lemma_groups(u);
    let l = groups_of(u);
    if touches_security(u) {
        let i = choose|i: int| #![trigger l[i]] 0 <= i < l.len() && l[i].1 == StakePoolPPGroup::Security;
        assert(l.contains(l[i]));
    }
    assert forall|x: PPGroup| #[trigger] l.contains(x) && x.1 == StakePoolPPGroup::Security implies touches_security(u) by {
        let i = l.index_of(x);
        assert(l[i] == x);
    }
}

// ---- proposals ----

/// A proposal names the last enacted action of its purpose, or none where none
/// was enacted; a withdrawal and an info action name none.
pub proof fn law_purposes(a: ActionModel, g: GovernanceModel)
    ensures
        a matches ActionModel::ParameterChange { prev_action_id, .. } ==> prev_ok(a, g) == (prev_action_id
            == g.enacted_pparam_update),
        a matches ActionModel::HardForkInitiation { prev_action_id, .. } ==> prev_ok(a, g) == (prev_action_id
            == g.enacted_hard_fork),
        a matches ActionModel::NoConfidence { prev_action_id } ==> prev_ok(a, g) == (prev_action_id
            == g.enacted_committee),
        a matches ActionModel::UpdateCommittee { prev_action_id, .. } ==> prev_ok(a, g) == (prev_action_id
            == g.enacted_committee),
        a matches ActionModel::NewConstitution { prev_action_id, .. } ==> prev_ok(a, g) == (prev_action_id
            == g.enacted_constitution),
        a is TreasuryWithdrawals || a is InfoAction ==> prev_ok(a, g),
{
}

/// Whether two actions serve one purpose, for which they follow on each other.
pub open spec fn one_purpose(a: ActionModel, b: ActionModel) -> bool {
    ||| a is ParameterChange && b is ParameterChange
    ||| a is HardForkInitiation && b is HardForkInitiation
    ||| a is NewConstitution && b is NewConstitution
    ||| (a is NoConfidence || a is UpdateCommittee) && (b is NoConfidence || b is UpdateCommittee)
}

/// Once an action is ratified, no other action of its purpose that was proposed
/// before can follow on what came before it; actions of other purposes are not
/// affected.
pub proof fn law_one_of_a_purpose(s: LedgerModel, id: GovActionId, a: ActionModel, b: ActionModel)
    requires
        prev_ok(b, s.governance),
    ensures
        one_purpose(a, b) && prev_ok(b, rooted(s, id, a).governance) ==> {
            ||| b matches ActionModel::ParameterChange { prev_action_id, .. } && prev_action_id == Some(id)
            ||| b matches ActionModel::HardForkInitiation { prev_action_id, .. } && prev_action_id == Some(id)
            ||| b matches ActionModel::NoConfidence { prev_action_id } && prev_action_id == Some(id)
            ||| b matches ActionModel::UpdateCommittee { prev_action_id, .. } && prev_action_id == Some(id)
            ||| b matches ActionModel::NewConstitution { prev_action_id, .. } && prev_action_id == Some(id)
        },
        !one_purpose(a, b) ==> prev_ok(b, rooted(s, id, a).governance),
        ({
            let t = rooted(s, id, a);
            t == (LedgerModel {
                governance: GovernanceModel {
                    enacted_pparam_update: t.governance.enacted_pparam_update,
                    enacted_hard_fork: t.governance.enacted_hard_fork,
                    enacted_committee: t.governance.enacted_committee,
                    enacted_constitution: t.governance.enacted_constitution,
                    ..s.governance
                },
                ..s
            })
        }),
{
}

/// Motions of no confidence come before committee updates, then constitutions,
/// hard forks, parameter changes, withdrawals and info actions. The first four
/// let nothing follow in their epoch.
pub proof fn law_order_of_kinds(a: ActionModel, b: ActionModel)
    ensures
        a is NoConfidence && !(b is NoConfidence) ==> priority(a) < priority(b),
        a is UpdateCommittee && (b is NewConstitution || b is HardForkInitiation || b is ParameterChange
            || b is TreasuryWithdrawals || b is InfoAction) ==> priority(a) < priority(b),
        a is NewConstitution && (b is HardForkInitiation || b is ParameterChange || b is TreasuryWithdrawals
            || b is InfoAction) ==> priority(a) < priority(b),
        a is HardForkInitiation && (b is ParameterChange || b is TreasuryWithdrawals || b is InfoAction) ==> priority(a)
            < priority(b),
        a is ParameterChange && (b is TreasuryWithdrawals || b is InfoAction) ==> priority(a) < priority(b),
        a is TreasuryWithdrawals && b is InfoAction ==> priority(a) < priority(b),
        priority(a) < 7,
        delaying(a) == (a is NoConfidence || a is HardForkInitiation || a is UpdateCommittee || a is NewConstitution),
{
}

/// A proposal is open from the current epoch on for the lifetime of governance
/// actions, under its id; nothing else changes.
pub proof fn law_proposal_opens(s: LedgerModel, id: GovActionId, procedure: ProcedureModel, other: GovActionId)
    requires
        s.epoch.0 + s.protocol_params.gov_action_lifetime <= u64::MAX,
        s.governance.proposal_count < u64::MAX,
    ensures
        ({
            let t = proposed(s, id, procedure);
            let p = t.governance.proposals;
            &&& p.dom().contains(id)
            &&& p[id].procedure == procedure
            &&& p[id].proposed_epoch == s.epoch
            &&& p[id].expires_epoch.0 == s.epoch.0 + s.protocol_params.gov_action_lifetime
            &&& p[id].yes_votes == 0 && p[id].no_votes == 0 && p[id].abstain_votes == 0
            &&& other != id ==> p.dom().contains(other) == s.governance.proposals.dom().contains(other) && p[other]
                == s.governance.proposals[other]
            &&& t.governance.proposal_count == s.governance.proposal_count + 1
            &&& t == (LedgerModel {
                governance: GovernanceModel {
                    proposals: p,
                    proposal_count: t.governance.proposal_count,
                    ..s.governance
                },
                ..s
            })
        }),
{
}

/// A vote on an open proposal is kept behind those that were cast before; a
/// representative that votes is active from then on. A vote on anything else
/// changes nothing.
pub proof fn law_vote_kept(
    s: LedgerModel,
    voter: Voter,
    id: GovActionId,
    procedure: VotingProcedure,
    other: GovActionId,
    h: Hash32,
)
    ensures
        ({
            let t = voted(s, voter, id, procedure);
            let open = s.governance.proposals.dom().contains(id);
            let mine = voter matches Voter::DRep(c) && c.hash() == h;
            let (a, b) = (s.governance.dreps, t.governance.dreps);
            &&& !open ==> t == s
            &&& open ==> votes_on(t.governance, id).len() == votes_on(s.governance, id).len() + 1
                && votes_on(t.governance, id).drop_last() == votes_on(s.governance, id) && votes_on(
                t.governance,
                id,
            ).last() == (voter, procedure)
            &&& other != id ==> votes_on(t.governance, other) == votes_on(s.governance, other)
            &&& b.dom().contains(h) == a.dom().contains(h)
            &&& open && mine && a.dom().contains(h) ==> b[h].active && b[h].last_active_epoch == s.epoch
                && b[h].deposit == a[h].deposit && b[h].credential == a[h].credential && b[h].anchor == a[h].anchor
                && b[h].registered_epoch == a[h].registered_epoch && b[h].delegs == a[h].delegs
            &&& !mine && a.dom().contains(h) ==> b[h] == a[h]
            &&& t == (LedgerModel {
                governance: GovernanceModel {
                    dreps: b,
                    votes_by_action: t.governance.votes_by_action,
                    ..s.governance
                },
                ..s
            })
        }),
{
    let t = voted(s, voter, id, procedure);
    if s.governance.proposals.dom().contains(id) {
        assert(votes_on(t.governance, id).drop_last() =~= votes_on(s.governance, id));
    }
}

// ---- a round ----

/// A proposal joins the ratified ones where nothing delays it, it has the
/// votes, and it follows on what was enacted; otherwise the round goes on as it
/// was.
pub proof fn law_proposal_considered(
    s: LedgerModel,
    l: Seq<(GovActionId, ProposalModel)>,
    e: (GovActionId, ProposalModel),
    power: Map<Hash32, u64>,
    nc: u64,
)
    ensures
        ({
            let a = e.1.procedure.gov_action;
            let r = round(s, l, power, nc);
            let t = round(s, l.push(e), power, nc);
            let passes = !r.delayed && accepted(r.state, e.0, a, power, nc) && prev_ok(a, r.state.governance);
            &&& passes ==> t.ratified == r.ratified.push(e) && t.delayed == delaying(a) && t.state == rooted(
                r.state,
                e.0,
                a,
            )
            &&& !passes ==> t == r
            &&& round(s, Seq::empty(), power, nc).ratified.len() == 0
            &&& !round(s, Seq::empty(), power, nc).delayed
            &&& round(s, Seq::empty(), power, nc).state == s
        }),
{
    assert(l.push(e).drop_last() =~= l);
}

/// Every ratified proposal was open and has the votes that it needs, counted on
/// the ledger at the start of the round.
pub proof fn law_ratified_have_votes(s: LedgerModel, l: Seq<(GovActionId, ProposalModel)>, power: Map<Hash32, u64>, nc: u64)
    ensures
        ({
            let r = round(s, l, power, nc);
            &&& forall|i: int|
                #![trigger r.ratified[i]]
                0 <= i < r.ratified.len() ==> l.contains(r.ratified[i]) && accepted(
                    s,
                    r.ratified[i].0,
                    r.ratified[i].1.procedure.gov_action,
                    power,
                    nc,
                )
            &&& r.state == (LedgerModel {
                governance: GovernanceModel {
                    enacted_pparam_update: r.state.governance.enacted_pparam_update,
                    enacted_hard_fork: r.state.governance.enacted_hard_fork,
                    enacted_committee: r.state.governance.enacted_committee,
                    enacted_constitution: r.state.governance.enacted_constitution,
                    ..s.governance
                },
                ..s
            })
        }),
    decreases l.len(),
{
    let r = round(s, l, power, nc);
    if l.len() > 0 {
        let k = l.drop_last();
        law_ratified_have_votes(s, k, power, nc);
        let b = round(s, k, power, nc);
        let e = l.last();
        let a = e.1.procedure.gov_action;
        assert(l.contains(e)) by {
            assert(l[l.len() - 1] == e);
        }
        assert(accepted(b.state, e.0, a, power, nc) == accepted(s, e.0, a, power, nc)) by {
            assert(ballot(b.state, e.0, a) == ballot(s, e.0, a));
            lemma_committee_same(b.state.governance, s.governance, e.0, s.epoch, s.protocol_params.committee_min_size, bootstrap(s));
        }
        assert forall|i: int| #![trigger r.ratified[i]] 0 <= i < r.ratified.len() implies l.contains(r.ratified[i])
            && accepted(s, r.ratified[i].0, r.ratified[i].1.procedure.gov_action, power, nc) by {
            if i < b.ratified.len() {
                assert(r.ratified[i] == b.ratified[i]);
                assert(k.contains(b.ratified[i]));
                let j = k.index_of(b.ratified[i]);
                assert(l[j] == k[j]);
            }
        }
    }
}

proof fn lemma_committee_same(a: GovernanceModel, b: GovernanceModel, id: GovActionId, e: EpochNo, min: u64, boot: bool)
    requires
        a.committee_threshold == b.committee_threshold,
        a.committee_expiration == b.committee_expiration,
        a.committee_hot_keys == b.committee_hot_keys,
        a.committee_resigned == b.committee_resigned,
        a.votes_by_action == b.votes_by_action,
    ensures
        committee_approves(a, id, e, min, boot) == committee_approves(b, id, e, min, boot),
{
    let votes = committee_votes(votes_on(a, id));
    assert(votes_on(a, id) == votes_on(b, id));
    let m = a.committee_expiration;
    lemma_sum_same(m, active_fn(a, e), active_fn(b, e));
    lemma_sum_same(m, member_yes_fn(a, e, votes), member_yes_fn(b, e, votes));
    lemma_sum_same(m, member_counted_fn(a, e, votes), member_counted_fn(b, e, votes));
}

proof fn lemma_of_priority(l: Seq<(GovActionId, ProposalModel)>, p: u8, x: (GovActionId, ProposalModel))
    ensures
        of_priority(l, p).contains(x) == (l.contains(x) && priority(x.1.procedure.gov_action) == p),
    decreases l.len(),
{
    if l.len() > 0 {
        let k = l.drop_last();
        lemma_of_priority(k, p, x);
        let (a, b) = (of_priority(k, p), of_priority(l, p));
        if k.contains(x) {
            let i = k.index_of(x);
            assert(l[i] == x);
        }
        if l.contains(x) {
            let i = l.index_of(x);
            if i < k.len() {
                assert(k[i] == x);
            }
        }
        assert(l.last() == l[l.len() - 1]);
        if a.contains(x) {
            let i = a.index_of(x);
            assert(b[i] == x);
        }
        if b.contains(x) {
            let i = b.index_of(x);
            if i < a.len() {
                assert(a[i] == x);
            }
        }
        if priority(l.last().1.procedure.gov_action) == p {
            assert(b[a.len() as int] == l.last());
        }
    }
}

proof fn lemma_ordered(l: Seq<(GovActionId, ProposalModel)>, p: u8, x: (GovActionId, ProposalModel))
    ensures
        ordered_below(l, p).contains(x) == (l.contains(x) && priority(x.1.procedure.gov_action) < p),
    decreases p,
{
    if p > 0 {
        let q = (p - 1) as u8;
        lemma_ordered(l, q, x);
        lemma_of_priority(l, q, x);
        let (a, b) = (ordered_below(l, q), of_priority(l, q));
        let c = ordered_below(l, p);
        if a.contains(x) {
            let i = a.index_of(x);
            assert(c[i] == x);
        }
        if b.contains(x) {
            let i = b.index_of(x);
            assert(c[a.len() + i] == x);
        }
        if c.contains(x) {
            let i = c.index_of(x);
            if i < a.len() {
                assert(a[i] == x);
            } else {
                assert(b[i - a.len()] == x);
            }
        }
    }
}

/// A round considers the open proposals, all of them and no others.
pub proof fn law_all_considered(s: LedgerModel, id: GovActionId, p: ProposalModel)
    requires
        s.governance.proposals.dom().finite(),
    ensures
        ratify_order(s).contains((id, p)) == (s.governance.proposals.dom().contains(id) && s.governance.proposals[id]
            == p),
{
    let m = s.governance.proposals;
    let l = listing::<GovActionId, ProposalModel>(m);
    lemma_listing::<GovActionId, ProposalModel>(m);
    lemma_ordered(l, 7, (id, p));
    law_order_of_kinds(p.procedure.gov_action, p.procedure.gov_action);
    if l.contains((id, p)) {
        let i = l.index_of((id, p));
        assert(l[i] == (id, p));
    }
    if m.dom().contains(id) && m[id] == p {
        let i = choose|i: int| #![trigger l[i]] 0 <= i < l.len() && l[i].0 == id;
        assert(m[l[i].0] == l[i].1);
        assert(l[i] == (id, p));
    }
}

proof fn lemma_without_actions<V>(m: Map<GovActionId, V>, l: Seq<(GovActionId, ProposalModel)>, id: GovActionId)
    ensures
        ({
            let t = without_actions(m, l);
            let listed = exists|i: int| #![trigger l[i]] 0 <= i < l.len() && l[i].0 == id;
            &&& t.dom().contains(id) == (m.dom().contains(id) && !listed)
            &&& t.dom().contains(id) ==> t[id] == m[id]
        }),
    decreases l.len(),
{
    if l.len() > 0 {
        let k = l.drop_last();
        lemma_without_actions(m, k, id);
        assert(l.last() == l[l.len() - 1]);
        if exists|i: int| #![trigger k[i]] 0 <= i < k.len() && k[i].0 == id {
            let i = choose|i: int| #![trigger k[i]] 0 <= i < k.len() && k[i].0 == id;
            assert(l[i] == k[i]);
        }
        if exists|i: int| #![trigger l[i]] 0 <= i < l.len() && l[i].0 == id {
            let i = choose|i: int| #![trigger l[i]] 0 <= i < l.len() && l[i].0 == id;
            if i < k.len() {
                assert(k[i] == l[i]);
            }
        }
    }
}

/// After ratification the ratified proposals and their votes are gone, all
/// others stay as they were, and what was ratified is on record.
pub proof fn law_ratified_close(s: LedgerModel, id: GovActionId)
    ensures
        ({
            let l = ratify_round(s).ratified;
            let (g, h) = (s.governance, after_ratification(s).governance);
            let listed = exists|i: int| #![trigger l[i]] 0 <= i < l.len() && l[i].0 == id;
            &&& h.proposals.dom().contains(id) == (g.proposals.dom().contains(id) && !listed)
            &&& h.proposals.dom().contains(id) ==> h.proposals[id] == g.proposals[id]
            &&& h.votes_by_action.dom().contains(id) == (g.votes_by_action.dom().contains(id) && !listed)
            &&& h.votes_by_action.dom().contains(id) ==> h.votes_by_action[id] == g.votes_by_action[id]
            &&& h.last_ratified == l
            &&& h.last_ratify_delayed == ratify_round(s).delayed
            &&& h.dreps == g.dreps && h.vote_delegations == g.vote_delegations && h.committee_hot_keys
                == g.committee_hot_keys && h.committee_expiration == g.committee_expiration
            &&& after_ratification(s) == (LedgerModel { governance: h, ..s })
        }),
{
    let r = ratify_round(s);
    law_ratified_have_votes(s, ratify_order(s), ratify_power(s).0, ratify_power(s).1);
    lemma_without_actions(s.governance.proposals, r.ratified, id);
    lemma_without_actions(s.governance.votes_by_action, r.ratified, id);
}

/// What is enacted of a ratified proposal: its action, and its deposit for its
/// return account.
pub proof fn law_enactments(l: Seq<(GovActionId, ProposalModel)>, i: int)
    requires
        0 <= i < l.len(),
    ensures
        enactments_of(l).len() == l.len(),
        enactments_of(l)[i].action_id == l[i].0,
        enactments_of(l)[i].gov_action == l[i].1.procedure.gov_action,
        enactments_of(l)[i].return_cred_hash == l[i].1.procedure.return_addr.hash(),
        enactments_of(l)[i].deposit == l[i].1.procedure.deposit,
{
}

// ---- power ----

/// A ledger in which one more credential delegates its vote.
pub open spec fn with_vote(s: LedgerModel, c: Hash32, d: DRep) -> LedgerModel {
    LedgerModel {
        governance: GovernanceModel { vote_delegations: s.governance.vote_delegations.insert(c, d), ..s.governance },
        ..s
    }
}

/// A voter weighs its unspent outputs, its rewards and the deposits of its open
/// proposals.
pub proof fn law_voter_weighs(s: LedgerModel, c: Hash32)
    requires
        s.stake_map.dom().contains(c),
        s.reward_accounts.dom().contains(c),
        s.deposits.dom().contains(c),
    ensures
        voter_stake(s, c) == s.stake_map[c].0 + s.reward_accounts[c].0 + gov_total(s.deposits[c].governance),
        voter_stake(LedgerModel { stake_map: s.stake_map.remove(c), ..s }, c) == s.reward_accounts[c].0 + gov_total(
            s.deposits[c].governance,
        ),
        voter_stake(LedgerModel { reward_accounts: s.reward_accounts.remove(c), ..s }, c) == s.stake_map[c].0
            + gov_total(s.deposits[c].governance),
        voter_stake(LedgerModel { deposits: s.deposits.remove(c), ..s }, c) == s.stake_map[c].0
            + s.reward_accounts[c].0,
{
}

/// A vote that is delegated to a representative adds what its voter weighs to
/// the power of that representative, and to no other. Only active
/// representatives have any.
pub proof fn law_power_grows(s: LedgerModel, c: Hash32, d: DRep, h: Hash32)
    requires
        s.governance.vote_delegations.dom().finite(),
        !s.governance.vote_delegations.dom().contains(c),
        map_sum(s.governance.vote_delegations, backing_fn(s, h)) + voter_stake(s, c) <= u64::MAX,
    ensures
        ({
            let t = with_vote(s, c, d);
            let to = d == DRep::KeyHash(h) || d == DRep::ScriptHash(h);
            let active = s.governance.dreps.dom().contains(h) && s.governance.dreps[h].active;
            let (a, b) = (live_power(s), live_power(t));
            let before = if a.dom().contains(h) { a[h] as nat } else { 0 };
            &&& !active ==> !b.dom().contains(h)
            &&& active && to ==> b.dom().contains(h) && b[h] == before + voter_stake(s, c)
            &&& !to ==> b.dom().contains(h) == a.dom().contains(h) && (a.dom().contains(h) ==> b[h] == a[h])
            &&& s.governance.vote_delegations == Map::<Hash32, DRep>::empty() ==> !a.dom().contains(h)
        }),
{
    let t = with_vote(s, c, d);
    let (m, n) = (s.governance.vote_delegations, t.governance.vote_delegations);
    let f = backing_fn(s, h);
    assert forall|k: Hash32| voter_stake(t, k) == #[trigger] voter_stake(s, k) by {}
    lemma_sum_same(n, backing_fn(t, h), f);
    lemma_sum_insert(m, f, c, d);
    let to = d == DRep::KeyHash(h) || d == DRep::ScriptHash(h);
    assert(to == (drep_hash(d) == Some(h)));
    if backed(m, h) {
        let k = choose|k: Hash32| #[trigger] m.dom().contains(k) && drep_hash(m[k]) == Some(h);
        assert(n.dom().contains(k) && n[k] == m[k]);
    } else {
        let zero = |k: Hash32, v: DRep| 0nat;
        assert forall|k: Hash32| #[trigger] m.dom().contains(k) implies f(k, m[k]) * 1nat <= 0nat * zero(k, m[k]) by {
            assert(0 * zero(k, m[k]) == 0) by (nonlinear_arith);
        }
        lemma_sum_scaled(m, f, zero, 1, 0);
        let z = map_sum(m, zero);
        assert(0 * z == 0) by (nonlinear_arith);
    }
    if backed(n, h) {
        let k = choose|k: Hash32| #[trigger] n.dom().contains(k) && drep_hash(n[k]) == Some(h);
        if k != c {
            assert(m.dom().contains(k));
        }
    }
    if to {
        assert(n.dom().contains(c) && drep_hash(n[c]) == Some(h));
    }
}

/// The two standing votes are counted apart from each other and from the
/// representatives.
pub proof fn law_standing_votes(s: LedgerModel, c: Hash32, d: DRep)
    requires
        s.governance.vote_delegations.dom().finite(),
        !s.governance.vote_delegations.dom().contains(c),
    ensures
        ({
            let t = with_vote(s, c, d);
            let x = voter_stake(s, c);
            &&& standing_power(t, DRep::AlwaysAbstain) == standing_power(s, DRep::AlwaysAbstain) + if d
                == DRep::AlwaysAbstain {
                x
            } else {
                0
            }
            &&& standing_power(t, DRep::AlwaysNoConfidence) == standing_power(s, DRep::AlwaysNoConfidence) + if d
                == DRep::AlwaysNoConfidence {
                x
            } else {
                0
            }
        }),
{
    let t = with_vote(s, c, d);
    let (m, n) = (s.governance.vote_delegations, t.governance.vote_delegations);
    assert forall|k: Hash32| voter_stake(t, k) == #[trigger] voter_stake(s, k) by {}
    lemma_sum_same(n, standing_fn(t, DRep::AlwaysAbstain), standing_fn(s, DRep::AlwaysAbstain));
    lemma_sum_same(n, standing_fn(t, DRep::AlwaysNoConfidence), standing_fn(s, DRep::AlwaysNoConfidence));
    lemma_sum_insert(m, standing_fn(s, DRep::AlwaysAbstain), c, d);
    lemma_sum_insert(m, standing_fn(s, DRep::AlwaysNoConfidence), c, d);
}

/// Votes are weighed by the snapshot of the last boundary where there is one,
/// and by the ledger as it is otherwise.
pub proof fn law_power_snapshot_first(s: LedgerModel)
    ensures
        ({
            let g = s.governance;
            let taken = g.drep_power_snapshot != Map::<Hash32, u64>::empty() || g.drep_no_confidence_snapshot != 0
                || g.drep_abstain_snapshot != 0;
            &&& taken ==> ratify_power(s).0 == g.drep_power_snapshot && ratify_power(s).1
                == g.drep_no_confidence_snapshot && ratify_power(s).2 == g.drep_abstain_snapshot
            &&& !taken ==> ratify_power(s).0 == live_power(s)
            &&& !taken && standing_power(s, DRep::AlwaysNoConfidence) <= u64::MAX ==> ratify_power(s).1
                == standing_power(s, DRep::AlwaysNoConfidence)
            &&& !taken && standing_power(s, DRep::AlwaysAbstain) <= u64::MAX ==> ratify_power(s).2 == standing_power(
                s,
                DRep::AlwaysAbstain,
            )
        }),
{
}

/// A vote takes part with its stake, unless it is delegated to a representative
/// that is not active.
pub proof fn law_stake_takes_part(s: LedgerModel, c: Hash32, d: DRep)
    requires
        s.governance.vote_delegations.dom().finite(),
        !s.governance.vote_delegations.dom().contains(c),
    ensures
        ({
            let t = with_vote(s, c, d);
            let asleep = match d {
                DRep::KeyHash(h) | DRep::ScriptHash(h) => !s.governance.dreps.dom().contains(h)
                    || !s.governance.dreps[h].active,
                _ => false,
            };
            map_sum(t.governance.vote_delegations, taking_part_fn(t)) == map_sum(
                s.governance.vote_delegations,
                taking_part_fn(s),
            ) + if asleep { 0 } else { stake_of(s.stake_map, s.reward_accounts, c) }
        }),
{
    let t = with_vote(s, c, d);
    let (m, n) = (s.governance.vote_delegations, t.governance.vote_delegations);
    lemma_sum_same(n, taking_part_fn(t), taking_part_fn(s));
    lemma_sum_insert(m, taking_part_fn(s), c, d);
}

/// The stake of a pool that is in the mark snapshot is the one that it has
/// there.
pub proof fn law_marked_stake(
    mark: SnapshotModel,
    delegations: Map<Hash32, Hash28>,
    stake_map: Map<Hash32, Lovelace>,
    accounts: Map<Hash32, Lovelace>,
    p: Hash28,
)
    ensures
        mark.pool_stake.dom().contains(p) ==> power_of_pool(Some(mark), delegations, stake_map, accounts, p)
            == mark.pool_stake[p].0,
        !mark.pool_stake.dom().contains(p) ==> power_of_pool(Some(mark), delegations, stake_map, accounts, p)
            == power_of_pool(None, delegations, stake_map, accounts, p),
{
}

/// Votes of the committee are counted one by one, those that say yes and all
/// that were cast.
pub proof fn law_committee_cast(votes: Seq<(Voter, VotingProcedure)>, x: (Voter, VotingProcedure))
    ensures
        committee_cast(Seq::empty()) == (0nat, 0nat),
        x.0 is ConstitutionalCommittee ==> committee_cast(votes.push(x)).1 == committee_cast(votes).1 + 1
            && committee_cast(votes.push(x)).0 == committee_cast(votes).0 + (if x.1.vote == Vote::Yes { 1nat } else { 0nat }),
        !(x.0 is ConstitutionalCommittee) ==> committee_cast(votes.push(x)) == committee_cast(votes),
{
    assert(votes.push(x).drop_last() =~= votes);
}

/// All delegated stake: each delegation adds what its credential has.
pub proof fn law_all_delegated(
    delegations: Map<Hash32, Hash28>,
    stake_map: Map<Hash32, Lovelace>,
    accounts: Map<Hash32, Lovelace>,
    c: Hash32,
    p: Hash28,
)
    requires
        delegations.dom().finite(),
        !delegations.dom().contains(c),
    ensures
        map_sum(delegations.insert(c, p), delegator_fn(stake_map, accounts)) == map_sum(
            delegations,
            delegator_fn(stake_map, accounts),
        ) + stake_of(stake_map, accounts, c),
{
    lemma_sum_insert(delegations, delegator_fn(stake_map, accounts), c, p);
}

/// What a ballot takes from the ledger: the votes on its action, the mark
/// snapshot, and what kind of action it is. The bootstrap is version nine.
pub proof fn law_ballot(s: LedgerModel, id: GovActionId, a: ActionModel)
    ensures
        ({
            let b = ballot(s, id, a);
            &&& b.votes == (if s.governance.votes_by_action.dom().contains(id) {
                s.governance.votes_by_action[id]
            } else {
                Seq::empty()
            })
            &&& b.mark == s.snapshots.mark
            &&& b.pools == s.pool_params
            &&& b.vote_delegations == s.governance.vote_delegations
            &&& b.delegations == s.delegations
            &&& b.stake_map == s.stake_map
            &&& b.accounts == s.reward_accounts
            &&& b.hard_fork == (a is HardForkInitiation)
            &&& b.no_confidence == (a is NoConfidence)
            &&& b.bootstrap == (s.protocol_params.protocol_version_major == 9)
        }),
{
}

/// Power is listed for the active representatives that some vote is delegated
/// to, and for no others.
pub proof fn law_power_listed(s: LedgerModel, c: Hash32, h: Hash32)
    ensures
        ({
            let (g, m) = (s.governance, s.governance.vote_delegations);
            let active = g.dreps.dom().contains(h) && g.dreps[h].active;
            let named = m.dom().contains(c) && (m[c] == DRep::KeyHash(h) || m[c] == DRep::ScriptHash(h));
            &&& active && named ==> live_power(s).dom().contains(h)
            &&& live_power(s).dom().contains(h) ==> active && exists|k: Hash32|
                #![trigger m.dom().contains(k)]
                m.dom().contains(k) && (m[k] == DRep::KeyHash(h) || m[k] == DRep::ScriptHash(h))
        }),
{
    let m = s.governance.vote_delegations;
    if m.dom().contains(c) && (m[c] == DRep::KeyHash(h) || m[c] == DRep::ScriptHash(h)) {
        assert(drep_hash(m[c]) == Some(h));
        assert(backed(m, h));
    }
}

} // verus!
