//! Proposals, votes, DRep power and ratification at the epoch boundary.

use vstd::prelude::*;
use crate::item::Item;
use crate::ledger::certificates::drep_hash;
use crate::ledger::governance::{
    all_groups_met, ballot, bootstrap, check_cc_approval, check_threshold, committee_approves, delaying, drep_counted,
    drep_yes, gov_action_priority, is_delaying_action, pp_change_drep_all_groups_met, pp_change_spo_threshold,
    prev_action_as_expected, prev_ok, priority, proposed, spo_counted, spo_yes, stake_of, threshold_met,
    touches_security, voted, votes_fit, votes_on,
};
use crate::ledger::primitives::{
    ActionModel, DRep, EpochNo, GovActionId, GovernanceAction, Hash32, ProposalProcedure, Rational, Voter,
    VotingProcedure,
};
use crate::ledger::state::{
    at_least_one, credential_to_hash, deposits_of, enactment_models, gov_total, ratified_models, EnactmentModel,
    GovernanceModel, LedgerModel, LedgerState, PendingEnactment, ProposalModel, ProposalState,
};
use crate::sums::{lemma_pairs_map, lemma_seq_sum_prefix, lemma_seq_sum_step, map_sum, seq_sum};
use crate::table::{listing, Table};

verus! {

// ---- DRep power ----

/// What a credential weighs as a voter: unspent outputs, rewards, and the
/// deposits of its open proposals.
pub open spec fn voter_stake(s: LedgerModel, c: Hash32) -> nat {
    stake_of(s.stake_map, s.reward_accounts, c) + gov_total(deposits_of(s.deposits, c).governance)
}

pub open spec fn active_drep(g: GovernanceModel, h: Hash32) -> bool {
    g.dreps.dom().contains(h) && g.dreps[h].active
}

/// Stake that a delegation brings to a DRep.
pub open spec fn backing_fn(s: LedgerModel, h: Hash32) -> spec_fn(Hash32, DRep) -> nat {
    |c: Hash32, d: DRep| if drep_hash(d) == Some(h) { voter_stake(s, c) } else { 0 }
}

/// Stake that a delegation brings to one of the two standing votes.
pub open spec fn standing_fn(s: LedgerModel, vote: DRep) -> spec_fn(Hash32, DRep) -> nat {
    |c: Hash32, d: DRep| if d == vote { voter_stake(s, c) } else { 0 }
}

/// Whether some credential delegates to a DRep.
pub open spec fn backed(m: Map<Hash32, DRep>, h: Hash32) -> bool {
    exists|c: Hash32| #[trigger] m.dom().contains(c) && drep_hash(m[c]) == Some(h)
}

/// Stake behind each active DRep that anyone delegates to.
pub open spec fn live_power(s: LedgerModel) -> Map<Hash32, u64> {
    let g = s.governance;
    Map::new(
        |h: Hash32| active_drep(g, h) && backed(g.vote_delegations, h),
        |h: Hash32| map_sum(g.vote_delegations, backing_fn(s, h)) as u64,
    )
}

pub open spec fn standing_power(s: LedgerModel, vote: DRep) -> nat {
    map_sum(s.governance.vote_delegations, standing_fn(s, vote))
}

/// The stake that delegates its vote can be counted in `u64`.
pub open spec fn power_fits(s: LedgerModel) -> bool {
    let g = s.governance;
    &&& forall|c: Hash32| #[trigger] g.vote_delegations.dom().contains(c) ==> voter_stake(s, c) <= u64::MAX
    &&& forall|h: Hash32| #[trigger]
        active_drep(g, h) ==> map_sum(g.vote_delegations, backing_fn(s, h)) <= u64::MAX
    &&& standing_power(s, DRep::AlwaysNoConfidence) <= u64::MAX
    &&& standing_power(s, DRep::AlwaysAbstain) <= u64::MAX
}

/// Whether a power snapshot was taken at an earlier boundary.
pub open spec fn has_power_snapshot(g: GovernanceModel) -> bool {
    g.drep_power_snapshot != Map::<Hash32, u64>::empty() || g.drep_no_confidence_snapshot > 0
        || g.drep_abstain_snapshot > 0
}

/// DRep power for ratification, stake of standing no-confidence votes and of
/// standing abstentions: of the last snapshot, or else live.
pub open spec fn ratify_power(s: LedgerModel) -> (Map<Hash32, u64>, u64, u64) {
    let g = s.governance;
    if has_power_snapshot(g) {
        (g.drep_power_snapshot, g.drep_no_confidence_snapshot, g.drep_abstain_snapshot)
    } else {
        (
            live_power(s),
            standing_power(s, DRep::AlwaysNoConfidence) as u64,
            standing_power(s, DRep::AlwaysAbstain) as u64,
        )
    }
}

/// Stake that takes part in DRep voting: all delegated votes but those of
/// inactive DReps.
pub open spec fn taking_part_fn(s: LedgerModel) -> spec_fn(Hash32, DRep) -> nat {
    |c: Hash32, d: DRep|
        if drep_hash(d) is None || active_drep(s.governance, drep_hash(d)->0) {
            stake_of(s.stake_map, s.reward_accounts, c)
        } else {
            0
        }
}

spec fn prefix_backed(e: Seq<(Hash32, DRep)>, h: Hash32) -> bool {
    exists|j: int| #![trigger e[j]] 0 <= j < e.len() && drep_hash(e[j].1) == Some(h)
}

spec fn power_or_zero(m: Map<Hash32, u64>, h: Hash32) -> nat {
    if m.dom().contains(h) {
        m[h] as nat
    } else {
        0
    }
}

proof fn lemma_prefix_backed(e: Seq<(Hash32, DRep)>, i: int, h: Hash32)
    requires
        0 <= i < e.len(),
    ensures
        prefix_backed(e.take(i + 1), h) == (prefix_backed(e.take(i), h) || drep_hash(e[i].1) == Some(h)),
{
    let a = e.take(i);
    let b = e.take(i + 1);
    assert(b[i] == e[i]);
    if prefix_backed(b, h) {
        let j = choose|j: int| #![trigger b[j]] 0 <= j < b.len() && drep_hash(b[j].1) == Some(h);
        if j < i {
            assert(a[j] == b[j]);
        }
    }
    if prefix_backed(a, h) {
        let j = choose|j: int| #![trigger a[j]] 0 <= j < a.len() && drep_hash(a[j].1) == Some(h);
        assert(b[j] == a[j]);
    }
}

impl LedgerState {
    /// Unspent outputs, rewards and governance deposits of a credential.
    pub fn credential_drep_stake(&self, cred_hash: &Hash32) -> (r: u64)
        requires
            voter_stake(self@, *cred_hash) <= u64::MAX,
        ensures
            r == voter_stake(self@, *cred_hash),
    {
        self.credential_stake(cred_hash) + self.deposit_tracker.governance_deposits_by_return_cred(cred_hash)
    }

    fn drep_is_active(&self, h: &Hash32) -> (r: bool)
        ensures
            r == active_drep(self@.governance, *h),
    {
        match self.governance.dreps.get(h) {
            Some(d) => d.active,
            None => false,
        }
    }

    /// Stake behind each active DRep, and behind the two standing votes, as
    /// it is now. There is nothing where a sum does not fit `u64`.
    pub(crate) fn checked_drep_distribution(&self) -> (r: Option<(Table<Hash32, u64>, u64, u64)>)
        ensures
            match r {
                Some(x) => {
                    &&& power_fits(self@)
                    &&& x.0@ == live_power(self@)
                    &&& x.1 == standing_power(self@, DRep::AlwaysNoConfidence)
                    &&& x.2 == standing_power(self@, DRep::AlwaysAbstain)
                },
                None => !power_fits(self@),
            },
    {
        let ghost s = self@;
        let ghost g = s.governance;
        let ghost nf = standing_fn(s, DRep::AlwaysNoConfidence);
        let ghost af = standing_fn(s, DRep::AlwaysAbstain);
        let ghost e = self.governance.vote_delegations.entries();
        let n: usize = self.governance.vote_delegations.len();
        proof {
            self.governance.vote_delegations.lemma_entries();
            self.governance.vote_delegations.lemma_sum(nf);
            self.governance.vote_delegations.lemma_sum(af);
            assert forall|h: Hash32| #[trigger] active_drep(g, h) implies seq_sum(e, backing_fn(s, h)) == map_sum(
                g.vote_delegations,
                backing_fn(s, h),
            ) by {
                self.governance.vote_delegations.lemma_sum(backing_fn(s, h));
            }
        }
        let mut cache: Table<Hash32, u64> = Table::new();
        let mut no_confidence: u64 = 0;
        let mut abstain: u64 = 0;
        let mut i: usize = 0;
        while i < n
            invariant
                i <= n,
                n == e.len(),
                s == self@,
                g == s.governance,
                e == self.governance.vote_delegations.entries(),
                nf == standing_fn(s, DRep::AlwaysNoConfidence),
                af == standing_fn(s, DRep::AlwaysAbstain),
                seq_sum(e, nf) == standing_power(s, DRep::AlwaysNoConfidence),
                seq_sum(e, af) == standing_power(s, DRep::AlwaysAbstain),
                forall|h: Hash32| #[trigger]
                    active_drep(g, h) ==> seq_sum(e, backing_fn(s, h)) == map_sum(
                        g.vote_delegations,
                        backing_fn(s, h),
                    ),
                forall|j: int| 0 <= j < i ==> voter_stake(s, (#[trigger] e[j]).0) <= u64::MAX,
                no_confidence == seq_sum(e.take(i as int), nf),
                abstain == seq_sum(e.take(i as int), af),
                forall|h: Hash32|
                    #![trigger cache@.dom().contains(h)]
                    cache@.dom().contains(h) == (active_drep(g, h) && prefix_backed(e.take(i as int), h)),
                forall|h: Hash32| #[trigger]
                    active_drep(g, h) ==> power_or_zero(cache@, h) == seq_sum(e.take(i as int), backing_fn(s, h)),
            decreases n - i,
        {
            let ghost before = cache@;
            let cred: &Hash32 = self.governance.vote_delegations.key_at(i);
            let drep: &DRep = self.governance.vote_delegations.value_at(i);
            assert(g.vote_delegations.dom().contains(*cred));
            let stake: u64 = match self.checked_voter_stake(cred) {
                Some(x) => x,
                None => {
                    return None;
                },
            };
            proof {
                lemma_seq_sum_step(e, nf, i as int);
                lemma_seq_sum_prefix(e, nf, i + 1);
                lemma_seq_sum_step(e, af, i as int);
                lemma_seq_sum_prefix(e, af, i + 1);
                assert forall|h: Hash32| #[trigger] active_drep(g, h) implies seq_sum(
                    e.take(i + 1),
                    backing_fn(s, h),
                ) == seq_sum(e.take(i as int), backing_fn(s, h)) + (if drep_hash(*drep) == Some(h) {
                    stake as nat
                } else {
                    0
                }) && seq_sum(e.take(i + 1), backing_fn(s, h)) <= map_sum(g.vote_delegations, backing_fn(s, h)) by {
                    lemma_seq_sum_step(e, backing_fn(s, h), i as int);
                    lemma_seq_sum_prefix(e, backing_fn(s, h), i + 1);
                }
                assert forall|h: Hash32| #[trigger]
                    prefix_backed(e.take(i + 1), h) == (prefix_backed(e.take(i as int), h) || drep_hash(*drep) == Some(
                        h,
                    )) by {
                    lemma_prefix_backed(e, i as int, h);
                }
            }
            match drep {
                DRep::KeyHash(h) => {
                    if self.drep_is_active(h) && !Self::add_power(&mut cache, h, stake) {
                        return None;
                    }
                },
                DRep::ScriptHash(h) => {
                    if self.drep_is_active(h) && !Self::add_power(&mut cache, h, stake) {
                        return None;
                    }
                },
                DRep::AlwaysNoConfidence => match no_confidence.checked_add(stake) {
                    Some(x) => {
                        no_confidence = x;
                    },
                    None => {
                        return None;
                    },
                },
                DRep::AlwaysAbstain => match abstain.checked_add(stake) {
                    Some(x) => {
                        abstain = x;
                    },
                    None => {
                        return None;
                    },
                },
            }
            i += 1;
        }
        proof {
            assert(e.take(i as int) =~= e);
            self.governance.vote_delegations.lemma_entries();
            lemma_pairs_map(e);
            let m = g.vote_delegations;
            assert forall|c: Hash32| #[trigger] m.dom().contains(c) implies voter_stake(s, c) <= u64::MAX by {
                let j = choose|j: int| #![trigger e[j]] 0 <= j < e.len() && e[j].0 == c;
                assert(voter_stake(s, e[j].0) <= u64::MAX);
            }
            assert forall|h: Hash32| #[trigger] active_drep(g, h) implies map_sum(m, backing_fn(s, h))
                <= u64::MAX by {
                assert(power_or_zero(cache@, h) == seq_sum(e, backing_fn(s, h)));
            }
            assert(power_fits(s));
            assert forall|h: Hash32| prefix_backed(e, h) == #[trigger] backed(m, h) by {
                if prefix_backed(e, h) {
                    let j = choose|j: int| #![trigger e[j]] 0 <= j < e.len() && drep_hash(e[j].1) == Some(h);
                    assert(m.dom().contains(e[j].0));
                }
                if backed(m, h) {
                    let c = choose|c: Hash32| #[trigger] m.dom().contains(c) && drep_hash(m[c]) == Some(h);
                    let j = choose|j: int| #![trigger e[j]] 0 <= j < e.len() && e[j].0 == c;
                    assert(m[e[j].0] == e[j].1);
                }
            }
            assert forall|h: Hash32| #[trigger] cache@.dom().contains(h) implies cache@[h] == map_sum(
                m,
                backing_fn(s, h),
            ) by {
                assert(active_drep(g, h));
            }
            assert(cache@ =~= live_power(s));
        }
        Some((cache, no_confidence, abstain))
    }

    /// Stake behind each active DRep, and behind the two standing votes, as
    /// it is now.
    pub fn compute_drep_distribution_for_snapshot(&self) -> (r: (Table<Hash32, u64>, u64, u64))
        requires
            power_fits(self@),
        ensures
            r.0@ == live_power(self@),
            r.1 == standing_power(self@, DRep::AlwaysNoConfidence),
            r.2 == standing_power(self@, DRep::AlwaysAbstain),
    {
        let r = self.checked_drep_distribution();
        assert(r is Some);
        r.unwrap()
    }

    fn add_power(cache: &mut Table<Hash32, u64>, h: &Hash32, stake: u64) -> (done: bool)
        ensures
            done == (power_or_zero(old(cache)@, *h) + stake <= u64::MAX),
            done ==> final(cache)@ == old(cache)@.insert(*h, (power_or_zero(old(cache)@, *h) + stake) as u64),
    {
        let before: u64 = match cache.get(h) {
            Some(p) => *p,
            None => 0,
        };
        match before.checked_add(stake) {
            Some(x) => {
                cache.insert(*h, x);
                true
            },
            None => false,
        }
    }

    /// DRep power for ratification: the snapshot of the previous boundary, or
    /// the live distribution where none was taken yet.
    pub fn build_drep_power_cache(&self) -> (r: (Table<Hash32, u64>, u64, u64))
        requires
            has_power_snapshot(self@.governance) || power_fits(self@),
        ensures
            (r.0@, r.1, r.2) == ratify_power(self@),
    {
        let no_confidence: u64 = self.governance.drep_no_confidence_snapshot;
        let abstain: u64 = self.governance.drep_abstain_snapshot;
        if !self.governance.drep_power_snapshot.is_empty() || no_confidence > 0 || abstain > 0 {
            let power = self.governance.drep_power_snapshot.dup();
            assert(power@ == self.governance.drep_power_snapshot@);
            return (power, no_confidence, abstain);
        }
        self.compute_drep_distribution_for_snapshot()
    }

    /// Stake that takes part in DRep voting, at least one. The stake of
    /// inactive DReps does not.
    pub fn compute_total_drep_stake(&self) -> (r: u64)
        requires
            forall|c: Hash32| #[trigger]
                self@.governance.vote_delegations.dom().contains(c) ==> stake_of(
                    self@.stake_map,
                    self@.reward_accounts,
                    c,
                ) <= u64::MAX,
            map_sum(self@.governance.vote_delegations, taking_part_fn(self@)) <= u64::MAX,
        ensures
            r == at_least_one(map_sum(self@.governance.vote_delegations, taking_part_fn(self@)) as u64),
    {
        let ghost s = self@;
        let ghost f = taking_part_fn(s);
        let ghost e = self.governance.vote_delegations.entries();
        let n: usize = self.governance.vote_delegations.len();
        proof {
            self.governance.vote_delegations.lemma_sum(f);
        }
        let mut total: u64 = 0;
        let mut i: usize = 0;
        while i < n
            invariant
                i <= n,
                n == e.len(),
                s == self@,
                f == taking_part_fn(s),
                e == self.governance.vote_delegations.entries(),
                seq_sum(e, f) <= u64::MAX,
                forall|c: Hash32| #[trigger]
                    s.governance.vote_delegations.dom().contains(c) ==> stake_of(s.stake_map, s.reward_accounts, c)
                        <= u64::MAX,
                total == seq_sum(e.take(i as int), f),
            decreases n - i,
        {
            proof {
                lemma_seq_sum_step(e, f, i as int);
                lemma_seq_sum_prefix(e, f, i + 1);
            }
            let cred: &Hash32 = self.governance.vote_delegations.key_at(i);
            assert(s.governance.vote_delegations.dom().contains(*cred));
            let stake: u64 = self.credential_stake(cred);
            let counts: bool = match self.governance.vote_delegations.value_at(i) {
                DRep::AlwaysAbstain => true,
                DRep::AlwaysNoConfidence => true,
                DRep::KeyHash(h) => self.drep_is_active(h),
                DRep::ScriptHash(h) => self.drep_is_active(h),
            };
            if counts {
                total += stake;
            }
            i += 1;
        }
        assert(e.take(i as int) =~= e);
        if total == 0 {
            1
        } else {
            total
        }
    }

    // ---- proposals and votes ----

    /// Takes in a proposal, which expires after the lifetime of governance
    /// actions. It must follow on the last enacted action of its purpose.
    pub fn process_proposal(&mut self, action_id: &GovActionId, procedure: &ProposalProcedure) -> (r: Result<(), String>)
        ensures
            match r {
                Ok(_) => prev_ok(procedure.gov_action.model(), old(self)@.governance) && final(self)@ == proposed(
                    old(self)@,
                    *action_id,
                    procedure.model(),
                ),
                Err(e) => !prev_ok(procedure.gov_action.model(), old(self)@.governance) && final(self)@ == old(self)@
                    && e@ == "Invalid prev_action_id chain"@,
            },
    {
        let ghost start = self@;
        if !prev_action_as_expected(&procedure.gov_action, &self.governance) {
            return Err("Invalid prev_action_id chain".to_string());
        }
        let state = ProposalState {
            procedure: procedure.dup(),
            proposed_epoch: self.epoch,
            expires_epoch: EpochNo(self.epoch.0.saturating_add(self.protocol_params.gov_action_lifetime)),
            yes_votes: 0,
            no_votes: 0,
            abstain_votes: 0,
        };
        self.governance.proposals.insert(*action_id, state);
        self.governance.proposal_count = self.governance.proposal_count.saturating_add(1);
        assert(self@ =~= proposed(start, *action_id, procedure.model()));
        Ok(())
    }

    /// Takes in a vote. Votes on proposals that are not open are ignored.
    pub fn process_vote(&mut self, voter: &Voter, action_id: &GovActionId, procedure: &VotingProcedure)
        ensures
            final(self)@ == voted(old(self)@, *voter, *action_id, *procedure),
    {
        let ghost start = self@;
        if !self.governance.proposals.contains_key(action_id) {
            return;
        }
        if let Voter::DRep(cred) = voter {
            let h = credential_to_hash(cred);
            if let Some(mut drep) = self.governance.dreps.remove(&h) {
                drep.last_active_epoch = self.epoch;
                drep.active = true;
                self.governance.dreps.insert(h, drep);
            }
        }
        let mut votes: Vec<(Voter, VotingProcedure)> = match self.governance.votes_by_action.remove(action_id) {
            Some(v) => v,
            None => Vec::new(),
        };
        let pair: (Voter, VotingProcedure) = (*voter, procedure.dup());
        votes.push(pair);
        assert(votes@ =~= votes_on(start.governance, *action_id).push((*voter, *procedure)));
        self.governance.votes_by_action.insert(*action_id, votes);
        assert(self@ =~= voted(start, *voter, *action_id, *procedure));
    }
}

// ---- ratification ----

/// Whether a proposal has the votes it needs. All DRep thresholds are zero
/// during bootstrap; an info action never passes.
pub open spec fn accepted(s: LedgerModel, id: GovActionId, a: ActionModel, power: Map<Hash32, u64>, nc: u64) -> bool {
    let p = s.protocol_params;
    let b = ballot(s, id, a);
    let boot = bootstrap(s);
    let dreps = |t: Rational| boot || threshold_met(drep_yes(b, power, nc), drep_counted(b, power, nc), t);
    let pools = |t: Rational| threshold_met(spo_yes(b), spo_counted(b), t);
    let committee = committee_approves(s.governance, id, s.epoch, p.committee_min_size, boot);
    match a {
        ActionModel::InfoAction => false,
        ActionModel::ParameterChange { update, .. } => {
            &&& boot || all_groups_met(update, p, drep_yes(b, power, nc), drep_counted(b, power, nc))
            &&& touches_security(update) ==> pools(p.pvt_pp_security_group)
            &&& committee
        },
        ActionModel::HardForkInitiation { .. } => dreps(p.dvt_hard_fork) && pools(p.pvt_hard_fork) && committee,
        ActionModel::NoConfidence { .. } => dreps(p.dvt_no_confidence) && pools(p.pvt_motion_no_confidence),
        ActionModel::UpdateCommittee { .. } => if s.governance.no_confidence {
            dreps(p.dvt_committee_no_confidence) && pools(p.pvt_committee_no_confidence)
        } else {
            dreps(p.dvt_committee_normal) && pools(p.pvt_committee_normal)
        },
        ActionModel::NewConstitution { .. } => dreps(p.dvt_constitution) && committee,
        ActionModel::TreasuryWithdrawals { .. } => dreps(p.dvt_treasury_withdrawal) && committee,
    }
}

/// The proposals of one priority, in their order.
pub open spec fn of_priority(l: Seq<(GovActionId, ProposalModel)>, p: u8) -> Seq<(GovActionId, ProposalModel)>
    decreases l.len(),
{
    if l.len() == 0 {
        Seq::empty()
    } else if priority(l.last().1.procedure.gov_action) == p {
        of_priority(l.drop_last(), p).push(l.last())
    } else {
        of_priority(l.drop_last(), p)
    }
}

/// The proposals with priorities below `p`, in order of priority, then of
/// their ids.
pub open spec fn ordered_below(l: Seq<(GovActionId, ProposalModel)>, p: u8) -> Seq<(GovActionId, ProposalModel)>
    decreases p,
{
    if p == 0 {
        Seq::empty()
    } else {
        ordered_below(l, (p - 1) as u8) + of_priority(l, (p - 1) as u8)
    }
}

/// The order in which proposals are considered.
pub open spec fn ratify_order(s: LedgerModel) -> Seq<(GovActionId, ProposalModel)> {
    ordered_below(listing::<GovActionId, ProposalModel>(s.governance.proposals), 7)
}

/// The ledger with an action as the last enacted one of its purpose.
pub open spec fn rooted(s: LedgerModel, id: GovActionId, a: ActionModel) -> LedgerModel {
    let g = s.governance;
    LedgerModel {
        governance: match a {
            ActionModel::ParameterChange { .. } => GovernanceModel { enacted_pparam_update: Some(id), ..g },
            ActionModel::HardForkInitiation { .. } => GovernanceModel { enacted_hard_fork: Some(id), ..g },
            ActionModel::NoConfidence { .. } => GovernanceModel { enacted_committee: Some(id), ..g },
            ActionModel::UpdateCommittee { .. } => GovernanceModel { enacted_committee: Some(id), ..g },
            ActionModel::NewConstitution { .. } => GovernanceModel { enacted_constitution: Some(id), ..g },
            ActionModel::TreasuryWithdrawals { .. } => g,
            ActionModel::InfoAction => g,
        },
        ..s
    }
}

/// A ratification round under way.
pub struct RoundModel {
    pub state: LedgerModel,
    pub ratified: Seq<(GovActionId, ProposalModel)>,
    pub delayed: bool,
}

/// One proposal is considered: it is ratified if it has the votes and follows
/// on what was enacted, and no delaying action was ratified before it.
pub open spec fn considered(r: RoundModel, e: (GovActionId, ProposalModel), power: Map<Hash32, u64>, nc: u64) -> RoundModel {
    let a = e.1.procedure.gov_action;
    if !r.delayed && accepted(r.state, e.0, a, power, nc) && prev_ok(a, r.state.governance) {
        RoundModel { state: rooted(r.state, e.0, a), ratified: r.ratified.push(e), delayed: delaying(a) }
    } else {
        r
    }
}

pub open spec fn round(s: LedgerModel, l: Seq<(GovActionId, ProposalModel)>, power: Map<Hash32, u64>, nc: u64) -> RoundModel
    decreases l.len(),
{
    if l.len() == 0 {
        RoundModel { state: s, ratified: Seq::empty(), delayed: false }
    } else {
        considered(round(s, l.drop_last(), power, nc), l.last(), power, nc)
    }
}

pub open spec fn ratify_round(s: LedgerModel) -> RoundModel {
    round(s, ratify_order(s), ratify_power(s).0, ratify_power(s).1)
}

/// A map without the listed actions.
pub open spec fn without_actions<V>(m: Map<GovActionId, V>, l: Seq<(GovActionId, ProposalModel)>) -> Map<GovActionId, V>
    decreases l.len(),
{
    if l.len() == 0 {
        m
    } else {
        without_actions(m, l.drop_last()).remove(l.last().0)
    }
}

/// The ledger after ratification: ratified proposals are no longer open, and
/// they are the last enacted ones of their purposes.
pub open spec fn after_ratification(s: LedgerModel) -> LedgerModel {
    let r = ratify_round(s);
    let g = r.state.governance;
    LedgerModel {
        governance: GovernanceModel {
            proposals: without_actions(g.proposals, r.ratified),
            votes_by_action: without_actions(g.votes_by_action, r.ratified),
            last_ratified: r.ratified,
            last_ratify_delayed: r.delayed,
            ..g
        },
        ..r.state
    }
}

pub open spec fn enactment_of(e: (GovActionId, ProposalModel)) -> EnactmentModel {
    EnactmentModel {
        action_id: e.0,
        gov_action: e.1.procedure.gov_action,
        return_cred_hash: e.1.procedure.return_addr.hash(),
        deposit: e.1.procedure.deposit,
    }
}

/// What ratified proposals ask to be enacted.
pub open spec fn enactments_of(l: Seq<(GovActionId, ProposalModel)>) -> Seq<EnactmentModel> {
    Seq::new(l.len(), |i: int| enactment_of(l[i]))
}

/// The votes on all open proposals can be counted in `u64`.
pub open spec fn ratify_fits(s: LedgerModel) -> bool {
    &&& has_power_snapshot(s.governance) || power_fits(s)
    &&& forall|id: GovActionId| #[trigger]
        s.governance.proposals.dom().contains(id) ==> votes_fit(
            ballot(s, id, s.governance.proposals[id].procedure.gov_action),
            ratify_power(s).0,
            ratify_power(s).1,
        )
}

/// What a round leaves as it was.
spec fn only_roots(s: LedgerModel, t: LedgerModel) -> bool {
    t == (LedgerModel {
        governance: GovernanceModel {
            enacted_pparam_update: t.governance.enacted_pparam_update,
            enacted_hard_fork: t.governance.enacted_hard_fork,
            enacted_committee: t.governance.enacted_committee,
            enacted_constitution: t.governance.enacted_constitution,
            ..s.governance
        },
        ..s
    })
}

spec fn all_open(s: LedgerModel, l: Seq<(GovActionId, ProposalModel)>) -> bool {
    forall|i: int|
        #![trigger l[i]]
        0 <= i < l.len() ==> s.governance.proposals.dom().contains(l[i].0) && s.governance.proposals[l[i].0] == l[i].1
}

proof fn lemma_of_priority_from(l: Seq<(GovActionId, ProposalModel)>, p: u8)
    ensures
        forall|i: int|
            #![trigger of_priority(l, p)[i]]
            0 <= i < of_priority(l, p).len() ==> l.contains(of_priority(l, p)[i]),
    decreases l.len(),
{
    if l.len() > 0 {
        let t = l.drop_last();
        lemma_of_priority_from(t, p);
        assert forall|i: int|
            #![trigger of_priority(l, p)[i]]
            0 <= i < of_priority(l, p).len() implies l.contains(of_priority(l, p)[i]) by {
            if i < of_priority(t, p).len() {
                assert(of_priority(l, p)[i] == of_priority(t, p)[i]);
                assert(t.contains(of_priority(t, p)[i]));
                let j = t.index_of(of_priority(t, p)[i]);
                assert(l[j] == t[j]);
            } else {
                assert(l[l.len() - 1] == l.last());
            }
        }
    }
}

fn pick_proposals(table: &Table<GovActionId, ProposalState>, p: u8, out: &mut Vec<(GovActionId, ProposalState)>)
    ensures
        ratified_models(final(out)@) == ratified_models(old(out)@) + of_priority(table.entries(), p),
{
    let ghost before = ratified_models(out@);
    let ghost l = table.entries();
    let n: usize = table.len();
    assert(before + of_priority(l.take(0), p) =~= before);
    let mut i: usize = 0;
    while i < n
        invariant
            i <= n,
            n == l.len(),
            l == table.entries(),
            ratified_models(out@) == before + of_priority(l.take(i as int), p),
        decreases n - i,
    {
        assert(l.take(i + 1).drop_last() =~= l.take(i as int));
        let state: &ProposalState = table.value_at(i);
        if gov_action_priority(&state.procedure.gov_action) == p {
            let ghost o = out@;
            let entry: (GovActionId, ProposalState) = (*table.key_at(i), state.dup());
            out.push(entry);
            assert(ratified_models(out@) =~= ratified_models(o).push((entry.0, entry.1.model())));
            assert(ratified_models(out@) =~= before + of_priority(l.take(i + 1), p));
        }
        i += 1;
    }
    assert(l.take(i as int) =~= l);
}

impl LedgerState {
    /// Makes an action the last enacted one of its purpose.
    fn update_enacted_roots(&mut self, action_id: &GovActionId, action: &GovernanceAction)
        ensures
            final(self)@ == rooted(old(self)@, *action_id, action.model()),
    {
        let ghost start = self@;
        match action {
            GovernanceAction::ParameterChange { .. } => {
                self.governance.enacted_pparam_update = Some(*action_id);
            },
            GovernanceAction::HardForkInitiation { .. } => {
                self.governance.enacted_hard_fork = Some(*action_id);
            },
            GovernanceAction::NoConfidence { .. } => {
                self.governance.enacted_committee = Some(*action_id);
            },
            GovernanceAction::UpdateCommittee { .. } => {
                self.governance.enacted_committee = Some(*action_id);
            },
            GovernanceAction::NewConstitution { .. } => {
                self.governance.enacted_constitution = Some(*action_id);
            },
            GovernanceAction::TreasuryWithdrawals { .. } => {},
            GovernanceAction::InfoAction => {},
        }
        assert(self@ =~= rooted(start, *action_id, action.model()));
    }

    /// Whether a proposal has the votes it needs.
    pub fn check_ratification(
        &self,
        action_id: &GovActionId,
        state: &ProposalState,
        drep_power_cache: &Table<Hash32, u64>,
        no_confidence_stake: u64,
    ) -> (r: bool)
        requires
            votes_fit(
                ballot(self@, *action_id, state.procedure.gov_action.model()),
                drep_power_cache@,
                no_confidence_stake,
            ),
        ensures
            r == accepted(
                self@,
                *action_id,
                state.procedure.gov_action.model(),
                drep_power_cache@,
                no_confidence_stake,
            ),
    {
        let action = &state.procedure.gov_action;
        let (drep_yes, drep_total, spo_yes, spo_total, _cc_yes, _cc_total) = self.count_votes_by_type(
            action_id,
            action,
            drep_power_cache,
            no_confidence_stake,
        );
        let boot: bool = self.is_bootstrap_phase();
        let committee: bool = check_cc_approval(
            action_id,
            &self.governance,
            self.epoch,
            self.protocol_params.committee_min_size,
            boot,
        );
        let p = &self.protocol_params;
        match action {
            GovernanceAction::InfoAction => false,
            GovernanceAction::ParameterChange { update, .. } => {
                let dreps: bool = boot || pp_change_drep_all_groups_met(update, p, drep_yes, drep_total);
                let pools: bool = match pp_change_spo_threshold(update, p) {
                    Some(t) => check_threshold(spo_yes, spo_total, &t),
                    None => true,
                };
                dreps && pools && committee
            },
            GovernanceAction::HardForkInitiation { .. } => {
                (boot || check_threshold(drep_yes, drep_total, &p.dvt_hard_fork)) && check_threshold(
                    spo_yes,
                    spo_total,
                    &p.pvt_hard_fork,
                ) && committee
            },
            GovernanceAction::NoConfidence { .. } => {
                (boot || check_threshold(drep_yes, drep_total, &p.dvt_no_confidence)) && check_threshold(
                    spo_yes,
                    spo_total,
                    &p.pvt_motion_no_confidence,
                )
            },
            GovernanceAction::UpdateCommittee { .. } => {
                if self.governance.no_confidence {
                    (boot || check_threshold(drep_yes, drep_total, &p.dvt_committee_no_confidence))
                        && check_threshold(spo_yes, spo_total, &p.pvt_committee_no_confidence)
                } else {
                    (boot || check_threshold(drep_yes, drep_total, &p.dvt_committee_normal)) && check_threshold(
                        spo_yes,
                        spo_total,
                        &p.pvt_committee_normal,
                    )
                }
            },
            GovernanceAction::NewConstitution { .. } => {
                (boot || check_threshold(drep_yes, drep_total, &p.dvt_constitution)) && committee
            },
            GovernanceAction::TreasuryWithdrawals { .. } => {
                (boot || check_threshold(drep_yes, drep_total, &p.dvt_treasury_withdrawal)) && committee
            },
        }
    }

    /// The open proposals in the order in which they are considered.
    fn proposals_by_priority(&self) -> (r: Vec<(GovActionId, ProposalState)>)
        ensures
            ratified_models(r@) == ratify_order(self@),
            all_open(self@, ratified_models(r@)),
    {
        let ghost l = self.governance.proposals.entries();
        let n: usize = self.governance.proposals.len();
        let mut r: Vec<(GovActionId, ProposalState)> = Vec::new();
        proof {
            self.governance.proposals.lemma_entries();
            assert(ratified_models(r@) =~= Seq::empty());
        }
        let mut p: u8 = 0;
        while p < 7
            invariant
                p <= 7,
                l == self.governance.proposals.entries(),
                forall|i: int|
                    #![trigger l[i]]
                    0 <= i < l.len() ==> self@.governance.proposals.dom().contains(l[i].0)
                        && self@.governance.proposals[l[i].0] == l[i].1,
                ratified_models(r@) == ordered_below(l, p),
                all_open(self@, ratified_models(r@)),
            decreases 7 - p,
        {
            let ghost before = ratified_models(r@);
            pick_proposals(&self.governance.proposals, p, &mut r);
            proof {
                let new = of_priority(l, p);
                lemma_of_priority_from(l, p);
                let m = ratified_models(r@);
                assert forall|i: int| #![trigger m[i]] 0 <= i < m.len() implies self@.governance.proposals.dom().contains(
                    m[i].0,
                ) && self@.governance.proposals[m[i].0] == m[i].1 by {
                    if i < before.len() {
                        assert(m[i] == before[i]);
                    } else {
                        assert(m[i] == new[i - before.len()]);
                        let j = l.index_of(new[i - before.len()]);
                        assert(l[j] == m[i]);
                    }
                }
            }
            p += 1;
        }
        r
    }

    /// Ratifies proposals at an epoch boundary: in order of priority, each
    /// against what was enacted before it, until a delaying action passes.
    /// Returns what is to be enacted.
    pub fn ratify_proposals(&mut self) -> (r: Vec<PendingEnactment>)
        requires
            ratify_fits(old(self)@),
        ensures
            final(self)@ == after_ratification(old(self)@),
            enactment_models(r@) == enactments_of(ratify_round(old(self)@).ratified),
    {
        let ghost s = self@;
        let (power, no_confidence, _abstain) = self.build_drep_power_cache();
        let proposals = self.proposals_by_priority();
        let ghost l = ratify_order(s);
        let ghost pm = power@;
        let mut ratified: Vec<(GovActionId, ProposalState)> = Vec::new();
        let mut enactments: Vec<PendingEnactment> = Vec::new();
        let mut delayed: bool = false;
        assert(ratified_models(ratified@) =~= Seq::empty());
        assert(enactment_models(enactments@) =~= enactments_of(Seq::empty()));
        let mut i: usize = 0;
        while i < proposals.len()
            invariant
                i <= proposals.len(),
                ratified_models(proposals@) == l,
                all_open(s, l),
                ratify_fits(s),
                pm == power@,
                pm == ratify_power(s).0,
                no_confidence == ratify_power(s).1,
                only_roots(s, self@),
                round(s, l.take(i as int), pm, no_confidence) == (RoundModel {
                    state: self@,
                    ratified: ratified_models(ratified@),
                    delayed,
                }),
                enactment_models(enactments@) == enactments_of(ratified_models(ratified@)),
            decreases proposals.len() - i,
        {
            proof {
                assert(l.take(i + 1).drop_last() =~= l.take(i as int));
                assert(l.take(i + 1).last() == l[i as int]);
                assert(l[i as int] == (proposals@[i as int].0, proposals@[i as int].1.model()));
            }
            let id: GovActionId = proposals[i].0;
            let state: &ProposalState = &proposals[i].1;
            let ghost a = state.procedure.gov_action.model();
            assert(s.governance.proposals.dom().contains(id));
            assert(ballot(self@, id, a) == ballot(s, id, a));
            if !delayed && self.check_ratification(&id, state, &power, no_confidence) && prev_action_as_expected(
                &state.procedure.gov_action,
                &self.governance,
            ) {
                self.update_enacted_roots(&id, &state.procedure.gov_action);
                let ghost es = enactments@;
                let ghost rs = ratified@;
                enactments.push(
                    PendingEnactment {
                        action_id: id,
                        gov_action: state.procedure.gov_action.dup(),
                        return_cred_hash: credential_to_hash(&state.procedure.return_addr),
                        deposit: state.procedure.deposit,
                    },
                );
                ratified.push((id, state.dup()));
                delayed = is_delaying_action(&state.procedure.gov_action);
                proof {
                    assert(ratified_models(ratified@) =~= ratified_models(rs).push(l[i as int]));
                    assert(enactment_models(enactments@) =~= enactment_models(es).push(enactment_of(l[i as int])));
                    assert(enactments_of(ratified_models(ratified@)) =~= enactments_of(ratified_models(rs)).push(
                        enactment_of(l[i as int]),
                    ));
                }
            }
            i += 1;
        }
        assert(l.take(i as int) =~= l);
        let ghost t = self@;
        let ghost rm = ratified_models(ratified@);
        let mut j: usize = 0;
        while j < ratified.len()
            invariant
                j <= ratified.len(),
                rm == ratified_models(ratified@),
                self@ == (LedgerModel {
                    governance: GovernanceModel {
                        proposals: without_actions(t.governance.proposals, rm.take(j as int)),
                        votes_by_action: without_actions(t.governance.votes_by_action, rm.take(j as int)),
                        ..t.governance
                    },
                    ..t
                }),
            decreases ratified.len() - j,
        {
            assert(rm.take(j + 1).drop_last() =~= rm.take(j as int));
            let id: GovActionId = ratified[j].0;
            self.governance.proposals.remove(&id);
            self.governance.votes_by_action.remove(&id);
            j += 1;
        }
        assert(rm.take(j as int) =~= rm);
        self.governance.last_ratified = ratified;
        self.governance.last_ratify_delayed = delayed;
        assert(self@ =~= after_ratification(s));
        enactments
    }
}

} // verus!
