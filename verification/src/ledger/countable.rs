//! Crossing an epoch boundary with every sum checked first.

use vstd::prelude::*;
use crate::dump::state::fitting;
use crate::item::Item;
use crate::ledger::boundary::lemma_mark_taken;
use crate::ledger::epoch::{after_transition, before_power, before_ratification, transition_fits};
use crate::ledger::governance::{
    ballot, bootstrap, collect_pool_votes, counted_stake_fn, drep_all, drep_power_fn, pool_votes, spo_counted, votes_fit,
};
use crate::ledger::primitives::{
    DRep, EpochNo, GovActionId, GovernanceAction, Hash32, ProtocolParameters, Vote, Voter, VotingProcedure,
};
use crate::ledger::ratify::{has_power_snapshot, power_fits, ratify_fits, ratify_power};
use crate::ledger::rewards::{pending_rewards_fit, unregistered_amount, unregistered_total};
use crate::ledger::state::{LedgerModel, LedgerState};
use crate::sums::{lemma_pairs_map, lemma_seq_sum_prefix, lemma_seq_sum_step, map_sum, seq_sum};
use crate::table::Table;

verus! {

/// Why a boundary was not crossed: which sums cannot be counted in `u64`.
#[derive(Clone, Copy, Debug, PartialEq, Eq, Structural)]
pub enum Uncountable {
    /// The rewards of unregistered accounts.
    Rewards,
    /// The stake that votes on proposals.
    Votes,
    /// The stake behind representatives.
    Power,
    /// The sums of the next reward update.
    Pots,
}

/// Whether the stake behind representatives is kept at a boundary, and its
/// sums do not fit.
pub open spec fn power_overflows(s: LedgerModel) -> bool {
    s.governance.vote_delegations != Map::<Hash32, DRep>::empty() && !power_fits(s)
}

/// How a boundary is crossed: fully where every sum fits, and otherwise not at
/// all. The error names the first step whose sums do not fit.
pub open spec fn crossed(s: LedgerModel, e: EpochNo, r: Result<(), Uncountable>, t: LedgerModel) -> bool {
    match r {
        Ok(_) => transition_fits(s, e) && t == after_transition(s, e),
        Err(Uncountable::Rewards) => !pending_rewards_fit(s) && t == s,
        Err(Uncountable::Votes) => pending_rewards_fit(s) && !ratify_fits(before_ratification(s, e)) && t == s,
        Err(Uncountable::Power) => pending_rewards_fit(s) && ratify_fits(before_ratification(s, e))
            && power_overflows(before_power(s, e)) && t == s,
        Err(Uncountable::Pots) => pending_rewards_fit(s) && ratify_fits(before_ratification(s, e)) && !power_overflows(
            before_power(s, e),
        ) && !transition_fits(s, e) && t == s,
    }
}

/// A boundary is crossed if and only if every sum that it takes fits, and
/// where it is not, the ledger is as before.
pub proof fn law_crossed_iff_fits(s: LedgerModel, e: EpochNo, r: Result<(), Uncountable>, t: LedgerModel)
    requires
        crossed(s, e, r, t),
    ensures
        r is Ok <==> transition_fits(s, e),
        r is Err ==> t == s,
{
}

impl LedgerState {
    /// Whether the rewards of unregistered accounts can be counted.
    fn rewards_countable(&self) -> (r: bool)
        ensures
            r == pending_rewards_fit(self@),
    {
        match &self.pending_reward_update {
            None => true,
            Some(rupd) => {
                let ghost accounts = self.reward_accounts@;
                let ghost f = unregistered_amount(accounts);
                let ghost e = rupd.rewards.entries();
                let n: usize = rupd.rewards.len();
                proof {
                    rupd.rewards.lemma_sum(f);
                }
                let mut sum: u64 = 0;
                let mut i: usize = 0;
                while i < n
                    invariant
                        i <= n,
                        n == e.len(),
                        e == rupd.rewards.entries(),
                        accounts == self.reward_accounts@,
                        f == unregistered_amount(accounts),
                        self.pending_reward_update == Some(*rupd),
                        unregistered_total(accounts, rupd.rewards@) == seq_sum(e, f),
                        sum == seq_sum(e.take(i as int), f),
                    decreases n - i,
                {
                    proof {
                        lemma_seq_sum_step(e, f, i as int);
                        lemma_seq_sum_prefix(e, f, i + 1);
                    }
                    if !self.reward_accounts.contains_key(rupd.rewards.key_at(i)) {
                        match sum.checked_add(rupd.rewards.value_at(i).0) {
                            Some(x) => {
                                sum = x;
                            },
                            None => {
                                return false;
                            },
                        }
                    }
                    i += 1;
                }
                assert(e.take(i as int) =~= e);
                true
            },
        }
    }

    /// Whether the pool stake that votes on an action can be counted.
    fn pool_votes_countable(&self, id: &GovActionId, action: &GovernanceAction) -> (r: bool)
        requires
            self@.snapshots.mark is Some,
        ensures
            r == (spo_counted(ballot(self@, *id, action.model())) <= u64::MAX),
    {
        let ghost b = ballot(self@, *id, action.model());
        let no_confidence: bool = match action {
            GovernanceAction::NoConfidence { .. } => true,
            _ => false,
        };
        let hard_fork: bool = match action {
            GovernanceAction::HardForkInitiation { .. } => true,
            _ => false,
        };
        let none: Vec<(Voter, VotingProcedure)> = Vec::new();
        let votes: &Vec<(Voter, VotingProcedure)> = match self.governance.votes_by_action.get(id) {
            Some(v) => v,
            None => &none,
        };
        assert(votes@ =~= b.votes);
        let cast = collect_pool_votes(votes);
        match &self.snapshots.mark {
            None => false,
            Some(mark) => {
                let ghost m = mark.model();
                let ghost f = counted_stake_fn(b, m);
                let ghost e = mark.pool_stake.entries();
                let n: usize = mark.pool_stake.len();
                proof {
                    mark.pool_stake.lemma_sum(f);
                }
                let mut sum: u64 = 0;
                let mut i: usize = 0;
                while i < n
                    invariant
                        i <= n,
                        n == e.len(),
                        e == mark.pool_stake.entries(),
                        m == mark.model(),
                        f == counted_stake_fn(b, m),
                        cast@ == pool_votes(b.votes),
                        b.hard_fork == hard_fork,
                        b.no_confidence == no_confidence,
                        b.bootstrap == bootstrap(self@),
                        b.pools == self@.pool_params,
                        b.vote_delegations == self@.governance.vote_delegations,
                        b == ballot(self@, *id, action.model()),
                        spo_counted(b) == seq_sum(e, f),
                        sum == seq_sum(e.take(i as int), f),
                    decreases n - i,
                {
                    proof {
                        lemma_seq_sum_step(e, f, i as int);
                        lemma_seq_sum_prefix(e, f, i + 1);
                    }
                    let vote: Vote = self.vote_of_pool(
                        mark,
                        &cast,
                        hard_fork,
                        no_confidence,
                        mark.pool_stake.key_at(i),
                        Ghost(b),
                    );
                    if vote != Vote::Abstain {
                        match sum.checked_add(mark.pool_stake.value_at(i).0) {
                            Some(x) => {
                                sum = x;
                            },
                            None => {
                                return false;
                            },
                        }
                    }
                    i += 1;
                }
                assert(e.take(i as int) =~= e);
                true
            },
        }
    }

    /// Whether the stake that votes on proposals can be counted.
    fn votes_countable(&self) -> (r: bool)
        requires
            self@.snapshots.mark is Some,
        ensures
            r == ratify_fits(self@),
    {
        let kept: bool = !self.governance.drep_power_snapshot.is_empty() || self.governance.drep_no_confidence_snapshot
            > 0 || self.governance.drep_abstain_snapshot > 0;
        if !kept && self.checked_drep_distribution().is_none() {
            return false;
        }
        let n: usize = self.governance.proposals.len();
        let ghost s = self@;
        let ghost e = self.governance.proposals.entries();
        proof {
            self.governance.proposals.lemma_entries();
            lemma_pairs_map(e);
        }
        if n == 0 {
            assert forall|id: GovActionId| #[trigger] s.governance.proposals.dom().contains(id) implies false by {
                let j = choose|j: int| #![trigger e[j]] 0 <= j < e.len() && e[j].0 == id;
            }
            return true;
        }
        let cache = self.build_drep_power_cache();
        proof {
            assert(s.governance.proposals.dom().contains(e[0].0));
        }
        match sum_power(&cache.0) {
            Some(x) => {
                if x.checked_add(cache.1).is_none() {
                    return false;
                }
            },
            None => {
                return false;
            },
        }
        let mut i: usize = 0;
        while i < n
            invariant
                i <= n,
                n == e.len(),
                s == self@,
                s.snapshots.mark is Some,
                e == self.governance.proposals.entries(),
                has_power_snapshot(s.governance) || power_fits(s),
                drep_all(ratify_power(s).0, ratify_power(s).1) <= u64::MAX,
                forall|j: int|
                    #![trigger e[j]]
                    0 <= j < e.len() ==> s.governance.proposals.dom().contains(e[j].0)
                        && s.governance.proposals[e[j].0] == e[j].1,
                forall|j: int|
                    #![trigger e[j]]
                    0 <= j < i ==> spo_counted(ballot(s, e[j].0, e[j].1.procedure.gov_action)) <= u64::MAX,
            decreases n - i,
        {
            let ok: bool = self.pool_votes_countable(
                self.governance.proposals.key_at(i),
                &self.governance.proposals.value_at(i).procedure.gov_action,
            );
            if !ok {
                assert(s.governance.proposals.dom().contains(e[i as int].0));
                return false;
            }
            i += 1;
        }
        proof {
            assert forall|id: GovActionId| #[trigger] s.governance.proposals.dom().contains(id) implies votes_fit(
                ballot(s, id, s.governance.proposals[id].procedure.gov_action),
                ratify_power(s).0,
                ratify_power(s).1,
            ) by {
                let j = choose|j: int| #![trigger e[j]] 0 <= j < e.len() && e[j].0 == id;
                assert(s.governance.proposals[e[j].0] == e[j].1);
            }
        }
        true
    }

    /// Makes the steps of a transition one by one. Where the sums of a step do
    /// not fit, it stops before that step.
    pub(crate) fn step_through(&mut self, new_epoch: EpochNo) -> (r: Result<(), Uncountable>)
        ensures
            crossed(
                old(self)@,
                new_epoch,
                r,
                if r is Ok {
                    final(self)@
                } else {
                    old(self)@
                },
            ),
    {
        let prev_pp: ProtocolParameters = self.protocol_params;
        if !self.rewards_countable() {
            return Err(Uncountable::Rewards);
        }
        proof {
            lemma_mark_taken(self@, new_epoch);
        }
        self.close_epoch(new_epoch);
        if !self.votes_countable() {
            return Err(Uncountable::Votes);
        }
        self.govern(new_epoch);
        if !self.governance.vote_delegations.is_empty() && self.checked_drep_distribution().is_none() {
            return Err(Uncountable::Power);
        }
        self.snapshot_drep_power();
        self.compute_epoch_nonce();
        if !self.compute_next_rewards(&prev_pp) {
            return Err(Uncountable::Pots);
        }
        self.start_epoch(new_epoch);
        Ok(())
    }

    /// Crosses an epoch boundary where every sum that it takes fits. Otherwise
    /// the ledger stays as it is.
    pub fn checked_epoch_transition(&mut self, new_epoch: EpochNo) -> (r: Result<(), Uncountable>)
        ensures
            crossed(old(self)@, new_epoch, r, final(self)@),
    {
        let mut next = self.dup();
        let r = next.step_through(new_epoch);
        if r.is_ok() {
            *self = next;
        }
        r
    }
}

/// Adds up the power of all representatives.
fn sum_power(power: &Table<Hash32, u64>) -> (r: Option<u64>)
    ensures
        r == fitting(map_sum(power@, drep_power_fn(Map::empty(), None))),
{
    let ghost f = drep_power_fn(Map::<Hash32, Vote>::empty(), None);
    let ghost e = power.entries();
    let n: usize = power.len();
    proof {
        power.lemma_sum(f);
    }
    let mut sum: u64 = 0;
    let mut i: usize = 0;
    while i < n
        invariant
            i <= n,
            n == e.len(),
            e == power.entries(),
            f == drep_power_fn(Map::<Hash32, Vote>::empty(), None),
            map_sum(power@, f) == seq_sum(e, f),
            sum == seq_sum(e.take(i as int), f),
        decreases n - i,
    {
        proof {
            lemma_seq_sum_step(e, f, i as int);
            lemma_seq_sum_prefix(e, f, i + 1);
        }
        match sum.checked_add(*power.value_at(i)) {
            Some(x) => {
                sum = x;
            },
            None => {
                return None;
            },
        }
        i += 1;
    }
    assert(e.take(i as int) =~= e);
    Some(sum)
}

} // verus!
