//! Copies of a whole ledger.

use vstd::prelude::*;
use crate::item::Item;
use crate::ledger::primitives::GovActionId;
use crate::ledger::state::{
    enactment_models, ratified_models, DepositTracker, EpochSnapshots, GovernanceModel, GovernanceState, LedgerModel,
    LedgerState, PendingEnactment, ProposalState, StakeDistributionState,
};

verus! {

fn dup_ratified(l: &Vec<(GovActionId, ProposalState)>) -> (r: Vec<(GovActionId, ProposalState)>)
    ensures
        ratified_models(r@) == ratified_models(l@),
{
    let mut r: Vec<(GovActionId, ProposalState)> = Vec::new();
    let mut i: usize = 0;
    while i < l.len()
        invariant
            i <= l@.len(),
            r@.len() == i,
            forall|j: int|
                #![trigger r@[j]]
                0 <= j < i ==> r@[j].0 == l@[j].0 && r@[j].1.model() == l@[j].1.model(),
        decreases l@.len() - i,
    {
        r.push((l[i].0, l[i].1.dup()));
        i += 1;
    }
    assert(ratified_models(r@) =~= ratified_models(l@));
    r
}

fn dup_expired(l: &Vec<GovActionId>) -> (r: Vec<GovActionId>)
    ensures
        r@ == l@,
{
    let r: Vec<GovActionId> = crate::ledger::primitives::dup_vec(l);
    assert(r@ =~= l@);
    r
}

fn dup_enactments(l: &Vec<PendingEnactment>) -> (r: Vec<PendingEnactment>)
    ensures
        enactment_models(r@) == enactment_models(l@),
{
    let mut r: Vec<PendingEnactment> = Vec::new();
    let mut i: usize = 0;
    while i < l.len()
        invariant
            i <= l@.len(),
            r@.len() == i,
            forall|j: int| #![trigger r@[j]] 0 <= j < i ==> r@[j].model() == l@[j].model(),
        decreases l@.len() - i,
    {
        r.push(
            PendingEnactment {
                action_id: l[i].action_id,
                gov_action: l[i].gov_action.dup(),
                return_cred_hash: l[i].return_cred_hash,
                deposit: l[i].deposit,
            },
        );
        i += 1;
    }
    assert(enactment_models(r@) =~= enactment_models(l@));
    r
}

fn dup_snapshots(l: &EpochSnapshots) -> (r: EpochSnapshots)
    ensures
        r.model() == l.model(),
{
    EpochSnapshots {
        mark: l.mark.dup(),
        set: l.set.dup(),
        go: l.go.dup(),
        pay: l.pay.dup(),
        current_epoch_fees: l.current_epoch_fees,
    }
}

impl Item for GovernanceState {
    type M = GovernanceModel;

    open spec fn model(&self) -> GovernanceModel {
        self@
    }

    fn dup(&self) -> (r: Self) {
        let r = GovernanceState {
            dreps: self.dreps.dup(),
            vote_delegations: self.vote_delegations.dup(),
            committee_hot_keys: self.committee_hot_keys.dup(),
            committee_expiration: self.committee_expiration.dup(),
            committee_resigned: self.committee_resigned.dup(),
            script_committee_credentials: self.script_committee_credentials.dup(),
            script_committee_hot_credentials: self.script_committee_hot_credentials.dup(),
            proposals: self.proposals.dup(),
            votes_by_action: self.votes_by_action.dup(),
            drep_registration_count: self.drep_registration_count,
            proposal_count: self.proposal_count,
            constitution: self.constitution.dup(),
            no_confidence: self.no_confidence,
            committee_threshold: self.committee_threshold,
            enacted_pparam_update: self.enacted_pparam_update,
            enacted_hard_fork: self.enacted_hard_fork,
            enacted_committee: self.enacted_committee,
            enacted_constitution: self.enacted_constitution,
            last_ratified: dup_ratified(&self.last_ratified),
            last_expired: dup_expired(&self.last_expired),
            last_ratify_delayed: self.last_ratify_delayed,
            conway_cur_params: self.conway_cur_params,
            drep_power_snapshot: self.drep_power_snapshot.dup(),
            drep_no_confidence_snapshot: self.drep_no_confidence_snapshot,
            drep_abstain_snapshot: self.drep_abstain_snapshot,
        };
        assert(r@ =~= self@);
        r
    }
}

impl Item for LedgerState {
    type M = LedgerModel;

    open spec fn model(&self) -> LedgerModel {
        self@
    }

    fn dup(&self) -> (r: Self) {
        let r = LedgerState {
            epoch: self.epoch,
            epoch_length: self.epoch_length,
            shelley_transition_epoch: self.shelley_transition_epoch,
            byron_epoch_length: self.byron_epoch_length,
            has_byron: self.has_byron,
            protocol_params: self.protocol_params,
            stake_distribution: StakeDistributionState { stake_map: self.stake_distribution.stake_map.dup() },
            treasury: self.treasury,
            reserves: self.reserves,
            delegations: self.delegations.dup(),
            pool_params: self.pool_params.dup(),
            future_pool_params: self.future_pool_params.dup(),
            pending_retirements: self.pending_retirements.dup(),
            snapshots: dup_snapshots(&self.snapshots),
            reward_accounts: self.reward_accounts.dup(),
            epoch_fees: self.epoch_fees,
            epoch_blocks_by_pool: self.epoch_blocks_by_pool.dup(),
            epoch_block_count: self.epoch_block_count,
            evolving_nonce: self.evolving_nonce,
            candidate_nonce: self.candidate_nonce,
            epoch_nonce: self.epoch_nonce,
            lab_nonce: self.lab_nonce,
            last_epoch_block_nonce: self.last_epoch_block_nonce,
            randomness_stabilisation_window: self.randomness_stabilisation_window,
            stability_window_3kf: self.stability_window_3kf,
            stability_window_2kf: self.stability_window_2kf,
            genesis_hash: self.genesis_hash,
            pending_pp_updates: self.pending_pp_updates.dup(),
            update_quorum: self.update_quorum,
            governance: self.governance.dup(),
            deposit_tracker: DepositTracker { deposits: self.deposit_tracker.deposits.dup() },
            pending_reward_update: self.pending_reward_update.dup(),
            last_applied_rupd: self.last_applied_rupd.dup(),
            ppup_enacted_log: self.ppup_enacted_log.dup(),
            script_stake_credentials: self.script_stake_credentials.dup(),
            prev_protocol_params: self.prev_protocol_params,
            conway_genesis_epoch: self.conway_genesis_epoch,
            pending_enactments: dup_enactments(&self.pending_enactments),
            ptr_map: self.ptr_map.dup(),
            prev_epoch_decentralization: self.prev_epoch_decentralization,
        };
        assert(r@ =~= self@);
        r
    }
}

} // verus!
