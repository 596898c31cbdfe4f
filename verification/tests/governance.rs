use hayate::ledger::governance::{
    check_cc_approval, check_threshold, gov_action_priority, is_delaying_action, modified_pp_groups,
    pp_change_drep_all_groups_met, pp_change_spo_threshold, prev_action_as_expected, DRepPPGroup, StakePoolPPGroup,
};
use hayate::ledger::primitives::{
    Constitution, Credential, DRep, EpochNo, GovActionId, GovernanceAction, Hash32, Lovelace, ProposalProcedure,
    ProtocolParamUpdate, ProtocolParameters, Rational, Vote, Voter, VotingProcedure,
};
use hayate::ledger::state::{DRepRegistration, LedgerState, StakeSnapshot};
use hayate::table::{KeySet, Table};

fn ratio(numerator: u64, denominator: u64) -> Rational {
    Rational { numerator, denominator }
}

fn id(n: u8) -> GovActionId {
    GovActionId { tx_hash: [n; 32], index: 0 }
}

fn withdrawal(amount: u64) -> GovernanceAction {
    GovernanceAction::TreasuryWithdrawals {
        withdrawals: vec![(Credential::Key([7; 32]), Lovelace(amount))],
        guardrails_hash: None,
    }
}

fn hard_fork(prev: Option<GovActionId>) -> GovernanceAction {
    GovernanceAction::HardForkInitiation { prev_action_id: prev, protocol_version: (11, 0) }
}

fn constitution(prev: Option<GovActionId>) -> GovernanceAction {
    GovernanceAction::NewConstitution {
        prev_action_id: prev,
        constitution: Constitution { anchor: None, script_hash: Some([3; 32]) },
    }
}

fn change(update: ProtocolParamUpdate) -> GovernanceAction {
    GovernanceAction::ParameterChange { prev_action_id: None, update, guardrails_hash: None }
}

fn committee_update() -> GovernanceAction {
    GovernanceAction::UpdateCommittee {
        prev_action_id: None,
        members_to_remove: vec![Credential::Key([21; 32])],
        members_to_add: vec![(Credential::Key([24; 32]), EpochNo(90))],
        quorum: ratio(1, 2),
    }
}

fn propose(s: &mut LedgerState, n: u8, action: GovernanceAction) {
    let p = ProposalProcedure {
        deposit: Lovelace(1_000),
        return_addr: Credential::Key([9; 32]),
        gov_action: action,
        anchor: None,
    };
    assert!(s.process_proposal(&id(n), &p).is_ok());
}

fn vote(s: &mut LedgerState, voter: Voter, n: u8, vote: Vote) {
    s.process_vote(&voter, &id(n), &VotingProcedure { vote, anchor: None });
}

fn drep(h: Hash32) -> DRepRegistration {
    DRepRegistration {
        credential: Credential::Key(h),
        deposit: Lovelace(500),
        anchor: None,
        registered_epoch: EpochNo(10),
        last_active_epoch: EpochNo(10),
        active: true,
        delegs: KeySet::new(),
    }
}

/// Two representatives with 60 and 40 of the stake, pools with 70 and 30, and
/// a committee of three without a minimum size.
fn state() -> LedgerState {
    let mut s = LedgerState::new(ProtocolParameters::default());
    s.epoch = EpochNo(10);
    s.treasury = Lovelace(1_000_000);
    s.protocol_params.committee_min_size = 0;
    s.governance.dreps.insert([1; 32], drep([1; 32]));
    s.governance.dreps.insert([2; 32], drep([2; 32]));
    s.governance.vote_delegations.insert([11; 32], DRep::KeyHash([1; 32]));
    s.governance.vote_delegations.insert([12; 32], DRep::KeyHash([2; 32]));
    s.stake_distribution.stake_map.insert([11; 32], Lovelace(60));
    s.stake_distribution.stake_map.insert([12; 32], Lovelace(40));
    let mut pool_stake = Table::new();
    pool_stake.insert([5; 28], Lovelace(70));
    pool_stake.insert([6; 28], Lovelace(30));
    s.snapshots.mark = Some(StakeSnapshot {
        epoch: EpochNo(10),
        delegations: Table::new(),
        pool_stake,
        pool_params: Table::new(),
        stake_distribution: Table::new(),
        epoch_blocks_by_pool: Table::new(),
        script_stake_credentials: KeySet::new(),
    });
    s.governance.committee_threshold = Some(ratio(2, 3));
    for n in [21u8, 22, 23] {
        s.governance.committee_expiration.insert([n; 32], EpochNo(100));
        s.governance.committee_hot_keys.insert([n; 32], [n + 10; 32]);
    }
    s
}

fn committee(s: &mut LedgerState, n: u8, votes: [Vote; 3]) {
    for (i, v) in votes.into_iter().enumerate() {
        vote(s, Voter::ConstitutionalCommittee(Credential::Key([31 + i as u8; 32])), n, v);
    }
}

fn passes(s: &LedgerState, n: u8) -> bool {
    let (power, no_confidence, _) = s.build_drep_power_cache();
    s.check_ratification(&id(n), s.governance.proposals.get(&id(n)).unwrap(), &power, no_confidence)
}

#[test]
fn thresholds_are_exact() {
    assert!(check_threshold(51, 100, &ratio(51, 100)));
    assert!(!check_threshold(50, 100, &ratio(51, 100)));
    assert!(check_threshold(0, 0, &ratio(0, 1)));
    assert!(!check_threshold(0, 0, &ratio(1, 2)));
    assert!(check_threshold(u64::MAX, u64::MAX, &ratio(1, 1)));
    assert!(!check_threshold(u64::MAX - 1, u64::MAX, &ratio(1, 1)));
}

#[test]
fn actions_have_priorities() {
    let all = [
        GovernanceAction::NoConfidence { prev_action_id: None },
        committee_update(),
        constitution(None),
        hard_fork(None),
        change(ProtocolParamUpdate::default()),
        withdrawal(1),
        GovernanceAction::InfoAction,
    ];
    let priorities: Vec<u8> = all.iter().map(gov_action_priority).collect();
    assert_eq!(priorities, vec![0, 1, 2, 3, 4, 5, 6]);
    let delaying: Vec<bool> = all.iter().map(is_delaying_action).collect();
    assert_eq!(delaying, vec![true, true, true, true, false, false, false]);
}

#[test]
fn proposals_follow_on_what_was_enacted() {
    let mut s = state();
    assert!(prev_action_as_expected(&hard_fork(None), &s.governance));
    s.governance.enacted_hard_fork = Some(id(1));
    assert!(!prev_action_as_expected(&hard_fork(None), &s.governance));
    assert!(!prev_action_as_expected(&hard_fork(Some(id(2))), &s.governance));
    assert!(prev_action_as_expected(&hard_fork(Some(id(1))), &s.governance));
    let p = ProposalProcedure {
        deposit: Lovelace(0),
        return_addr: Credential::Key([9; 32]),
        gov_action: hard_fork(None),
        anchor: None,
    };
    assert_eq!(s.process_proposal(&id(3), &p), Err("Invalid prev_action_id chain".to_string()));
    assert!(s.governance.proposals.is_empty());
    propose(&mut s, 4, hard_fork(Some(id(1))));
    assert_eq!(s.governance.proposals.get(&id(4)).unwrap().expires_epoch, EpochNo(16));
    assert_eq!(s.governance.proposal_count, 1);
}

#[test]
fn a_withdrawal_needs_representatives_and_committee() {
    let mut s = state();
    propose(&mut s, 1, withdrawal(500));
    assert!(!passes(&s, 1));
    vote(&mut s, Voter::DRep(Credential::Key([1; 32])), 1, Vote::Yes);
    assert!(!passes(&s, 1));
    committee(&mut s, 1, [Vote::Yes, Vote::Yes, Vote::No]);
    assert!(passes(&s, 1));
    let (power, nc, _) = s.build_drep_power_cache();
    assert_eq!(
        s.count_votes_by_type(&id(1), &withdrawal(500), &power, nc),
        (60, 100, 0, 100, 2, 3)
    );
}

#[test]
fn abstaining_shrinks_what_counts() {
    let mut s = state();
    propose(&mut s, 1, withdrawal(500));
    committee(&mut s, 1, [Vote::Yes, Vote::Yes, Vote::Abstain]);
    vote(&mut s, Voter::DRep(Credential::Key([2; 32])), 1, Vote::Yes);
    assert!(!passes(&s, 1));
    vote(&mut s, Voter::DRep(Credential::Key([1; 32])), 1, Vote::Abstain);
    assert!(passes(&s, 1));
}

#[test]
fn abstaining_pools_do_not_count() {
    // with a mark snapshot or without one
    for mark in [true, false] {
        let mut s = state();
        if !mark {
            s.snapshots.mark = None;
        }
        propose(&mut s, 1, hard_fork(None));
        let (power, nc, _) = s.build_drep_power_cache();
        let count = |s: &LedgerState| {
            let (_, _, yes, all, _, _) = s.count_votes_by_type(&id(1), &hard_fork(None), &power, nc);
            (yes, all)
        };
        let none = count(&s);
        vote(&mut s, Voter::StakePool([1; 28]), 1, Vote::Yes);
        let (yes, all) = count(&s);
        vote(&mut s, Voter::StakePool([1; 28]), 1, Vote::No);
        assert_eq!(count(&s), (0, all));
        vote(&mut s, Voter::StakePool([1; 28]), 1, Vote::Abstain);
        assert_eq!(count(&s), (0, all - yes));
        if !mark {
            assert_eq!(none, (0, 0));
            assert_eq!(count(&s), (0, 0));
        }
    }
}

#[test]
fn the_last_vote_counts() {
    let mut s = state();
    propose(&mut s, 1, withdrawal(500));
    committee(&mut s, 1, [Vote::Yes, Vote::Yes, Vote::Yes]);
    vote(&mut s, Voter::DRep(Credential::Key([1; 32])), 1, Vote::Yes);
    assert!(passes(&s, 1));
    vote(&mut s, Voter::DRep(Credential::Key([1; 32])), 1, Vote::No);
    assert!(!passes(&s, 1));
}

#[test]
fn votes_on_what_is_not_open_are_ignored() {
    let mut s = state();
    vote(&mut s, Voter::DRep(Credential::Key([1; 32])), 1, Vote::Yes);
    assert!(s.governance.votes_by_action.is_empty());
}

#[test]
fn a_vote_keeps_a_representative_active() {
    let mut s = state();
    propose(&mut s, 1, withdrawal(500));
    let mut d = drep([1; 32]);
    d.active = false;
    s.governance.dreps.insert([1; 32], d);
    s.epoch = EpochNo(12);
    vote(&mut s, Voter::DRep(Credential::Key([1; 32])), 1, Vote::Yes);
    let d = s.governance.dreps.get(&[1; 32]).unwrap();
    assert!(d.active);
    assert_eq!(d.last_active_epoch, EpochNo(12));
}

#[test]
fn a_hard_fork_needs_pools_too() {
    let mut s = state();
    propose(&mut s, 1, hard_fork(None));
    vote(&mut s, Voter::DRep(Credential::Key([1; 32])), 1, Vote::Yes);
    committee(&mut s, 1, [Vote::Yes, Vote::Yes, Vote::Yes]);
    assert!(!passes(&s, 1));
    vote(&mut s, Voter::StakePool([6; 28]), 1, Vote::Yes);
    assert!(!passes(&s, 1));
    vote(&mut s, Voter::StakePool([5; 28]), 1, Vote::Yes);
    assert!(passes(&s, 1));
}

#[test]
fn representatives_do_not_count_during_bootstrap() {
    let mut s = state();
    propose(&mut s, 1, withdrawal(500));
    committee(&mut s, 1, [Vote::Yes, Vote::Yes, Vote::Yes]);
    assert!(!s.is_bootstrap_phase());
    assert!(!passes(&s, 1));
    s.protocol_params.protocol_version_major = 9;
    assert!(s.is_bootstrap_phase());
    assert!(passes(&s, 1));
}

#[test]
fn information_never_passes() {
    let mut s = state();
    propose(&mut s, 1, GovernanceAction::InfoAction);
    vote(&mut s, Voter::DRep(Credential::Key([1; 32])), 1, Vote::Yes);
    vote(&mut s, Voter::DRep(Credential::Key([2; 32])), 1, Vote::Yes);
    committee(&mut s, 1, [Vote::Yes, Vote::Yes, Vote::Yes]);
    assert!(!passes(&s, 1));
}

#[test]
fn a_motion_of_no_confidence_counts_standing_stake() {
    let mut s = state();
    propose(&mut s, 1, GovernanceAction::NoConfidence { prev_action_id: None });
    vote(&mut s, Voter::StakePool([5; 28]), 1, Vote::Yes);
    assert!(!passes(&s, 1));
    s.governance.vote_delegations.insert([13; 32], DRep::AlwaysNoConfidence);
    s.stake_distribution.stake_map.insert([13; 32], Lovelace(300));
    assert!(passes(&s, 1));
}

#[test]
fn the_committee_approves_by_quorum() {
    let mut s = state();
    propose(&mut s, 1, withdrawal(1));
    let approves = |s: &LedgerState, min: u64, boot: bool| check_cc_approval(&id(1), &s.governance, s.epoch, min, boot);
    assert!(!approves(&s, 0, false));
    committee(&mut s, 1, [Vote::Yes, Vote::Yes, Vote::No]);
    assert!(approves(&s, 3, false));
    // a committee that is too small approves nothing, except during bootstrap
    assert!(!approves(&s, 4, false));
    assert!(approves(&s, 4, true));
    // members whose term is over do not count
    s.governance.committee_expiration.insert([21; 32], EpochNo(9));
    assert!(!approves(&s, 0, false));
    // nor is there approval without a committee
    s.governance.committee_threshold = None;
    assert!(!approves(&s, 0, false));
    s.governance.committee_threshold = Some(ratio(0, 1));
    assert!(approves(&s, 9, false));
}

#[test]
fn updates_belong_to_groups() {
    let mut u = ProtocolParamUpdate::default();
    assert!(modified_pp_groups(&u).is_empty());
    let p = ProtocolParameters::default();
    assert!(pp_change_drep_all_groups_met(&u, &p, 0, 0));
    assert_eq!(pp_change_spo_threshold(&u, &p), None);
    u.rho = Some(ratio(1, 10));
    assert_eq!(modified_pp_groups(&u), vec![(DRepPPGroup::Economic, StakePoolPPGroup::NoVote)]);
    assert_eq!(pp_change_spo_threshold(&u, &p), None);
    assert!(pp_change_drep_all_groups_met(&u, &p, 51, 100));
    u.drep_deposit = Some(1);
    // the governance group asks for three quarters
    assert!(!pp_change_drep_all_groups_met(&u, &p, 74, 100));
    assert!(pp_change_drep_all_groups_met(&u, &p, 75, 100));
    u.n_opt = Some(400);
    assert_eq!(pp_change_spo_threshold(&u, &p), Some(ratio(51, 100)));
}

#[test]
fn a_ratified_withdrawal_is_paid_at_the_boundary() {
    let mut s = state();
    propose(&mut s, 1, withdrawal(500));
    vote(&mut s, Voter::DRep(Credential::Key([1; 32])), 1, Vote::Yes);
    committee(&mut s, 1, [Vote::Yes, Vote::Yes, Vote::Yes]);
    s.process_epoch_transition(EpochNo(11));
    assert_eq!(s.treasury, Lovelace(999_500));
    assert_eq!(s.reward_accounts.get(&[7; 32]), Some(&Lovelace(500)));
    // the deposit went back
    assert_eq!(s.reward_accounts.get(&[9; 32]), Some(&Lovelace(1_000)));
    assert!(s.governance.proposals.is_empty());
    assert!(s.governance.votes_by_action.is_empty());
    assert_eq!(s.governance.last_ratified.len(), 1);
    assert!(!s.governance.last_ratify_delayed);
}

#[test]
fn a_delaying_action_holds_up_the_rest() {
    let mut s = state();
    // a new mark is taken at the boundary, so the pools have to be there
    s.delegations.insert([11; 32], [5; 28]);
    propose(&mut s, 1, withdrawal(500));
    propose(&mut s, 2, constitution(None));
    for n in [1, 2] {
        vote(&mut s, Voter::DRep(Credential::Key([1; 32])), n, Vote::Yes);
        vote(&mut s, Voter::DRep(Credential::Key([2; 32])), n, Vote::Yes);
        committee(&mut s, n, [Vote::Yes, Vote::Yes, Vote::Yes]);
    }
    let ratified = s.ratify_proposals();
    assert_eq!(ratified.len(), 1);
    assert_eq!(ratified[0].action_id, id(2));
    assert!(s.governance.last_ratify_delayed);
    assert_eq!(s.governance.enacted_constitution, Some(id(2)));
    assert!(s.governance.proposals.contains_key(&id(1)));
    s.enact_ratified(&ratified);
    assert_eq!(
        s.governance.constitution,
        Some(Constitution { anchor: None, script_hash: Some([3; 32]) })
    );
    // the next round takes the other one
    let ratified = s.ratify_proposals();
    assert_eq!(ratified.len(), 1);
    assert_eq!(ratified[0].action_id, id(1));
}

#[test]
fn only_one_of_two_rivals_is_ratified() {
    let mut s = state();
    let mut low = ProtocolParamUpdate::default();
    low.n_opt = Some(100);
    let mut high = ProtocolParamUpdate::default();
    high.n_opt = Some(900);
    propose(&mut s, 1, change(low));
    propose(&mut s, 2, change(high));
    for n in [1, 2] {
        vote(&mut s, Voter::DRep(Credential::Key([1; 32])), n, Vote::Yes);
        vote(&mut s, Voter::StakePool([5; 28]), n, Vote::Yes);
        committee(&mut s, n, [Vote::Yes, Vote::Yes, Vote::Yes]);
    }
    let ratified = s.ratify_proposals();
    assert_eq!(ratified.len(), 1);
    assert_eq!(s.governance.enacted_pparam_update, Some(id(1)));
    s.enact_ratified(&ratified);
    assert_eq!(s.protocol_params.n_opt, 100);
    assert!(s.governance.proposals.contains_key(&id(2)));
}

#[test]
fn each_action_takes_effect() {
    let mut s = state();
    s.enact_gov_action(&hard_fork(None));
    assert_eq!((s.protocol_params.protocol_version_major, s.protocol_params.protocol_version_minor), (11, 0));

    s.enact_gov_action(&committee_update());
    assert!(!s.governance.committee_expiration.contains_key(&[21; 32]));
    assert!(!s.governance.committee_hot_keys.contains_key(&[21; 32]));
    assert_eq!(s.governance.committee_expiration.get(&[24; 32]), Some(&EpochNo(90)));
    assert_eq!(s.governance.committee_threshold, Some(ratio(1, 2)));

    s.enact_gov_action(&GovernanceAction::NoConfidence { prev_action_id: None });
    assert!(s.governance.no_confidence);
    assert!(s.governance.committee_expiration.is_empty());
    assert_eq!(s.governance.committee_threshold, None);

    // no more is paid than there is
    s.enact_gov_action(&withdrawal(2_000_000));
    assert_eq!(s.treasury, Lovelace(0));
    assert_eq!(s.reward_accounts.get(&[7; 32]), Some(&Lovelace(1_000_000)));

    let before = s.protocol_params;
    s.enact_gov_action(&GovernanceAction::InfoAction);
    assert_eq!(s.protocol_params, before);
}

#[test]
fn a_parameter_change_keeps_the_parameters_before_it() {
    let mut s = state();
    let before = s.protocol_params;
    let mut u = ProtocolParamUpdate::default();
    u.min_fee_a = Some(77);
    u.min_pool_cost = Some(170_000_000);
    s.enact_gov_action(&change(u));
    assert_eq!(s.protocol_params.min_fee_a, 77);
    assert_eq!(s.protocol_params.min_pool_cost, 170_000_000);
    assert_eq!(s.protocol_params.min_pool_cost_lovelace, 170_000_000);
    assert_eq!(s.protocol_params.min_fee_b, before.min_fee_b);
    assert_eq!(s.prev_protocol_params, Some(before));
}

#[test]
fn changes_are_put_in_words() {
    let mut u = ProtocolParamUpdate::default();
    assert_eq!(u.format_changes(&ProtocolParameters::default()), "");
    u.n_opt = Some(400);
    assert_eq!(u.format_changes(&ProtocolParameters::default()), "n_opt: 500 -> 400");
}

#[test]
fn pools_weigh_by_their_stake() {
    let s = state();
    assert_eq!(s.compute_spo_voting_power(&[5; 28]), 70);
    assert_eq!(s.compute_spo_voting_power(&[8; 28]), 0);
    assert_eq!(s.compute_total_spo_stake(), 100);
    assert_eq!(s.credential_stake(&[11; 32]), 60);
    assert_eq!(s.compute_total_drep_stake(), 100);
}
