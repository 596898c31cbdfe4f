use hayate::ledger::countable::Uncountable;
use hayate::ledger::epoch::voted_value;
use hayate::ledger::primitives::{
    Credential, DRep, EpochNo, GovActionId, GovernanceAction, Hash32, Lovelace, ProposalProcedure,
    ProtocolParamUpdate, ProtocolParameters, Rational,
};
use hayate::ledger::state::{
    DRepRegistration, DepositType, LedgerState, PendingRewardUpdate, PoolRegistration,
};
use hayate::table::{KeySet, Table};

fn state() -> LedgerState {
    let mut s = LedgerState::new(ProtocolParameters::default());
    s.epoch = EpochNo(10);
    s.reserves = Lovelace(1_000_000_000);
    s
}

fn pool(id: u8, account: &[u8]) -> PoolRegistration {
    PoolRegistration {
        pool_id: [id; 28],
        vrf_keyhash: [0; 32],
        pledge: Lovelace(0),
        cost: Lovelace(340_000_000),
        margin_numerator: 0,
        margin_denominator: 1,
        reward_account: account.to_vec(),
        owners: vec![],
        relays: vec![],
        metadata_url: None,
        metadata_hash: None,
    }
}

fn account(b: u8) -> Vec<u8> {
    let mut a = vec![0xe1];
    a.extend_from_slice(&[b; 28]);
    a
}

fn n_opt(n: u64) -> ProtocolParamUpdate {
    let mut u = ProtocolParamUpdate::default();
    u.n_opt = Some(n);
    u
}

fn no_rewards() -> PendingRewardUpdate {
    PendingRewardUpdate {
        rewards: Table::new(),
        delta_treasury: 0,
        delta_reserves: 0,
        undistributed: 0,
        eta: Rational { numerator: 0, denominator: 1 },
        delta_r1: 0,
        r_pot: 0,
        delta_t1: 0,
        reward_pot_after_treasury: 0,
        total_distributed: 0,
    }
}

#[test]
fn a_pool_retires_when_it_is_due() {
    let mut s = state();
    let key = LedgerState::reward_account_to_hash(&account(4));
    s.reward_accounts.insert(key, Lovelace(7));
    s.pool_params.insert([1; 28], pool(1, &account(4)));
    s.pool_params.insert([2; 28], pool(2, &account(4)));
    s.delegations.insert([11; 32], [1; 28]);
    s.delegations.insert([12; 32], [2; 28]);
    s.pending_retirements.insert([1; 28], EpochNo(12));
    s.process_epoch_transition(EpochNo(11));
    assert!(s.pool_params.contains_key(&[1; 28]));
    s.process_epoch_transition(EpochNo(12));
    assert!(!s.pool_params.contains_key(&[1; 28]));
    assert!(s.pending_retirements.is_empty());
    assert!(s.delegations.get(&[11; 32]).is_none());
    assert_eq!(s.delegations.get(&[12; 32]), Some(&[2; 28]));
    assert_eq!(s.reward_accounts.get(&key), Some(&Lovelace(500_000_007)));
}

#[test]
fn the_deposit_of_an_unknown_operator_goes_to_the_treasury() {
    let mut s = state();
    s.pool_params.insert([1; 28], pool(1, &account(4)));
    s.pending_retirements.insert([1; 28], EpochNo(11));
    s.process_epoch_transition(EpochNo(11));
    assert_eq!(s.treasury, Lovelace(500_000_000));
    assert!(s.reward_accounts.is_empty());
}

#[test]
fn the_mark_holds_the_delegated_stake() {
    let mut s = state();
    s.pool_params.insert([1; 28], pool(1, &account(4)));
    s.delegations.insert([11; 32], [1; 28]);
    s.delegations.insert([12; 32], [1; 28]);
    s.stake_distribution.stake_map.insert([11; 32], Lovelace(100));
    s.stake_distribution.stake_map.insert([12; 32], Lovelace(50));
    s.stake_distribution.stake_map.insert([13; 32], Lovelace(900));
    s.reward_accounts.insert([12; 32], Lovelace(5));
    s.process_epoch_transition(EpochNo(11));
    let mark = s.snapshots.mark.as_ref().unwrap();
    assert_eq!(mark.pool_stake.get(&[1; 28]), Some(&Lovelace(155)));
    assert_eq!(mark.stake_distribution.get(&[12; 32]), Some(&Lovelace(55)));
    assert!(mark.stake_distribution.get(&[13; 32]).is_none());
    assert!(s.snapshots.set.is_none());
    s.process_epoch_transition(EpochNo(12));
    let set = s.snapshots.set.as_ref().unwrap();
    assert_eq!(set.pool_stake.get(&[1; 28]), Some(&Lovelace(155)));
}

#[test]
fn the_counters_start_anew() {
    let mut s = state();
    s.epoch_fees = Lovelace(123);
    s.epoch_block_count = 9;
    s.epoch_blocks_by_pool.insert([1; 28], 9);
    s.process_epoch_transition(EpochNo(11));
    assert_eq!(s.epoch, EpochNo(11));
    assert_eq!(s.epoch_fees, Lovelace(0));
    assert_eq!(s.epoch_block_count, 0);
    assert!(s.epoch_blocks_by_pool.is_empty());
    assert_eq!(s.snapshots.current_epoch_fees, Lovelace(123));
}

#[test]
fn an_update_needs_its_quorum() {
    let mut votes: Table<Hash32, ProtocolParamUpdate> = Table::new();
    votes.insert([1; 32], n_opt(100));
    votes.insert([2; 32], n_opt(200));
    votes.insert([3; 32], n_opt(200));
    assert_eq!(voted_value(&votes, 2), Some(n_opt(200)));
    assert_eq!(voted_value(&votes, 3), None);
    assert_eq!(voted_value(&votes, 1), Some(n_opt(100)));

    let mut s = state();
    s.set_update_quorum(2);
    s.pending_pp_updates.insert(EpochNo(10), votes);
    s.process_epoch_transition(EpochNo(11));
    assert_eq!(s.protocol_params.n_opt, 200);
    assert!(s.pending_pp_updates.is_empty());
    assert_eq!(
        s.ppup_enacted_log,
        Some("PPUP: enacted protocol parameter update epoch=11 changes=\"n_opt: 500 -> 200\"".to_string())
    );
}

#[test]
fn updates_for_later_epochs_wait() {
    let mut s = state();
    s.set_update_quorum(1);
    let mut early: Table<Hash32, ProtocolParamUpdate> = Table::new();
    early.insert([1; 32], n_opt(100));
    let mut late: Table<Hash32, ProtocolParamUpdate> = Table::new();
    late.insert([1; 32], n_opt(300));
    s.pending_pp_updates.insert(EpochNo(9), early);
    s.pending_pp_updates.insert(EpochNo(11), late);
    s.process_epoch_transition(EpochNo(11));
    assert_eq!(s.protocol_params.n_opt, 500);
    assert_eq!(s.pending_pp_updates.len(), 1);
    s.process_epoch_transition(EpochNo(12));
    assert_eq!(s.protocol_params.n_opt, 300);
}

#[test]
fn proposals_expire_and_return_their_deposit() {
    let mut s = state();
    let id = GovActionId { tx_hash: [1; 32], index: 3 };
    s.deposit_tracker.add_deposit([9; 32], DepositType::Governance(id), Lovelace(1_000));
    let p = ProposalProcedure {
        deposit: Lovelace(1_000),
        return_addr: Credential::Key([9; 32]),
        gov_action: GovernanceAction::InfoAction,
        anchor: None,
    };
    assert!(s.process_proposal(&id, &p).is_ok());
    for e in 11..=16 {
        s.process_epoch_transition(EpochNo(e));
        assert!(s.governance.proposals.contains_key(&id));
    }
    s.process_epoch_transition(EpochNo(17));
    assert!(s.governance.proposals.is_empty());
    assert_eq!(s.governance.last_expired, vec![id]);
    assert_eq!(s.reward_accounts.get(&[9; 32]), Some(&Lovelace(1_000)));
    assert_eq!(s.deposit_tracker.get_total_deposits(&[9; 32]), Lovelace(0));
}

#[test]
fn representatives_go_idle_and_members_leave() {
    let mut s = state();
    s.protocol_params.drep_activity_period = 2;
    s.governance.dreps.insert(
        [1; 32],
        DRepRegistration {
            credential: Credential::Key([1; 32]),
            deposit: Lovelace(0),
            anchor: None,
            registered_epoch: EpochNo(9),
            last_active_epoch: EpochNo(9),
            active: true,
            delegs: KeySet::new(),
        },
    );
    s.governance.committee_expiration.insert([5; 32], EpochNo(12));
    s.governance.committee_hot_keys.insert([5; 32], [6; 32]);
    s.process_epoch_transition(EpochNo(11));
    assert!(s.governance.dreps.get(&[1; 32]).unwrap().active);
    assert!(s.governance.committee_expiration.contains_key(&[5; 32]));
    s.process_epoch_transition(EpochNo(12));
    assert!(!s.governance.dreps.get(&[1; 32]).unwrap().active);
    assert!(s.governance.committee_expiration.is_empty());
    assert!(s.governance.committee_hot_keys.is_empty());
}

#[test]
fn the_power_of_representatives_is_kept() {
    let mut s = state();
    s.governance.vote_delegations.insert([11; 32], DRep::AlwaysAbstain);
    s.governance.vote_delegations.insert([12; 32], DRep::AlwaysNoConfidence);
    s.stake_distribution.stake_map.insert([11; 32], Lovelace(3));
    s.stake_distribution.stake_map.insert([12; 32], Lovelace(4));
    s.process_epoch_transition(EpochNo(11));
    assert_eq!(s.governance.drep_abstain_snapshot, 3);
    assert_eq!(s.governance.drep_no_confidence_snapshot, 4);
}

#[test]
fn a_checked_boundary_is_an_ordinary_one() {
    let mut a = state();
    a.epoch_fees = Lovelace(77);
    let mut b = state();
    b.epoch_fees = Lovelace(77);
    a.process_epoch_transition(EpochNo(11));
    assert_eq!(b.checked_epoch_transition(EpochNo(11)), Ok(()));
    assert_eq!(a.pending_reward_update.as_ref().unwrap().r_pot, b.pending_reward_update.as_ref().unwrap().r_pot);
    assert_eq!(a.epoch, b.epoch);
}

#[test]
fn rewards_that_cannot_be_counted_stop_the_boundary() {
    let mut s = state();
    let mut u = no_rewards();
    u.rewards.insert([1; 32], Lovelace(u64::MAX));
    u.rewards.insert([2; 32], Lovelace(1));
    s.pending_reward_update = Some(u);
    assert_eq!(s.checked_epoch_transition(EpochNo(11)), Err(Uncountable::Rewards));
    assert_eq!(s.epoch, EpochNo(10));
    assert!(s.pending_reward_update.is_some());
}

#[test]
fn votes_that_cannot_be_counted_stop_the_boundary() {
    let mut s = state();
    s.governance.vote_delegations.insert([11; 32], DRep::AlwaysAbstain);
    s.governance.vote_delegations.insert([12; 32], DRep::AlwaysAbstain);
    s.stake_distribution.stake_map.insert([11; 32], Lovelace(u64::MAX));
    s.stake_distribution.stake_map.insert([12; 32], Lovelace(1));
    assert_eq!(s.checked_epoch_transition(EpochNo(11)), Err(Uncountable::Votes));
    // nothing has happened
    assert_eq!(s.epoch, EpochNo(10));
    assert!(s.snapshots.mark.is_none());
}

#[test]
fn each_representative_is_counted_by_itself() {
    let mut s = state();
    s.governance.vote_delegations.insert([11; 32], DRep::AlwaysAbstain);
    s.governance.vote_delegations.insert([12; 32], DRep::AlwaysNoConfidence);
    s.stake_distribution.stake_map.insert([11; 32], Lovelace(u64::MAX));
    s.stake_distribution.stake_map.insert([12; 32], Lovelace(u64::MAX));
    assert_eq!(s.checked_epoch_transition(EpochNo(11)), Ok(()));
    assert_eq!(s.governance.drep_abstain_snapshot, u64::MAX);
    assert_eq!(s.governance.drep_no_confidence_snapshot, u64::MAX);
}

#[test]
fn power_that_cannot_be_counted_stops_the_boundary() {
    let mut s = state();
    // a kept power answers for the votes, and what is delegated now does not
    s.governance.drep_power_snapshot.insert([1; 32], 5);
    s.governance.vote_delegations.insert([11; 32], DRep::AlwaysAbstain);
    s.governance.vote_delegations.insert([12; 32], DRep::AlwaysAbstain);
    s.stake_distribution.stake_map.insert([11; 32], Lovelace(u64::MAX));
    s.stake_distribution.stake_map.insert([12; 32], Lovelace(1));
    assert_eq!(s.checked_epoch_transition(EpochNo(11)), Err(Uncountable::Power));
    assert_eq!(s.epoch, EpochNo(10));
}

#[test]
fn pots_that_cannot_be_counted_stop_the_boundary() {
    let mut s = state();
    s.reserves = Lovelace(u64::MAX);
    s.protocol_params.rho = Rational { numerator: 1, denominator: 1 };
    s.protocol_params.decentralization = Rational { numerator: 1, denominator: 1 };
    s.epoch_fees = Lovelace(1);
    assert_eq!(s.checked_epoch_transition(EpochNo(11)), Err(Uncountable::Pots));
    assert_eq!((s.epoch, s.epoch_fees), (EpochNo(10), Lovelace(1)));
}

#[test]
fn a_whole_boundary_keeps_all_lovelace() {
    let total = |s: &LedgerState| {
        s.treasury.0 + s.reserves.0 + (0..s.reward_accounts.len()).map(|i| s.reward_accounts.value_at(i).0).sum::<u64>()
    };
    let mut s = state();
    s.treasury = Lovelace(5);
    s.reserves = Lovelace(1_000_000);
    s.epoch_fees = Lovelace(77);
    let before = total(&s);
    // nothing is pending
    s.process_epoch_transition(EpochNo(11));
    assert_eq!(total(&s), before);
    // the fees of the first epoch come with its update
    s.epoch_fees = Lovelace(3);
    s.process_epoch_transition(EpochNo(12));
    assert_eq!(total(&s), before + 77);
}

#[test]
fn withdrawn_and_paid_lovelace_stays_in_the_ledger() {
    let mut s = state();
    s.treasury = Lovelace(100);
    let total = |s: &LedgerState| {
        s.treasury.0 + s.reserves.0 + (0..s.reward_accounts.len()).map(|i| s.reward_accounts.value_at(i).0).sum::<u64>()
    };
    let before = total(&s);
    s.enact_gov_action(&GovernanceAction::TreasuryWithdrawals {
        withdrawals: vec![(Credential::Key([1; 32]), Lovelace(60)), (Credential::Script([2; 32]), Lovelace(60))],
        guardrails_hash: None,
    });
    assert_eq!(s.reward_accounts.get(&[1; 32]), Some(&Lovelace(60)));
    assert_eq!(s.reward_accounts.get(&[2; 32]), Some(&Lovelace(40)));
    assert_eq!(total(&s), before);
}

#[test]
fn the_pots_grow_by_fees_and_deposits_at_most() {
    let mut s = state();
    s.protocol_params.decentralization = Rational { numerator: 1, denominator: 1 };
    s.epoch_fees = Lovelace(1_000);
    let before = s.treasury.0 + s.reserves.0;
    s.process_epoch_transition(EpochNo(11));
    assert_eq!(s.treasury.0 + s.reserves.0, before);
    s.process_epoch_transition(EpochNo(12));
    // nobody was paid, so the fees of the first epoch went to the pots
    assert_eq!(s.treasury.0 + s.reserves.0, before + 1_000);
}
