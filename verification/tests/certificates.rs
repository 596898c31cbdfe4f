use hayate::ledger::certificates::is_conway_only_certificate;
use hayate::ledger::primitives::{
    Certificate, Credential, DRep, EpochNo, Lovelace, MIRSource, MIRTarget, PoolParams, ProtocolParameters, Rational,
};
use hayate::ledger::state::LedgerState;

fn state() -> LedgerState {
    LedgerState::new(ProtocolParameters::default())
}

fn pool(id: u8, pledge: u64) -> PoolParams {
    PoolParams {
        operator: [id; 28],
        vrf_keyhash: [0; 32],
        pledge: Lovelace(pledge),
        cost: Lovelace(340_000_000),
        margin: Rational { numerator: 1, denominator: 100 },
        reward_account: vec![0xe1; 29],
        pool_owners: vec![[id; 28]],
        relays: vec![],
        pool_metadata: None,
    }
}

#[test]
fn registration_opens_an_account_and_deregistration_closes_it() {
    let mut s = state();
    let c = Credential::Script([4; 32]);
    s.process_certificate(&Certificate::StakeRegistration(c));
    assert_eq!(s.reward_accounts.get(&[4; 32]), Some(&Lovelace(0)));
    assert_eq!(s.stake_distribution.stake_map.get(&[4; 32]), Some(&Lovelace(0)));
    assert!(s.script_stake_credentials.contains(&[4; 32]));
    s.process_certificate(&Certificate::StakeDelegation { credential: c, pool_hash: [1; 28] });
    assert_eq!(s.delegations.get(&[4; 32]), Some(&[1; 28]));
    s.process_certificate(&Certificate::StakeDeregistration(c));
    assert!(s.reward_accounts.get(&[4; 32]).is_none());
    assert!(s.stake_distribution.stake_map.get(&[4; 32]).is_none());
    assert!(s.delegations.get(&[4; 32]).is_none());
    assert!(!s.script_stake_credentials.contains(&[4; 32]));
}

#[test]
fn an_account_with_a_balance_stays_open() {
    let mut s = state();
    let c = Credential::Key([4; 32]);
    s.process_certificate(&Certificate::StakeRegistration(c));
    s.reward_accounts.insert([4; 32], Lovelace(5));
    s.process_certificate(&Certificate::StakeDeregistration(c));
    assert_eq!(s.reward_accounts.get(&[4; 32]), Some(&Lovelace(5)));
    // registering again changes nothing
    s.process_certificate(&Certificate::StakeRegistration(c));
    assert_eq!(s.reward_accounts.get(&[4; 32]), Some(&Lovelace(5)));
    // the Conway certificate closes it all the same
    s.process_certificate(&Certificate::ConwayStakeDeregistration { credential: c, refund: Lovelace(0) });
    assert!(s.reward_accounts.get(&[4; 32]).is_none());
}

#[test]
fn withdrawals_empty_the_account() {
    let mut s = state();
    let mut account = vec![0xe1];
    account.extend_from_slice(&[7; 28]);
    let key = LedgerState::reward_account_to_hash(&account);
    s.process_withdrawal(&account, Lovelace(3));
    assert!(s.reward_accounts.get(&key).is_none());
    s.reward_accounts.insert(key, Lovelace(9));
    s.process_withdrawal(&account, Lovelace(3));
    assert_eq!(s.reward_accounts.get(&key), Some(&Lovelace(0)));
}

#[test]
fn a_pool_that_registers_again_waits_and_does_not_retire() {
    let mut s = state();
    s.epoch = EpochNo(5);
    s.process_certificate(&Certificate::PoolRegistration(pool(1, 10)));
    assert_eq!(s.pool_params.get(&[1; 28]).unwrap().pledge, Lovelace(10));
    s.process_certificate(&Certificate::PoolRetirement { pool_hash: [1; 28], epoch: 7 });
    assert_eq!(s.pending_retirements.get(&[1; 28]), Some(&EpochNo(7)));
    s.process_certificate(&Certificate::PoolRegistration(pool(1, 20)));
    assert_eq!(s.pool_params.get(&[1; 28]).unwrap().pledge, Lovelace(10));
    assert_eq!(s.future_pool_params.get(&[1; 28]).unwrap().pledge, Lovelace(20));
    assert!(s.pending_retirements.get(&[1; 28]).is_none());
    s.process_epoch_transition(EpochNo(6));
    assert_eq!(s.pool_params.get(&[1; 28]).unwrap().pledge, Lovelace(20));
    assert!(s.future_pool_params.is_empty());
}

#[test]
fn a_retirement_too_far_ahead_is_ignored() {
    let mut s = state();
    s.epoch = EpochNo(5);
    let last = 5 + s.protocol_params.e_max;
    s.process_certificate(&Certificate::PoolRetirement { pool_hash: [1; 28], epoch: last + 1 });
    assert!(s.pending_retirements.is_empty());
    s.process_certificate(&Certificate::PoolRetirement { pool_hash: [1; 28], epoch: last });
    assert_eq!(s.pending_retirements.get(&[1; 28]), Some(&EpochNo(last)));
}

#[test]
fn conway_certificates_wait_for_conway() {
    let mut s = state();
    s.protocol_params.protocol_version_major = 8;
    let c = Credential::Key([4; 32]);
    let reg = Certificate::ConwayStakeRegistration { credential: c, deposit: Lovelace(2_000_000) };
    assert!(is_conway_only_certificate(&reg));
    assert!(!is_conway_only_certificate(&Certificate::StakeRegistration(c)));
    s.process_certificate(&reg);
    assert!(s.reward_accounts.is_empty());
    s.protocol_params.protocol_version_major = 9;
    s.process_certificate(&reg);
    assert_eq!(s.reward_accounts.len(), 1);
}

#[test]
fn votes_end_with_the_representative() {
    let mut s = state();
    let drep = Credential::Key([8; 32]);
    let voter = Credential::Key([4; 32]);
    s.process_certificate(&Certificate::RegDRep { credential: drep, deposit: Lovelace(500), anchor: None });
    assert_eq!(s.governance.drep_registration_count, 1);
    assert!(s.governance.dreps.get(&[8; 32]).unwrap().active);
    s.process_certificate(&Certificate::VoteDelegation { credential: voter, drep: DRep::KeyHash([8; 32]) });
    assert_eq!(s.governance.vote_delegations.get(&[4; 32]), Some(&DRep::KeyHash([8; 32])));
    assert!(s.governance.dreps.get(&[8; 32]).unwrap().delegs.contains(&[4; 32]));
    s.process_certificate(&Certificate::UnregDRep { credential: drep, refund: Lovelace(500) });
    assert!(s.governance.dreps.is_empty());
    assert!(s.governance.vote_delegations.is_empty());
}

#[test]
fn a_vote_moves_from_one_representative_to_the_next() {
    let mut s = state();
    let voter = Credential::Key([4; 32]);
    for h in [[8; 32], [9; 32]] {
        s.process_certificate(&Certificate::RegDRep {
            credential: Credential::Key(h),
            deposit: Lovelace(500),
            anchor: None,
        });
    }
    s.process_certificate(&Certificate::VoteDelegation { credential: voter, drep: DRep::KeyHash([8; 32]) });
    s.process_certificate(&Certificate::VoteDelegation { credential: voter, drep: DRep::KeyHash([9; 32]) });
    assert!(!s.governance.dreps.get(&[8; 32]).unwrap().delegs.contains(&[4; 32]));
    assert!(s.governance.dreps.get(&[9; 32]).unwrap().delegs.contains(&[4; 32]));
    // at version 9 the first representative keeps the entry
    s.protocol_params.protocol_version_major = 9;
    s.process_certificate(&Certificate::VoteDelegation { credential: voter, drep: DRep::KeyHash([8; 32]) });
    assert!(s.governance.dreps.get(&[9; 32]).unwrap().delegs.contains(&[4; 32]));
    assert_eq!(s.governance.vote_delegations.get(&[4; 32]), Some(&DRep::KeyHash([8; 32])));
}

#[test]
fn committee_members_authorize_and_resign() {
    let mut s = state();
    let cold = Credential::Script([1; 32]);
    let hot = Credential::Key([2; 32]);
    s.process_certificate(&Certificate::CommitteeHotAuth { cold_credential: cold, hot_credential: hot });
    assert_eq!(s.governance.committee_hot_keys.get(&[1; 32]), Some(&[2; 32]));
    assert!(s.governance.script_committee_credentials.contains(&[1; 32]));
    s.process_certificate(&Certificate::CommitteeColdResign { cold_credential: cold, anchor: None });
    assert!(s.governance.committee_hot_keys.is_empty());
    assert!(s.governance.committee_resigned.contains_key(&[1; 32]));
    s.process_certificate(&Certificate::CommitteeHotAuth { cold_credential: cold, hot_credential: hot });
    assert!(s.governance.committee_resigned.is_empty());
}

#[test]
fn pots_pay_credentials_and_each_other() {
    let mut s = state();
    s.reserves = Lovelace(1_000);
    s.treasury = Lovelace(100);
    s.process_certificate(&Certificate::MoveInstantaneousRewardsCert {
        source: MIRSource::Reserves,
        target: MIRTarget::OtherPot(Lovelace(300)),
    });
    assert_eq!((s.reserves, s.treasury), (Lovelace(700), Lovelace(400)));
    // no more than there is
    s.process_certificate(&Certificate::MoveInstantaneousRewardsCert {
        source: MIRSource::Treasury,
        target: MIRTarget::OtherPot(Lovelace(9_999)),
    });
    assert_eq!((s.reserves, s.treasury), (Lovelace(1_100), Lovelace(0)));
    s.process_certificate(&Certificate::MoveInstantaneousRewardsCert {
        source: MIRSource::Reserves,
        target: MIRTarget::StakeCredentials(vec![
            (Credential::Key([1; 32]), Lovelace(10)),
            (Credential::Key([1; 32]), Lovelace(5)),
            (Credential::Key([2; 32]), Lovelace(1)),
        ]),
    });
    assert_eq!(s.reserves, Lovelace(1_084));
    assert_eq!(s.reward_accounts.get(&[1; 32]), Some(&Lovelace(15)));
    assert_eq!(s.reward_accounts.get(&[2; 32]), Some(&Lovelace(1)));
}
