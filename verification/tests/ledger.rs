use hayate::genesis::{ByronBlockVersionData, ByronGenesis, ByronProtocolConsts};
use hayate::ledger::eras::{era_name, snapshot_era_name};
use hayate::ledger::nonce::blake2b_256;
use hayate::ledger::primitives::{ChainPointer, EpochNo, GovActionId, Hash32, Lovelace, ProtocolParameters};
use hayate::ledger::rebuild::{extract_stake_credential, UtxoOutput};
use hayate::ledger::snapshot::{delegation_rows, pool_stake_rows, stake_rows};
use hayate::ledger::state::{DepositTracker, DepositType, EpochSnapshots, LedgerState, StakeSnapshot};
use hayate::ledger::validation::{Transaction, ValidationError, ValidationMode};
use hayate::node::storage::UtxoEntry;
use hayate::table::{KeySet, Table};

const MAX_SUPPLY: u64 = 45_000_000_000_000_000;

fn empty_snapshot(epoch: u64) -> StakeSnapshot {
    StakeSnapshot {
        epoch: EpochNo(epoch),
        delegations: Table::new(),
        pool_stake: Table::new(),
        pool_params: Table::new(),
        stake_distribution: Table::new(),
        epoch_blocks_by_pool: Table::new(),
        script_stake_credentials: KeySet::new(),
    }
}

fn address(header: u8, payment: u8, stake: u8) -> Vec<u8> {
    let mut addr = vec![header];
    addr.extend_from_slice(&[payment; 28]);
    addr.extend_from_slice(&[stake; 28]);
    addr
}

// ---- genesis ----

#[test]
fn test_byron_genesis_total_calculation() {
    let mut genesis = ByronGenesis {
        avvm_distr: Table::new(),
        non_avvm_balances: Table::new(),
        start_time: 0,
        block_version_data: ByronBlockVersionData::default(),
        protocol_consts: ByronProtocolConsts::default(),
    };

    genesis.non_avvm_balances.insert("addr1".to_string(), "1000000000".to_string());
    genesis.non_avvm_balances.insert("addr2".to_string(), "2000000000".to_string());

    assert_eq!(genesis.total_genesis_lovelace(), 3000000000);
}

// ---- epoch transitions ----

#[test]
fn test_epoch_transition_basic() {
    let mut state = LedgerState::new(ProtocolParameters::default());
    state.epoch = EpochNo(100);

    state.process_epoch_transition(EpochNo(101));

    assert_eq!(state.epoch.0, 101);
    assert_eq!(state.epoch_fees.0, 0);
    assert_eq!(state.epoch_block_count, 0);
}

#[test]
fn epoch_test_snapshot_rotation() {
    let mut state = LedgerState::new(ProtocolParameters::default());
    state.epoch = EpochNo(100);

    state.snapshots = EpochSnapshots {
        mark: Some(empty_snapshot(100)),
        set: Some(empty_snapshot(99)),
        go: Some(empty_snapshot(98)),
        pay: None,
        current_epoch_fees: Lovelace(0),
    };

    state.process_epoch_transition(EpochNo(101));

    assert_eq!(state.snapshots.go.as_ref().unwrap().epoch.0, 99);
    assert_eq!(state.snapshots.set.as_ref().unwrap().epoch.0, 100);
    assert_eq!(state.snapshots.mark.as_ref().unwrap().epoch.0, 100);
    assert_eq!(state.snapshots.pay.as_ref().unwrap().epoch.0, 99);
}

#[test]
fn test_conservation_of_ada() {
    let mut state = LedgerState::new(ProtocolParameters::default());

    state.treasury = Lovelace(1_000_000_000);
    state.reserves = Lovelace(MAX_SUPPLY - 1_000_000_000);

    let total_supply = state.treasury.0 + state.reserves.0;
    assert!(total_supply <= MAX_SUPPLY, "Supply exceeds maximum");
}

#[test]
fn test_stake_distribution_bounds() {
    let mut state = LedgerState::new(ProtocolParameters::default());

    state.reserves = Lovelace(20_000_000_000_000_000);
    state.treasury = Lovelace(5_000_000_000_000_000);

    let cred1 = [1u8; 32];
    let cred2 = [2u8; 32];

    state.stake_distribution.stake_map.insert(cred1, Lovelace(1_000_000));
    state.stake_distribution.stake_map.insert(cred2, Lovelace(2_000_000));

    let stake_map = &state.stake_distribution.stake_map;
    let total_stake: u64 = (0..stake_map.len()).map(|i| stake_map.value_at(i).0).sum();

    let circulating = MAX_SUPPLY - state.reserves.0 - state.treasury.0;
    assert!(total_stake <= circulating, "Stake exceeds circulation");
}

#[test]
fn test_pool_stake_consistency() {
    let cred1 = [1u8; 32];
    let pool1 = [11u8; 28];

    let mut stake_map: Table<Hash32, Lovelace> = Table::new();
    stake_map.insert(cred1, Lovelace(5_000_000));

    let mut delegations: Table<Hash32, [u8; 28]> = Table::new();
    delegations.insert(cred1, pool1);

    let pool_stake: u64 = (0..delegations.len())
        .filter(|i| *delegations.value_at(*i) == pool1)
        .filter_map(|i| stake_map.get(delegations.key_at(i)))
        .map(|l| l.0)
        .sum();
    assert_eq!(pool_stake, 5_000_000);

    // the snapshot of a boundary says the same
    let mut state = LedgerState::new(ProtocolParameters::default());
    state.stake_distribution.stake_map = stake_map;
    state.delegations = delegations;
    state.process_epoch_transition(EpochNo(1));
    let mark = state.snapshots.mark.as_ref().unwrap();
    assert_eq!(mark.pool_stake.get(&pool1), Some(&Lovelace(5_000_000)));
}

#[test]
fn test_reward_account_bounds() {
    let cred1 = [1u8; 32];

    let mut reward_accounts: Table<Hash32, Lovelace> = Table::new();
    reward_accounts.insert(cred1, Lovelace(100_000));

    let total_rewards: u64 = (0..reward_accounts.len()).map(|i| reward_accounts.value_at(i).0).sum();
    assert!(total_rewards < MAX_SUPPLY, "Rewards exceed maximum");
}

#[test]
fn epoch_validation_test_snapshot_rotation() {
    let mut state = LedgerState::new(ProtocolParameters::default());

    let cred1 = [1u8; 32];
    state.stake_distribution.stake_map.insert(cred1, Lovelace(1_000_000));

    let mut mark_snapshot = empty_snapshot(0);
    for i in 0..state.stake_distribution.stake_map.len() {
        let key = *state.stake_distribution.stake_map.key_at(i);
        let value = *state.stake_distribution.stake_map.value_at(i);
        mark_snapshot.stake_distribution.insert(key, value);
    }

    assert_eq!(mark_snapshot.stake_distribution.get(&cred1), Some(&Lovelace(1_000_000)));
}

#[test]
fn test_epoch_boundary_immutability() {
    let mut state = LedgerState::new(ProtocolParameters::default());

    let cred1 = [1u8; 32];
    let pool = [7u8; 28];
    state.stake_distribution.stake_map.insert(cred1, Lovelace(1_000_000));

    let mut snapshot = empty_snapshot(0);
    snapshot.stake_distribution.insert(cred1, *state.stake_distribution.stake_map.get(&cred1).unwrap());

    state.stake_distribution.stake_map.insert(cred1, Lovelace(2_000_000));

    assert_eq!(
        snapshot.stake_distribution.get(&cred1),
        Some(&Lovelace(1_000_000)),
        "Snapshot should be immutable"
    );

    // and so is one that a boundary took
    state.delegations.insert(cred1, pool);
    state.process_epoch_transition(EpochNo(1));
    state.stake_distribution.stake_map.insert(cred1, Lovelace(9_000_000));
    let mark = state.snapshots.mark.as_ref().unwrap();
    assert_eq!(mark.pool_stake.get(&pool), Some(&Lovelace(2_000_000)));
}

#[test]
fn test_epoch_transition_preserves_invariants() {
    let mut state = LedgerState::new(ProtocolParameters::default());

    state.treasury = Lovelace(10_000_000_000);
    state.reserves = Lovelace(30_000_000_000_000_000);

    let treasury_before = state.treasury.0;
    let reserves_before = state.reserves.0;

    state.process_epoch_transition(EpochNo(1));

    let treasury_after = state.treasury.0;
    let reserves_after = state.reserves.0;

    assert_eq!(
        treasury_before + reserves_before,
        treasury_after + reserves_after,
        "Conservation violated during epoch transition"
    );
}

#[test]
fn test_multiple_epochs() {
    let mut state = LedgerState::new(ProtocolParameters::default());

    for epoch in 1..10 {
        state.process_epoch_transition(EpochNo(epoch));
        assert_eq!(state.epoch.0, epoch);
    }
}

// ---- eras and snapshots ----

#[test]
fn eras_are_named_by_version() {
    assert_eq!(era_name(1), "Byron");
    assert_eq!(era_name(2), "Shelley");
    assert_eq!(era_name(6), "Alonzo");
    assert_eq!(era_name(10), "Conway");
    assert_eq!(era_name(12), "Dijkstra");
    assert_eq!(era_name(13), "Unknown");
    assert_eq!(snapshot_era_name(13), "Dijkstra");
    assert_eq!(snapshot_era_name(7), "Babbage");
}

#[test]
fn test_snapshot_roundtrip() {
    let mut snapshot = empty_snapshot(42);
    snapshot.stake_distribution.insert([0xab; 32], Lovelace(7));
    snapshot.pool_stake.insert([0x01; 28], Lovelace(9));
    snapshot.delegations.insert([0xab; 32], [0x01; 28]);

    let stake = stake_rows(42, &snapshot);
    assert_eq!(stake, vec![(format!("stake:42:{}", "ab".repeat(32)), 7)]);
    let pools = pool_stake_rows(42, &snapshot);
    assert_eq!(pools, vec![(format!("pool_stake:42:{}", "01".repeat(28)), 9)]);
    let delegations = delegation_rows(42, &snapshot);
    assert_eq!(delegations, vec![(format!("delegation:42:{}", "ab".repeat(32)), [0x01; 28])]);
}

// ---- nonces ----

#[test]
fn test_blake2b_256() {
    let data = b"test";
    let hash = blake2b_256(data);
    assert_eq!(hash.len(), 32);
    let hash2 = blake2b_256(data);
    assert_eq!(hash, hash2);
}

#[test]
fn blake2b_of_nothing() {
    let hash = blake2b_256(b"");
    let text: String = hash.iter().map(|b| format!("{:02x}", b)).collect();
    assert_eq!(text, "0e5751c026e543b2e8ab2eb06099daa1d1e5df47778f7787faab45cdf12fe3a8");
}

#[test]
fn test_epoch_nonce_neutral() {
    let mut state = LedgerState::new(ProtocolParameters::default());
    state.candidate_nonce = [0u8; 32];
    state.last_epoch_block_nonce = [0u8; 32];
    state.compute_epoch_nonce();
    assert_eq!(state.epoch_nonce, [0u8; 32]);
}

#[test]
fn test_epoch_nonce_identity() {
    let mut state = LedgerState::new(ProtocolParameters::default());
    let test_nonce = [0xaa; 32];
    state.candidate_nonce = test_nonce;
    state.last_epoch_block_nonce = [0u8; 32];
    state.compute_epoch_nonce();
    assert_eq!(state.epoch_nonce, test_nonce);
}

#[test]
fn nonces_combine_by_hashing() {
    let mut state = LedgerState::new(ProtocolParameters::default());
    state.candidate_nonce = [1u8; 32];
    state.last_epoch_block_nonce = [2u8; 32];
    state.lab_nonce = [3u8; 32];
    state.compute_epoch_nonce();
    let mut both = vec![1u8; 32];
    both.extend_from_slice(&[2u8; 32]);
    assert_eq!(state.epoch_nonce, blake2b_256(&both));
    assert_eq!(state.last_epoch_block_nonce, [3u8; 32]);
}

#[test]
fn blocks_evolve_the_nonce() {
    let mut state = LedgerState::new(ProtocolParameters::default());
    state.evolving_nonce = [5u8; 32];
    state.update_evolving_nonce(&[9u8; 32]);
    let mut both = vec![5u8; 32];
    both.extend_from_slice(&[9u8; 32]);
    assert_eq!(state.evolving_nonce, blake2b_256(&both));
    state.update_evolving_nonce(&[]);
    assert_eq!(state.evolving_nonce, blake2b_256(&blake2b_256(&both)));
}

#[test]
fn test_candidate_nonce_freezing() {
    let mut state = LedgerState::new(ProtocolParameters::default());
    state.epoch_length = 100;
    state.shelley_transition_epoch = 0;
    state.byron_epoch_length = 100;
    state.randomness_stabilisation_window = 20;

    let test_evolving = [0xbb; 32];
    state.evolving_nonce = test_evolving;

    state.update_candidate_nonce(50);
    assert_eq!(state.candidate_nonce, test_evolving);

    state.update_candidate_nonce(79);
    assert_eq!(state.candidate_nonce, test_evolving);

    let new_evolving = [0xcc; 32];
    state.evolving_nonce = new_evolving;

    let frozen_value = state.candidate_nonce;
    state.update_candidate_nonce(80);
    assert_eq!(state.candidate_nonce, frozen_value);

    state.update_candidate_nonce(90);
    assert_eq!(state.candidate_nonce, frozen_value);
}

// ---- stake credentials ----

#[test]
fn pointers_with_indexes_beyond_32_bits_point_nowhere() {
    let at = |slot: u64, tx_index: u32, cert_index: u32| ChainPointer { slot, tx_index, cert_index };
    let mut pointers: Table<ChainPointer, [u8; 29]> = Table::new();
    pointers.insert(at(1, 0, 0), [7; 29]);
    pointers.insert(at(1, u32::MAX, 2), [8; 29]);
    let address = |pointer: &[u8]| {
        let mut a = vec![0x41];
        a.extend_from_slice(&[3; 28]);
        a.extend_from_slice(pointer);
        a
    };
    assert_eq!(extract_stake_credential(&address(&[1, 0, 0]), &pointers).unwrap()[..29], [7; 29]);
    // 2^32 does not stand for 0
    assert_eq!(extract_stake_credential(&address(&[1, 0x90, 0x80, 0x80, 0x80, 0, 0]), &pointers), None);
    assert_eq!(extract_stake_credential(&address(&[1, 0, 0x90, 0x80, 0x80, 0x80, 0]), &pointers), None);
    let last = [1, 0x8f, 0xff, 0xff, 0xff, 0x7f, 2];
    assert_eq!(extract_stake_credential(&address(&last), &pointers).unwrap()[..29], [8; 29]);
}

#[test]
fn test_extract_stake_credential_base_address_type0() {
    let addr = address(0x01, 0xaa, 0xbb);
    let cred = extract_stake_credential(&addr, &Table::new()).unwrap();
    assert_eq!(&cred[..28], &[0xbb; 28]);
    assert_eq!(cred[28], 0x00);
    assert_eq!(&cred[29..], &[0, 0, 0]);
}

#[test]
fn test_extract_stake_credential_base_address_type1() {
    let addr = address(0x11, 0xaa, 0xbb);
    let cred = extract_stake_credential(&addr, &Table::new()).unwrap();
    assert_eq!(&cred[..28], &[0xbb; 28]);
    assert_eq!(cred[28], 0x00);
}

#[test]
fn test_extract_stake_credential_base_address_type2() {
    let addr = address(0x21, 0xaa, 0xcc);
    let cred = extract_stake_credential(&addr, &Table::new()).unwrap();
    assert_eq!(&cred[..28], &[0xcc; 28]);
    assert_eq!(cred[28], 0x01);
}

#[test]
fn test_extract_stake_credential_base_address_type3() {
    let addr = address(0x31, 0xaa, 0xdd);
    let cred = extract_stake_credential(&addr, &Table::new()).unwrap();
    assert_eq!(&cred[..28], &[0xdd; 28]);
    assert_eq!(cred[28], 0x01);
}

#[test]
fn test_extract_stake_credential_reward_address() {
    let mut addr = vec![0xe1];
    addr.extend_from_slice(&[0xcc; 28]);

    let cred = extract_stake_credential(&addr, &Table::new()).unwrap();
    assert_eq!(&cred[..28], &[0xcc; 28]);
    assert_eq!(cred[28], 0x00);
}

#[test]
fn test_extract_stake_credential_reward_address_script() {
    let mut addr = vec![0xf1];
    addr.extend_from_slice(&[0xee; 28]);

    let cred = extract_stake_credential(&addr, &Table::new()).unwrap();
    assert_eq!(&cred[..28], &[0xee; 28]);
    assert_eq!(cred[28], 0x01);
}

#[test]
fn test_extract_stake_credential_enterprise() {
    let mut addr = vec![0x61];
    addr.extend_from_slice(&[0xaa; 28]);

    let cred = extract_stake_credential(&addr, &Table::new());
    assert!(cred.is_none());
}

#[test]
fn test_all_base_address_types_are_57_bytes() {
    for addr_type in [0x00u8, 0x10, 0x20, 0x30] {
        let addr = address(addr_type | 0x01, 0xaa, 0xbb);
        assert_eq!(addr.len(), 57, "type {:#04x} address should be 57 bytes", addr_type);
        let cred = extract_stake_credential(&addr, &Table::new());
        assert!(cred.is_some(), "type {:#04x} should extract stake credential", addr_type);
        let expected_tag = if addr_type >= 0x20 { 0x01 } else { 0x00 };
        assert_eq!(
            cred.unwrap()[28],
            expected_tag,
            "type {:#04x} should have tag {:#04x}",
            addr_type,
            expected_tag
        );
    }
}

#[test]
fn test_same_hash_different_type_produces_different_hash32() {
    let addr_key = address(0x01, 0xaa, 0xab);
    let addr_script = address(0x31, 0xaa, 0xab);

    let cred_key = extract_stake_credential(&addr_key, &Table::new()).unwrap();
    let cred_script = extract_stake_credential(&addr_script, &Table::new()).unwrap();

    assert_eq!(&cred_key[..28], &cred_script[..28]);
    assert_eq!(cred_key[28], 0x00);
    assert_eq!(cred_script[28], 0x01);
    assert_ne!(cred_key, cred_script);
}

#[test]
fn test_rebuild_stake_distribution() {
    let mut state = LedgerState::new(ProtocolParameters::default());

    let utxos = vec![
        UtxoOutput { address: address(0x01, 0xaa, 0xbb), coin: 1_000_000 },
        UtxoOutput { address: address(0x01, 0xaa, 0xbb), coin: 2_000_000 },
    ];

    state.rebuild_stake_distribution(&utxos);

    let mut expected_cred = [0u8; 32];
    expected_cred[..28].copy_from_slice(&[0xbb; 28]);

    assert_eq!(state.stake_distribution.stake_map.get(&expected_cred), Some(&Lovelace(3_000_000)));
}

// ---- deposits ----

#[test]
fn test_deposits_voting_vs_staking() {
    let mut tracker = DepositTracker::new();
    let cred = [1u8; 32];
    let gov_action = GovActionId { tx_hash: [2u8; 32], index: 0 };

    tracker.add_deposit(cred, DepositType::Pool, Lovelace(500_000_000));
    tracker.add_deposit(cred, DepositType::Stake, Lovelace(2_000_000));
    tracker.add_deposit(cred, DepositType::Governance(gov_action), Lovelace(100_000_000_000));
    tracker.add_deposit(cred, DepositType::DRep, Lovelace(500_000_000));

    let voting = tracker.get_voting_stake(&cred);
    let staking = tracker.get_staking_stake(&cred);

    assert_eq!(voting.0, 500_000_000 + 2_000_000 + 100_000_000_000 + 500_000_000);
    assert_eq!(staking.0, 500_000_000 + 2_000_000);
    assert!(voting.0 > staking.0);
}

#[test]
fn deposits_come_back_once() {
    let mut tracker = DepositTracker::new();
    let cred = [1u8; 32];
    let other = [9u8; 32];
    let first = GovActionId { tx_hash: [2u8; 32], index: 0 };
    let second = GovActionId { tx_hash: [2u8; 32], index: 1 };
    tracker.add_deposit(cred, DepositType::Governance(first), Lovelace(10));
    tracker.add_deposit(cred, DepositType::Governance(second), Lovelace(20));
    assert_eq!(tracker.governance_deposits_by_return_cred(&cred), 30);
    assert_eq!(tracker.get_total_deposits(&other), Lovelace(0));
    assert_eq!(tracker.refund_deposit(&cred, DepositType::Governance(first)), Some(Lovelace(10)));
    assert_eq!(tracker.refund_deposit(&cred, DepositType::Governance(first)), None);
    assert_eq!(tracker.get_total_deposits(&cred), Lovelace(20));
    assert_eq!(tracker.refund_deposit(&other, DepositType::Pool), None);
    tracker.add_deposit(cred, DepositType::Pool, Lovelace(5));
    assert_eq!(tracker.refund_deposit(&cred, DepositType::Pool), Some(Lovelace(5)));
    assert_eq!(tracker.get_staking_stake(&cred), Lovelace(0));
}

// ---- validation ----

#[test]
fn test_disabled_mode_always_valid() {
    let state = LedgerState::new(ProtocolParameters::default());
    let tx = Transaction {};
    let result = state.validate_transaction(&tx, ValidationMode::Disabled);
    assert!(result.is_ok());
    assert!(result.unwrap());
}

#[test]
fn test_phase1_not_implemented() {
    let state = LedgerState::new(ProtocolParameters::default());
    let tx = Transaction {};
    let result = state.validate_transaction(&tx, ValidationMode::Phase1Only);
    assert!(result.is_err());
}

#[test]
fn test_full_not_implemented() {
    let state = LedgerState::new(ProtocolParameters::default());
    let tx = Transaction {};
    let result = state.validate_transaction(&tx, ValidationMode::Full);
    assert!(result.is_err());
}

#[test]
fn validation_errors_have_words() {
    let e = ValidationError::NotImplemented("x".to_string());
    assert_eq!(e.text(), "Not implemented: x");
    let e = ValidationError::StructuralError("y".to_string());
    assert_eq!(e.text(), "Structural error: y");
    let e = ValidationError::ScriptExecutionFailed("z".to_string());
    assert_eq!(e.text(), "Script execution failed: z");
}

// ---- reward accounts ----

#[test]
fn test_reward_account_to_hash() {
    let mut account = vec![0xe1];
    account.extend_from_slice(&[0xaa; 28]);

    let hash = LedgerState::reward_account_to_hash(&account);
    assert_eq!(&hash[..28], &[0xaa; 28]);
    assert_eq!(&hash[28..], &[0, 0, 0, 0]);
}

// ---- slots ----

#[test]
fn slots_belong_to_epochs() {
    let mut state = LedgerState::new(ProtocolParameters::default());
    state.set_epoch_length(100);
    assert_eq!(state.epoch_of_slot(0), 0);
    assert_eq!(state.epoch_of_slot(99), 0);
    assert_eq!(state.epoch_of_slot(100), 1);
    assert_eq!(state.slot_within_epoch(250), (50, 100));

    // two Byron epochs of ten slots come first
    state.has_byron = true;
    state.set_shelley_transition(2, 10);
    assert_eq!(state.epoch_of_slot(19), 1);
    assert_eq!(state.epoch_of_slot(20), 2);
    assert_eq!(state.epoch_of_slot(119), 2);
    assert_eq!(state.epoch_of_slot(120), 3);
    assert_eq!(state.slot_within_epoch(19), (9, 10));
    assert_eq!(state.slot_within_epoch(121), (1, 100));
    assert_eq!(state.first_slot_of_epoch(1), 10);
    assert_eq!(state.first_slot_of_epoch(3), 120);
    assert!(!state.is_shelley_plus_epoch(1));
    assert!(state.is_shelley_plus_epoch(2));
}

#[test]
fn the_lab_nonce_is_the_previous_hash() {
    let mut state = LedgerState::new(ProtocolParameters::default());
    state.update_lab_nonce([7u8; 32]);
    assert_eq!(state.lab_nonce, [7u8; 32]);
}

#[test]
fn stake_is_rebuilt_from_stored_outputs() {
    let mut state = LedgerState::new(ProtocolParameters::default());
    let mut base = vec![0x01u8];
    base.extend_from_slice(&[3u8; 28]);
    base.extend_from_slice(&[4u8; 28]);
    let entry = |address: &Vec<u8>, amount: u64, cred: Option<Vec<u8>>| UtxoEntry {
        address: address.clone(),
        amount,
        assets: vec![],
        datum_hash: None,
        datum: None,
        script_ref: None,
        stake_credential: cred,
    };
    state.rebuild_from_utxo_tree(&vec![
        entry(&base, 30, Some(vec![4u8; 28])),
        entry(&base, 12, Some(vec![4u8; 28])),
        entry(&base, 500, None),
        entry(&base, 500, Some(vec![4u8; 5])),
    ]);
    assert_eq!(state.stake_distribution.stake_map.len(), 1);
    assert_eq!(*state.stake_distribution.stake_map.value_at(0), Lovelace(42));
}

#[test]
fn later_slots_have_no_earlier_epochs() {
    let mut state = LedgerState::new(ProtocolParameters::default());
    state.set_epoch_length(100);
    state.has_byron = true;
    state.set_shelley_transition(3, 10);
    let epochs: Vec<u64> = (0..400).map(|slot| state.epoch_of_slot(slot)).collect();
    assert!(epochs.windows(2).all(|w| w[0] <= w[1]));
    assert_eq!((epochs[29], epochs[30], epochs[129], epochs[130]), (2, 3, 3, 4));
}

#[test]
fn deposits_of_one_kind_leave_the_others() {
    let mut tracker = DepositTracker::new();
    let id = GovActionId { tx_hash: [1u8; 32], index: 0 };
    tracker.add_deposit([1u8; 32], DepositType::Stake, Lovelace(2));
    tracker.add_deposit([1u8; 32], DepositType::Governance(id), Lovelace(1_000));
    tracker.add_deposit([2u8; 32], DepositType::Pool, Lovelace(500));
    assert_eq!(tracker.refund_deposit(&[1u8; 32], DepositType::Governance(id)), Some(Lovelace(1_000)));
    assert_eq!(tracker.get_total_deposits(&[1u8; 32]), Lovelace(2));
    assert_eq!(tracker.get_total_deposits(&[2u8; 32]), Lovelace(500));
    assert_eq!(tracker.refund_deposit(&[1u8; 32], DepositType::DRep), None);
}
