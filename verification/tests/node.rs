use hayate::genesis::ConwayGenesis;
use hayate::ledger::countable::Uncountable;
use hayate::ledger::primitives::{
    Certificate, ChainPointer, Credential, DRep, EpochNo, GovActionId, GovernanceAction, Lovelace, PoolParams,
    ProtocolParamUpdate,
    ProtocolParameters, Rational, Vote, Voter,
};
use hayate::ledger::state::{DepositType, LedgerState};
use hayate::node::block::{
    byron_entry, credential_of_account, output_entry, spend_outputs, tx_fee, DatumData, OutputData, ProposalData,
    TxData, UpdateData,
};
use hayate::node::describe::describe_gov_action;
use hayate::node::header::{
    extract_pool_id_from_block, extract_stake_credential, parse_block_with_nonce, pool_of_issuer, roll_nonce,
    ParsedBlock,
};
use hayate::node::storage::{
    can_count, epoch_of_file, epoch_to_slot, find_latest_consistent_epoch, is_epoch_boundary, is_pointer_address, slot_to_epoch,
    snapshot_name, utxo_key, Network, StakeTracker, UtxoEntry,
};
use hayate::node::sync::{Step, SyncState};
use hayate::table::Table;

const BLOCK: &str = "820785828a071a000186a058200101010101010101010101010101010101010101010101010101010101010101582002020202020202020202020202020202020202020202020202020202020202025820030303030303030303030303030303030303030303030303030303030303030382584004040404040404040404040404040404040404040404040404040404040404040404040404040404040404040404040404040404040404040404040404040404585005050505050505050505050505050505050505050505050505050505050505050505050505050505050505050505050505050505050505050505050505050505050505050505050505050505050505050a58200606060606060606060606060606060606060606060606060606060606060606845820070707070707070707070707070707070707070707070707070707070707070700015840080808080808080808080808080808080808080808080808080808080808080808080808080808080808080808080808080808080808080808080808080808088209005840090909090909090909090909090909090909090909090909090909090909090909090909090909090909090909090909090909090909090909090909090909098080a080";

fn ledger() -> LedgerState {
    LedgerState::new(ProtocolParameters::default())
}

fn entry(first: u8, amount: u64, cred: Option<u8>) -> UtxoEntry {
    UtxoEntry {
        address: vec![first; 57],
        amount,
        assets: vec![],
        datum_hash: None,
        datum: None,
        script_ref: None,
        stake_credential: cred.map(|c| vec![c; 28]),
    }
}

fn header(slot: u64) -> ParsedBlock {
    ParsedBlock {
        slot,
        hash: vec![8; 32],
        tx_count: 3,
        vrf_output: None,
        is_praos: true,
        is_conway: false,
        is_byron: false,
        is_ebb: false,
        byron_update: None,
        issuer_vkey: None,
    }
}

fn tx() -> TxData {
    TxData {
        hash: [5; 32],
        valid: true,
        conway: true,
        certs: vec![],
        update: None,
        proposals: vec![],
        votes: vec![],
        donation: None,
        withdrawals: vec![],
        fee: Some(170_000),
        total_collateral: None,
        collateral_return: None,
    }
}

fn account(header: u8, b: u8) -> Vec<u8> {
    let mut a = vec![header];
    a.extend_from_slice(&[b; 28]);
    a
}

fn padded(b: u8) -> [u8; 32] {
    let mut k = [b; 32];
    k[28..].fill(0);
    k
}

// ---- blocks and addresses ----

#[test]
fn a_block_is_read() {
    let b = parse_block_with_nonce(&hex::decode(BLOCK).unwrap()).unwrap();
    assert_eq!((b.slot, b.tx_count), (100_000, 0));
    assert!(b.is_conway && b.is_praos && !b.is_byron && !b.is_ebb);
    assert_eq!(hex::encode(&b.hash), "568007a02dd5abf5415e0f3e29bf70fe5ed41f1c8360a481b100082e5a90741b");
    assert_eq!(b.vrf_output, Some(vec![4; 64]));
    assert_eq!(b.issuer_vkey, Some(vec![2; 32]));
    assert_eq!(b.byron_update, None);
    assert_eq!(
        hex::encode(extract_pool_id_from_block(&b).unwrap()),
        "06a33bda74565981b26cd62208cbcc87bcf860cb874e1c69fb533147"
    );
}

#[test]
fn bytes_that_are_no_block_are_refused() {
    assert!(matches!(parse_block_with_nonce(&[]), Err(e) if e.starts_with("Failed to decode block: ")));
    assert!(parse_block_with_nonce(&[0x82, 0x07, 0x80]).is_err());
}

#[test]
fn pools_are_known_by_the_digest_of_their_key() {
    assert_eq!(
        hex::encode(pool_of_issuer(&Some(vec![0; 32])).unwrap()),
        "f9dca21a6c826ec8acb4cf395cbc24351937bfe6560b2683ab8b415f"
    );
    assert_eq!(pool_of_issuer(&Some(vec![0; 31])), None);
    assert_eq!(pool_of_issuer(&None), None);
}

#[test]
fn nonces_roll() {
    let expected = "a0bde70b275ba3de8bfb89e60a2aa1f8ead34d3314de7b6e1a36868c5bca8aaf";
    assert_eq!(hex::encode(roll_nonce(&None, &Some(vec![7; 32])).unwrap()), expected);
    // only the first 32 bytes count
    let mut long = vec![7; 32];
    long.extend_from_slice(&[1; 32]);
    assert_eq!(hex::encode(roll_nonce(&Some([0; 32]), &Some(long)).unwrap()), expected);
    assert_eq!(roll_nonce(&Some([9; 32]), &None), Some([9; 32]));
    assert_eq!(roll_nonce(&Some([9; 32]), &Some(vec![1; 31])), Some([9; 32]));
    assert_eq!(roll_nonce(&None, &None), None);
}

#[test]
fn addresses_delegate_to_credentials() {
    let mut base = vec![0x01];
    base.extend_from_slice(&[3; 28]);
    base.extend_from_slice(&[4; 28]);
    assert_eq!(extract_stake_credential(&base), Ok(Some(vec![4; 28])));
    assert_eq!(extract_stake_credential(&account(0x61, 3)), Ok(None));
    assert_eq!(extract_stake_credential(&[]), Err("Failed to parse address: address header not found".to_string()));
    assert!(extract_stake_credential(&base[..40]).is_err());
}

// ---- epochs and keys ----

#[test]
fn slots_and_epochs_of_networks() {
    assert_eq!(slot_to_epoch(86_399, &Network::Preview), 0);
    assert_eq!(slot_to_epoch(86_400, &Network::Preview), 1);
    assert_eq!(slot_to_epoch(86_400, &Network::Mainnet), 0);
    assert!(is_epoch_boundary(431_999, &Network::Preprod));
    assert!(!is_epoch_boundary(432_000, &Network::Preprod));
    assert_eq!(epoch_to_slot(2, &Network::SanchoNet), 172_800);
    assert_eq!(slot_to_epoch(epoch_to_slot(7, &Network::Mainnet), &Network::Mainnet), 7);
    assert_eq!(Network::Custom("mine".to_string()).as_str(), "mine");
    assert_eq!(Network::SanchoNet.as_str(), "sanchonet");
}

#[test]
fn output_keys_hold_hash_and_index() {
    let k = utxo_key(&[9; 32], 0x0102_0304);
    assert_eq!(&k[..32], &[9; 32]);
    assert_eq!(&k[32..], &[1, 2, 3, 4]);
    assert_ne!(utxo_key(&[9; 32], 1), utxo_key(&[9; 32], 2));
}

// ---- stake ----

#[test]
fn outputs_come_and_go() {
    let mut t = StakeTracker::new();
    let e = entry(0x01, 50, Some(4));
    assert!(t.has_room(&e));
    t.add_output(&e);
    t.add_output(&entry(0x01, 20, Some(4)));
    t.add_output(&entry(0x61, 20, None));
    assert_eq!(t.current_stake().get(&vec![4; 28]), Some(&70));
    t.remove_output(&e);
    assert_eq!(t.current_stake().get(&vec![4; 28]), Some(&20));
    t.remove_output(&entry(0x01, 20, Some(4)));
    assert!(t.current_stake().is_empty());
    t.add_output(&entry(0x01, u64::MAX, Some(4)));
    assert!(!t.has_room(&entry(0x01, 1, Some(4))));
    assert!(can_count(&vec![entry(0x01, u64::MAX, Some(4)), entry(0x01, 1, Some(5)), entry(0x01, 1, None)]));
    assert!(!can_count(&vec![entry(0x01, u64::MAX, Some(4)), entry(0x01, 1, Some(4))]));
}

#[test]
fn pointer_stake_ends_with_conway() {
    assert!(is_pointer_address(&[0x41, 0]));
    assert!(is_pointer_address(&[0x51, 0]));
    assert!(!is_pointer_address(&[0x01, 0]));
    assert!(!is_pointer_address(&[]));
    let mut t = StakeTracker::new();
    let outputs = vec![entry(0x41, 30, Some(4)), entry(0x01, 50, Some(4))];
    t.rebuild(&outputs);
    assert_eq!(t.current_stake().get(&vec![4; 28]), Some(&80));
    t.purge_pointer_stake_for_conway(&outputs);
    assert_eq!(t.current_stake().get(&vec![4; 28]), Some(&50));
    t.add_output(&entry(0x41, 30, Some(4)));
    assert_eq!(t.current_stake().get(&vec![4; 28]), Some(&50));
    let mut u = StakeTracker::new();
    u.rebuild(&outputs);
    u.set_skip_pointer_stake();
    u.remove_output(&outputs[0]);
    assert_eq!(u.current_stake().get(&vec![4; 28]), Some(&80));
}

#[test]
fn outputs_are_spent_once() {
    let mut t = StakeTracker::new();
    t.add_output(&entry(0x01, 30, Some(4)));
    t.add_output(&entry(0x01, 50, Some(4)));
    assert_eq!(spend_outputs(&mut t, &vec![Some(entry(0x01, 50, Some(4))), None]), 50);
    assert_eq!(t.current_stake().get(&vec![4; 28]), Some(&30));
    // the store no longer finds it
    assert_eq!(spend_outputs(&mut t, &vec![None]), 0);
    assert_eq!(t.current_stake().get(&vec![4; 28]), Some(&30));
}

#[test]
fn spent_outputs_leave_the_stake() {
    let mut t = StakeTracker::new();
    t.add_output(&entry(0x01, 50, Some(4)));
    t.add_output(&entry(0x01, 7, Some(5)));
    let value = spend_outputs(&mut t, &vec![Some(entry(0x01, 50, Some(4))), None, Some(entry(0x01, 7, Some(5)))]);
    assert_eq!(value, 57);
    assert!(t.current_stake().is_empty());
}

// ---- snapshots ----

#[test]
fn snapshots_are_found_by_name() {
    assert_eq!(snapshot_name(42), "epoch-0000000042");
    assert_eq!(snapshot_name(u64::MAX), "epoch-18446744073709551615");
    assert_eq!(epoch_of_file(&format!("{}.bin", snapshot_name(42))), Some(42));
    assert_eq!(epoch_of_file("epoch-0000000042.bin.tmp"), None);
    assert_eq!(epoch_of_file("other.bin"), None);
}

#[test]
fn the_latest_complete_snapshot_is_restored() {
    let files = |l: &[(&str, bool)]| l.iter().map(|(n, b)| (n.to_string(), *b)).collect::<Vec<(String, bool)>>();
    assert_eq!(find_latest_consistent_epoch(&vec![]), None);
    assert_eq!(
        find_latest_consistent_epoch(&files(&[
            ("epoch-0000000003.bin", true),
            ("epoch-0000000005.bin", true),
            ("epoch-0000000004.bin", true),
        ])),
        Some(5)
    );
    // a file without its metadata is an orphan, and a partial one is not counted
    assert_eq!(
        find_latest_consistent_epoch(&files(&[
            ("epoch-0000000003.bin", true),
            ("epoch-0000000099.bin", false),
            ("epoch-0000000007.bin.tmp", true),
        ])),
        Some(3)
    );
}

// ---- transactions ----

#[test]
fn outputs_are_stored() {
    let mut address = vec![0x01];
    address.extend_from_slice(&[3; 28]);
    address.extend_from_slice(&[4; 28]);
    let mut o = OutputData {
        index: 0,
        address,
        amount: 9,
        assets: vec![(vec![0xaa], vec![0xbb], 1), (vec![0xcc], vec![], 2), (vec![0xaa], vec![0xbb], 3)],
        datum: DatumData::Inline(vec![1, 2, 3]),
    };
    let e = output_entry(&o).unwrap();
    assert_eq!(e.assets, vec![("aa.bb".to_string(), 3), ("cc.".to_string(), 2)]);
    assert_eq!(e.datum, Some(vec![1, 2, 3]));
    assert_eq!(
        hex::encode(e.datum_hash.unwrap()),
        "11c0e79b71c3976ccd0c02d1310e2516c08edc9d8b6f57ccd680d63a4d8e72da"
    );
    assert_eq!(e.stake_credential, Some(vec![4; 28]));
    o.datum = DatumData::Hash(vec![7; 32]);
    assert_eq!(output_entry(&o).unwrap().datum_hash, Some(vec![7; 32]));
    let b = byron_entry(&o);
    assert!(b.assets.is_empty() && b.datum_hash.is_none() && b.stake_credential.is_none());
    o.address = vec![];
    assert!(matches!(output_entry(&o), Err(e) if e.starts_with("Failed to parse address: ")));
}

#[test]
fn blocks_count_for_their_pool() {
    let mut s = ledger();
    let b = parse_block_with_nonce(&hex::decode(BLOCK).unwrap()).unwrap();
    s.begin_block(&b);
    s.begin_block(&b);
    s.begin_block(&header(1));
    assert_eq!(s.epoch_block_count, 3);
    assert_eq!(s.epoch_blocks_by_pool.get(&extract_pool_id_from_block(&b).unwrap()), Some(&2));
    let mut byron = b.clone();
    byron.is_byron = true;
    s.begin_block(&byron);
    assert_eq!(s.epoch_blocks_by_pool.get(&extract_pool_id_from_block(&b).unwrap()), Some(&2));
}

#[test]
fn a_transaction_is_applied() {
    let mut s = ledger();
    s.reward_accounts.insert(padded(7), Lovelace(55));
    let mut t = tx();
    t.certs = vec![
        Certificate::PoolRetirement { pool_hash: [1; 28], epoch: 3 },
        Certificate::StakeRegistration(Credential::Key(padded(3))),
    ];
    t.donation = Some(400);
    t.withdrawals = vec![account(0xe1, 7), vec![1, 2]];
    t.proposals = vec![
        ProposalData { reward_account: account(0xf1, 6), deposit: 1_000, action: GovernanceAction::InfoAction },
        ProposalData { reward_account: vec![0xe1], deposit: 1_000, action: GovernanceAction::InfoAction },
    ];
    t.votes = vec![(Voter::StakePool([1; 28]), GovActionId { tx_hash: [5; 32], index: 0 }, Vote::Yes)];
    s.apply_tx(&t, 77, 2, 0);
    assert_eq!(s.epoch_fees, Lovelace(170_000));
    assert_eq!(s.treasury, Lovelace(400));
    assert_eq!(s.reward_accounts.get(&padded(7)), Some(&Lovelace(0)));
    assert_eq!(s.reward_accounts.get(&padded(3)), Some(&Lovelace(0)));
    assert!(s.ptr_map.contains_key(&ChainPointer { slot: 77, tx_index: 2, cert_index: 1 }));
    let id = GovActionId { tx_hash: [5; 32], index: 0 };
    assert_eq!(s.governance.proposals.len(), 1);
    assert_eq!(s.governance.proposals.get(&id).unwrap().procedure.return_addr, Credential::Script(padded(6)));
    assert_eq!(s.governance.votes_by_action.get(&id).unwrap().len(), 1);
    assert_eq!(s.deposit_tracker.refund_deposit(&padded(6), DepositType::Governance(id)), Some(Lovelace(1_000)));
}

#[test]
fn a_failed_transaction_pays_only() {
    let mut s = ledger();
    let mut t = tx();
    t.valid = false;
    t.certs = vec![Certificate::StakeRegistration(Credential::Key(padded(3)))];
    t.donation = Some(400);
    t.collateral_return = Some(30);
    assert_eq!(tx_fee(&t, 100), 70);
    s.apply_tx(&t, 77, 2, 100);
    assert_eq!(s.epoch_fees, Lovelace(70));
    assert_eq!(s.treasury, Lovelace(0));
    assert!(s.reward_accounts.is_empty());
    t.total_collateral = Some(45);
    assert_eq!(tx_fee(&t, 100), 45);
}

#[test]
fn proposed_updates_wait_for_their_epoch() {
    let mut s = ledger();
    let mut u = ProtocolParamUpdate::default();
    u.n_opt = Some(1);
    s.process_ppup_proposal(&UpdateData { epoch: 9, proposals: vec![(vec![1; 28], u), (vec![2; 28], u)] });
    u.n_opt = Some(2);
    s.process_ppup_proposal(&UpdateData { epoch: 9, proposals: vec![(vec![1; 28], u)] });
    s.process_ppup_proposal(&UpdateData { epoch: 10, proposals: vec![] });
    assert_eq!(s.pending_pp_updates.len(), 1);
    let t = s.pending_pp_updates.get(&EpochNo(9)).unwrap();
    assert_eq!(t.get(&padded(1)).unwrap().n_opt, Some(2));
    assert_eq!(t.get(&padded(2)).unwrap().n_opt, Some(1));
}

#[test]
fn accounts_name_credentials() {
    assert_eq!(credential_of_account(&account(0xe1, 3)), Some(Credential::Key(padded(3))));
    assert_eq!(credential_of_account(&account(0xf1, 3)), Some(Credential::Script(padded(3))));
    assert_eq!(credential_of_account(&[0xe1; 28]), None);
}

// ---- certificates ----

fn pool(pledge: u64) -> PoolParams {
    PoolParams {
        operator: [1; 28],
        vrf_keyhash: [0; 32],
        pledge: Lovelace(pledge),
        cost: Lovelace(1),
        margin: Rational { numerator: 0, denominator: 1 },
        reward_account: account(0xe1, 3),
        pool_owners: vec![],
        relays: vec![],
        pool_metadata: None,
    }
}

#[test]
fn accounts_open_with_a_deposit_and_close_with_it() {
    let mut s = ledger();
    let c = Credential::Key(padded(3));
    s.process_alonzo_certificate(&Certificate::StakeRegistration(c));
    assert_eq!(s.reward_accounts.get(&padded(3)), Some(&Lovelace(0)));
    assert_eq!(s.deposit_tracker.get_total_deposits(&padded(3)), Lovelace(2_000_000));
    s.process_alonzo_certificate(&Certificate::StakeDeregistration(c));
    assert!(s.reward_accounts.is_empty());
    assert_eq!(s.deposit_tracker.get_total_deposits(&padded(3)), Lovelace(0));
}

#[test]
fn conway_certificates_are_not_known_before_conway() {
    let mut s = ledger();
    let cert = Certificate::ConwayStakeRegistration { credential: Credential::Key(padded(3)), deposit: Lovelace(7) };
    s.process_certificate_at(&cert, false, ChainPointer { slot: 1, tx_index: 0, cert_index: 0 });
    assert!(s.reward_accounts.is_empty());
    s.process_certificate_at(&cert, true, ChainPointer { slot: 1, tx_index: 0, cert_index: 0 });
    assert_eq!(s.deposit_tracker.get_total_deposits(&padded(3)), Lovelace(7));
}

#[test]
fn a_pool_pays_one_deposit() {
    let mut s = ledger();
    s.process_alonzo_certificate(&Certificate::PoolRegistration(pool(1)));
    assert_eq!(s.deposit_tracker.get_total_deposits(&padded(1)), Lovelace(500_000_000));
    s.process_conway_certificate(&Certificate::PoolRegistration(pool(2)));
    assert_eq!(s.deposit_tracker.get_total_deposits(&padded(1)), Lovelace(500_000_000));
    assert_eq!(s.pool_params.get(&[1; 28]).unwrap().pledge, Lovelace(1));
    assert_eq!(s.future_pool_params.get(&[1; 28]).unwrap().pledge, Lovelace(2));
}

#[test]
fn representatives_get_their_deposit_back() {
    let mut s = ledger();
    let c = Credential::Key(padded(8));
    s.process_conway_certificate(&Certificate::RegDRep { credential: c, deposit: Lovelace(500), anchor: None });
    assert_eq!(s.governance.drep_registration_count, 1);
    assert_eq!(s.deposit_tracker.get_total_deposits(&padded(8)), Lovelace(500));
    s.process_conway_certificate(&Certificate::VoteDelegation {
        credential: Credential::Key(padded(3)),
        drep: DRep::KeyHash(padded(8)),
    });
    s.process_conway_certificate(&Certificate::UnregDRep { credential: c, refund: Lovelace(500) });
    assert!(s.governance.dreps.is_empty());
    assert!(s.governance.vote_delegations.is_empty());
    assert_eq!(s.deposit_tracker.get_total_deposits(&padded(8)), Lovelace(0));
}

// ---- the chain ----

#[test]
fn a_block_of_a_later_epoch_asks_for_a_boundary() {
    let mut s = ledger();
    s.set_epoch_length(100);
    let mut y = SyncState::new(3, 399, [0; 32]);
    assert_eq!(y.observe(&mut s, &header(399), &None), (Step::Same, false));
    assert_eq!(y.observe(&mut s, &header(450), &None), (Step::Boundary { epoch: 4, from_byron: false }, false));
    y.enter_epoch(4);
    assert_eq!(y.observe(&mut s, &header(450), &None), (Step::Same, false));
    y.block_applied(&header(450));
    assert_eq!((y.current_epoch, y.last_slot, y.blocks_processed, y.epoch_tx_count), (4, 450, 1, 3));
    assert_eq!(y.last_hash, [8; 32]);
    let mut ebb = header(900);
    ebb.is_ebb = true;
    assert_eq!(y.observe(&mut s, &ebb, &None), (Step::Skip, false));
}

#[test]
fn byron_lasts_until_shelley_is_announced() {
    let mut s = ledger();
    s.set_epoch_length(100);
    s.has_byron = true;
    s.byron_epoch_length = 10;
    s.shelley_transition_epoch = u64::MAX;
    let mut y = SyncState::new(0, 0, [0; 32]);
    assert_eq!(y.observe(&mut s, &header(15), &None).0, Step::ByronEpoch { epoch: 1 });
    assert_eq!(s.epoch, EpochNo(1));
    y.enter_epoch(1);
    let mut b = header(16);
    b.byron_update = Some((1, 0, 0));
    assert_eq!(y.observe(&mut s, &b, &None).0, Step::Same);
    assert_eq!(s.shelley_transition_epoch, u64::MAX);
    b.byron_update = Some((2, 0, 0));
    assert_eq!(y.observe(&mut s, &b, &None).0, Step::Same);
    assert_eq!(y.epoch_update_proposals, vec![(1, 0, 0), (2, 0, 0)]);
    assert_eq!(s.shelley_transition_epoch, 2);
    assert_eq!(y.observe(&mut s, &header(20), &None).0, Step::Boundary { epoch: 2, from_byron: true });
}

#[test]
fn the_first_conway_block_starts_conway() {
    let mut s = ledger();
    s.set_epoch_length(100);
    let mut y = SyncState::new(0, 0, [0; 32]);
    let genesis = Some(ConwayGenesis {
        pool_voting_thresholds: None,
        d_rep_voting_thresholds: None,
        committee_min_size: None,
        committee_max_term_length: None,
        gov_action_lifetime: None,
        gov_action_deposit: None,
        d_rep_deposit: None,
        d_rep_activity: None,
        committee: None,
        constitution: None,
    });
    let mut b = header(10);
    b.is_conway = true;
    b.vrf_output = Some(vec![7; 32]);
    assert_eq!(y.observe(&mut s, &b, &genesis), (Step::Same, true));
    assert_eq!(s.conway_genesis_epoch, Some(0));
    assert!(y.rolling_nonce.is_some());
    assert_eq!(y.observe(&mut s, &b, &genesis), (Step::Same, false));
}

#[test]
fn a_boundary_takes_the_tracked_stake() {
    let mut s = ledger();
    let mut stake: Table<Vec<u8>, u64> = Table::new();
    stake.insert(vec![4; 28], 90);
    let outputs = Some(vec![entry(0x01, 1_000, None), entry(0x01, 500, None)]);
    assert_eq!(s.cross_boundary(&stake, &outputs, 1), Ok(()));
    assert_eq!(s.stake_distribution.stake_map.get(&padded(4)), Some(&Lovelace(90)));
    assert_eq!(s.reserves, Lovelace(45_000_000_000_000_000 - 1_500));
    assert_eq!(s.epoch, EpochNo(1));

    let mut s = ledger();
    s.protocol_params.tau = Rational { numerator: 2, denominator: 1 };
    s.protocol_params.decentralization = Rational { numerator: 1, denominator: 1 };
    assert_eq!(s.cross_boundary(&stake, &None, 1), Err(Uncountable::Pots));
    // nothing has happened
    assert_eq!(s.epoch, EpochNo(0));
    assert!(s.stake_distribution.stake_map.is_empty() && s.snapshots.mark.is_none());
}

// ---- words ----

#[test]
fn actions_are_described() {
    let p = ProtocolParameters::default();
    let words = |a: GovernanceAction| describe_gov_action(&a, &p);
    assert_eq!(words(GovernanceAction::InfoAction), "InfoAction");
    assert_eq!(words(GovernanceAction::NoConfidence { prev_action_id: None }), "NoConfidence");
    assert_eq!(
        words(GovernanceAction::HardForkInitiation { prev_action_id: None, protocol_version: (10, 1) }),
        "HardFork Conway v10.0→v10.1"
    );
    assert_eq!(
        words(GovernanceAction::TreasuryWithdrawals {
            withdrawals: vec![
                (Credential::Key([1; 32]), Lovelace(1_500_000)),
                (Credential::Key([2; 32]), Lovelace(2_600_000)),
            ],
            guardrails_hash: None,
        }),
        "TreasuryWithdrawals (2 recipients, 4 ADA)"
    );
    assert_eq!(
        words(GovernanceAction::UpdateCommittee {
            prev_action_id: None,
            members_to_remove: vec![Credential::Key([1; 32])],
            members_to_add: vec![],
            quorum: Rational { numerator: 1, denominator: 2 },
        }),
        "UpdateCommittee (+0 -1 members)"
    );
    let mut u = ProtocolParamUpdate::default();
    let change = |u: ProtocolParamUpdate| GovernanceAction::ParameterChange {
        prev_action_id: None,
        update: u,
        guardrails_hash: None,
    };
    assert_eq!(words(change(u)), "ParameterChange (no fields changed)");
    u.min_fee_a = Some(44);
    u.n_opt = Some(400);
    u.rho = Some(Rational { numerator: 1, denominator: 10 });
    u.dvt_hard_fork_initiation = Some(Rational { numerator: 1, denominator: 10 });
    assert_eq!(words(change(u)), "ParameterChange: nOpt: 500→400, rho: 3/1000→1/10, 1 voting threshold(s)");
    let old = ProtocolParameters { protocol_version_major: 8, ..p };
    assert_eq!(
        describe_gov_action(
            &GovernanceAction::HardForkInitiation { prev_action_id: None, protocol_version: (9, 0) },
            &old
        ),
        "HardFork Babbage→Conway"
    );
}
