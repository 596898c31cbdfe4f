use hayate::ledger::eras::{
    extract_block_nonce, extract_certificates, extract_pool_id, extract_tx_fee, extract_withdrawals, fee_or_nothing,
};
use hayate::ledger::nonce::blake2b_256;
use hayate::ledger::primitives::{
    Anchor, Certificate, Constitution, Credential, DRep, EpochNo, GovActionId, GovernanceAction, Lovelace, MIRSource, MIRTarget,
    ProtocolParamUpdate, Rational, Vote, Voter,
};
use hayate::node::block::DatumData;
use hayate::node::header::{find_slot, parse_block_with_nonce, BlockPlace};
use hayate::node::pieces::{ActionPiece, CertStep, ChainCredential};
use hayate::node::txs::{
    parse_transaction, parse_transactions, read_action, read_alonzo_cert, read_assets, read_byron_inputs, read_consumed,
    read_conway_cert, read_enrolment, ActionPieces, BlockTx, ConwayPieces,
};

// ---- encoding ----

fn head(kind: u8, n: u64) -> Vec<u8> {
    let k = kind << 5;
    if n < 24 {
        vec![k | n as u8]
    } else if n < 256 {
        vec![k | 24, n as u8]
    } else if n < 65536 {
        let mut v = vec![k | 25];
        v.extend_from_slice(&(n as u16).to_be_bytes());
        v
    } else if n < 4294967296 {
        let mut v = vec![k | 26];
        v.extend_from_slice(&(n as u32).to_be_bytes());
        v
    } else {
        let mut v = vec![k | 27];
        v.extend_from_slice(&n.to_be_bytes());
        v
    }
}

fn num(n: u64) -> Vec<u8> {
    head(0, n)
}

fn raw(b: &[u8]) -> Vec<u8> {
    let mut v = head(2, b.len() as u64);
    v.extend_from_slice(b);
    v
}

fn text(s: &str) -> Vec<u8> {
    let mut v = head(3, s.len() as u64);
    v.extend_from_slice(s.as_bytes());
    v
}

fn list(items: &[Vec<u8>]) -> Vec<u8> {
    let mut v = head(4, items.len() as u64);
    for i in items {
        v.extend_from_slice(i);
    }
    v
}

fn map(items: &[(Vec<u8>, Vec<u8>)]) -> Vec<u8> {
    let mut v = head(5, items.len() as u64);
    for (k, x) in items {
        v.extend_from_slice(k);
        v.extend_from_slice(x);
    }
    v
}

fn tagged(t: u64, item: Vec<u8>) -> Vec<u8> {
    let mut v = head(6, t);
    v.extend_from_slice(&item);
    v
}

fn null() -> Vec<u8> {
    vec![0xf6]
}

fn share(n: u64, d: u64) -> Vec<u8> {
    tagged(30, list(&[num(n), num(d)]))
}

fn key(b: u8) -> Vec<u8> {
    list(&[num(0), raw(&[b; 28])])
}

fn script(b: u8) -> Vec<u8> {
    list(&[num(1), raw(&[b; 28])])
}

fn anchor(url: &str) -> Vec<u8> {
    list(&[text(url), raw(&[9; 32])])
}

fn new_header() -> Vec<u8> {
    let vrf = list(&[raw(&[4; 64]), raw(&[5; 80])]);
    let cert = list(&[raw(&[7; 32]), num(0), num(1), raw(&[8; 64])]);
    let body = list(&[
        num(7),
        num(100_000),
        raw(&[1; 32]),
        raw(&[2; 32]),
        raw(&[3; 32]),
        vrf,
        num(10),
        raw(&[6; 32]),
        cert,
        list(&[num(9), num(0)]),
    ]);
    list(&[body, raw(&[9; 64])])
}

fn old_header() -> Vec<u8> {
    let vrf = list(&[raw(&[4; 64]), raw(&[5; 80])]);
    let body = list(&[
        num(7),
        num(100_000),
        raw(&[1; 32]),
        raw(&[2; 32]),
        raw(&[3; 32]),
        vrf.clone(),
        vrf,
        num(10),
        raw(&[6; 32]),
        raw(&[7; 32]),
        num(0),
        num(1),
        raw(&[8; 64]),
        num(6),
        num(0),
    ]);
    list(&[body, raw(&[9; 64])])
}

fn block(era: u64, bodies: &[Vec<u8>], failed: &[u64]) -> Vec<u8> {
    let witnesses: Vec<Vec<u8>> = bodies.iter().map(|_| map(&[])).collect();
    let failed: Vec<Vec<u8>> = failed.iter().map(|i| num(*i)).collect();
    let header = if era < 6 { old_header() } else { new_header() };
    list(&[num(era), list(&[header, list(bodies), list(&witnesses), map(&[]), list(&failed)])])
}

fn base_address() -> Vec<u8> {
    let mut a = vec![0x01];
    a.extend_from_slice(&[3; 28]);
    a.extend_from_slice(&[4; 28]);
    a
}

fn input(b: u8, index: u64) -> Vec<u8> {
    list(&[raw(&[b; 32]), num(index)])
}

fn body(fields: &[(u64, Vec<u8>)]) -> Vec<u8> {
    let mut all = vec![
        (num(0), list(&[input(1, 2)])),
        (num(1), list(&[list(&[raw(&base_address()), num(5_000_000)])])),
        (num(2), num(170_000)),
    ];
    for (k, v) in fields {
        all.push((num(*k), v.clone()));
    }
    map(&all)
}

fn one(era: u64, fields: &[(u64, Vec<u8>)]) -> BlockTx {
    let mut l = parse_transactions(&block(era, &[body(fields)], &[])).unwrap();
    assert_eq!(l.len(), 1);
    l.remove(0)
}

fn padded(b: u8) -> [u8; 32] {
    let mut k = [b; 32];
    k[28..].fill(0);
    k
}

fn ratio(numerator: u64, denominator: u64) -> Option<Rational> {
    Some(Rational { numerator, denominator })
}

// ---- transactions ----

#[test]
fn transactions_of_a_block_are_read() {
    let output = map(&[
        (num(0), raw(&base_address())),
        (
            num(1),
            list(&[num(7), map(&[(raw(&[0xaa; 28]), map(&[(raw(b"x"), num(3)), (raw(b"y"), num(4))]))])]),
        ),
        (num(2), list(&[num(1), tagged(24, raw(&[0x18, 0x2a]))])),
    ]);
    let hashed = map(&[
        (num(0), raw(&base_address())),
        (num(1), num(8)),
        (num(2), list(&[num(0), raw(&[0xdd; 32])])),
    ]);
    let mut account = vec![0xe1];
    account.extend_from_slice(&[6; 28]);
    let fields = map(&[
        (num(0), list(&[input(1, 2), input(3, 4), input(1, 2)])),
        (num(1), list(&[output, hashed])),
        (num(2), num(170_000)),
        (num(5), map(&[(raw(&account), num(12))])),
        (num(22), num(77)),
    ]);
    let bytes = block(7, &[fields.clone(), body(&[])], &[]);
    let l = parse_transactions(&bytes).unwrap();
    assert_eq!(l.len(), 2);
    let t = &l[0];
    let digest = pallas_crypto::hash::Hasher::<256>::hash(&fields);
    assert_eq!(t.data.hash, *digest);
    assert!(t.data.valid && t.data.conway);
    assert_eq!((t.data.fee, t.data.donation), (Some(170_000), Some(77)));
    assert_eq!((t.data.total_collateral, t.data.collateral_return), (None, None));
    assert_eq!(t.data.withdrawals, vec![account]);
    // each input counts once
    assert_eq!(t.spent, vec![([1; 32], 2), ([3; 32], 4)]);
    let o = t.outputs[0].as_ref().unwrap();
    assert_eq!((o.index, o.amount), (0, 7));
    assert_eq!(o.address, base_address());
    assert_eq!(o.assets, vec![(vec![0xaa; 28], b"x".to_vec(), 3), (vec![0xaa; 28], b"y".to_vec(), 4)]);
    assert!(matches!(&o.datum, DatumData::Inline(b) if b == &vec![0x18, 0x2a]));
    let o = t.outputs[1].as_ref().unwrap();
    assert_eq!((o.index, o.amount), (1, 8));
    assert!(matches!(&o.datum, DatumData::Hash(b) if b == &vec![0xdd; 32]));
    let o = l[1].outputs[0].as_ref().unwrap();
    assert!(matches!(o.datum, DatumData::Absent) && o.assets.is_empty());
    assert!(l[1].data.certs.is_empty() && l[1].data.votes.is_empty() && l[1].data.update.is_none());
    assert_eq!(parse_block_with_nonce(&bytes).unwrap().tx_count, 2);
}

#[test]
fn failed_transactions_use_up_collateral() {
    let fields = body(&[
        (13, list(&[input(5, 1)])),
        (16, list(&[raw(&base_address()), num(900)])),
        (17, num(300)),
    ]);
    let l = parse_transactions(&block(7, &[fields], &[0])).unwrap();
    let t = &l[0];
    assert!(!t.data.valid);
    assert_eq!((t.data.total_collateral, t.data.collateral_return), (Some(300), Some(900)));
    assert_eq!(t.spent, vec![([5; 32], 1)]);
    // the return comes behind the outputs
    assert_eq!(t.outputs.len(), 1);
    let o = t.outputs[0].as_ref().unwrap();
    assert_eq!((o.index, o.amount), (1, 900));
}

#[test]
fn a_transaction_without_a_witness_is_not_counted() {
    let bytes = list(&[
        num(7),
        list(&[new_header(), list(&[body(&[]), body(&[])]), list(&[map(&[])]), map(&[]), list(&[])]),
    ]);
    assert_eq!(parse_transactions(&bytes).unwrap().len(), 1);
    assert_eq!(parse_block_with_nonce(&bytes).unwrap().tx_count, 1);
}

#[test]
fn unreadable_addresses_are_named() {
    let fields = map(&[
        (num(0), list(&[input(1, 2)])),
        (num(1), list(&[list(&[raw(&[0x91, 1]), num(5)]), list(&[raw(&base_address()), num(6)])])),
        (num(2), num(0)),
    ]);
    let l = parse_transactions(&block(7, &[fields], &[])).unwrap();
    assert!(matches!(&l[0].outputs[0], Err(e) if e == "address header is invalid 10010001"));
    assert_eq!(l[0].outputs[1].as_ref().unwrap().amount, 6);
}

#[test]
fn bytes_without_transactions_are_refused() {
    let reason = parse_transactions(&[]).unwrap_err();
    assert!(!reason.is_empty());
    assert!(matches!(parse_block_with_nonce(&[]), Err(e) if e == format!("Failed to decode block: {}", reason)));
    assert!(parse_transactions(&[0x82, 0x07, 0x80]).is_err());
    assert!(matches!(parse_transaction(7, &[0x80]), Err(e) if e == "Failed to decode transaction"));
    assert!(matches!(parse_transaction(99, &[0x80]), Err(e) if e == "Failed to decode transaction"));
    assert!(parse_transactions(&block(7, &[], &[])).unwrap().is_empty());
}

// ---- certificates ----

#[test]
fn conway_certificates_are_read() {
    let mut account = vec![0xe1];
    account.extend_from_slice(&[6; 28]);
    let pool = list(&[
        num(3),
        raw(&[1; 28]),
        raw(&[2; 32]),
        num(10),
        num(20),
        share(1, 4),
        raw(&account),
        list(&[raw(&[3; 28]), raw(&[4; 28])]),
        list(&[]),
        null(),
    ]);
    let h = |b: u8| raw(&[b; 28]);
    let drep = list(&[num(0), h(8)]);
    let certs = list(&[
        list(&[num(0), key(1)]),
        list(&[num(1), script(2)]),
        list(&[num(2), key(1), h(5)]),
        pool,
        list(&[num(4), h(5), num(300)]),
        list(&[num(7), key(1), num(2)]),
        list(&[num(8), key(1), num(2)]),
        list(&[num(9), key(1), drep.clone()]),
        list(&[num(10), key(1), h(5), list(&[num(1), h(8)])]),
        list(&[num(11), key(1), h(5), num(2)]),
        list(&[num(12), key(1), list(&[num(2)]), num(2)]),
        list(&[num(13), key(1), h(5), list(&[num(3)]), num(2)]),
        list(&[num(14), key(1), script(2)]),
        list(&[num(15), key(1), anchor("a")]),
        list(&[num(16), key(1), num(500), null()]),
        list(&[num(17), key(1), num(500)]),
        list(&[num(18), script(1), anchor("b")]),
    ]);
    let t = one(7, &[(4, certs)]);
    let credential = Credential::Key(padded(1));
    let pool_hash = [5; 28];
    let deposit = Lovelace(2);
    let all = t.data.certs;
    assert_eq!(all.len(), 17);
    assert_eq!(all[0], Certificate::StakeRegistration(credential));
    assert_eq!(all[1], Certificate::StakeDeregistration(Credential::Script(padded(2))));
    assert_eq!(all[2], Certificate::StakeDelegation { credential, pool_hash });
    match &all[3] {
        Certificate::PoolRegistration(p) => {
            assert_eq!((p.operator, p.vrf_keyhash), ([1; 28], [2; 32]));
            assert_eq!((p.pledge, p.cost), (Lovelace(10), Lovelace(20)));
            assert_eq!(p.margin, Rational { numerator: 1, denominator: 4 });
            assert_eq!(p.reward_account, account);
            assert_eq!(p.pool_owners, vec![[3; 28], [4; 28]]);
            assert!(p.relays.is_empty() && p.pool_metadata.is_none());
        }
        _ => panic!("no pool registration"),
    }
    assert_eq!(all[4], Certificate::PoolRetirement { pool_hash, epoch: 300 });
    assert_eq!(all[5], Certificate::ConwayStakeRegistration { credential, deposit });
    assert_eq!(all[6], Certificate::ConwayStakeDeregistration { credential, refund: deposit });
    assert_eq!(all[7], Certificate::VoteDelegation { credential, drep: DRep::KeyHash(padded(8)) });
    let drep = DRep::ScriptHash(padded(8));
    assert_eq!(all[8], Certificate::StakeVoteDelegation { credential, pool_hash, drep });
    assert_eq!(all[9], Certificate::RegStakeDeleg { credential, pool_hash, deposit });
    assert_eq!(all[10], Certificate::VoteRegDeleg { credential, drep: DRep::AlwaysAbstain, deposit });
    let drep = DRep::AlwaysNoConfidence;
    assert_eq!(all[11], Certificate::RegStakeVoteDeleg { credential, pool_hash, drep, deposit });
    assert_eq!(
        all[12],
        Certificate::CommitteeHotAuth {
            cold_credential: credential,
            hot_credential: Credential::Script(padded(2)),
        }
    );
    let named = |url: &str| Some(Anchor { url: url.to_string(), hash: [9; 32] });
    assert_eq!(all[13], Certificate::CommitteeColdResign { cold_credential: credential, anchor: named("a") });
    assert_eq!(all[14], Certificate::RegDRep { credential, deposit: Lovelace(500), anchor: None });
    assert_eq!(all[15], Certificate::UnregDRep { credential, refund: Lovelace(500) });
    assert_eq!(all[16], Certificate::UpdateDRep { credential: Credential::Script(padded(1)), anchor: named("b") });
}

#[test]
fn older_certificates_are_read() {
    let h = |b: u8| raw(&[b; 28]);
    let mut account = vec![0xe1];
    account.extend_from_slice(&[6; 28]);
    let certs = list(&[
        list(&[num(0), key(1)]),
        list(&[num(5), h(1), h(2), raw(&[3; 32])]),
        list(&[num(1), key(1)]),
        list(&[num(6), list(&[num(0), map(&[(key(1), vec![0x20]), (key(2), num(7))])])]),
        list(&[num(2), script(1), h(5)]),
        list(&[
            num(3),
            h(1),
            raw(&[2; 32]),
            num(10),
            num(20),
            share(1, 4),
            raw(&account),
            list(&[h(3)]),
            list(&[]),
            null(),
        ]),
        list(&[num(4), h(5), num(300)]),
        list(&[num(6), list(&[num(1), num(9)])]),
    ]);
    for era in [2u64, 5, 6] {
        let t = one(era, &[(4, certs.clone())]);
        assert!(!t.data.conway);
        let credential = Credential::Key(padded(1));
        let all = &t.data.certs;
        assert_eq!(all.len(), 8);
        assert_eq!(all[0], Certificate::StakeRegistration(credential));
        let mut genesis_hash = [1; 32];
        genesis_hash[28..].fill(0);
        assert_eq!(
            all[1],
            Certificate::GenesisKeyDelegation {
                genesis_hash,
                genesis_delegate_hash: padded(2),
                vrf_keyhash: [3; 32],
            }
        );
        assert_eq!(all[2], Certificate::StakeDeregistration(credential));
        // a negative amount counts as none
        let paid = vec![(credential, Lovelace(0)), (Credential::Key(padded(2)), Lovelace(7))];
        assert_eq!(
            all[3],
            Certificate::MoveInstantaneousRewardsCert {
                source: MIRSource::Reserves,
                target: MIRTarget::StakeCredentials(paid),
            }
        );
        assert_eq!(
            all[4],
            Certificate::StakeDelegation { credential: Credential::Script(padded(1)), pool_hash: [5; 28] }
        );
        assert!(matches!(&all[5], Certificate::PoolRegistration(p) if p.pool_owners == vec![[3; 28]]));
        assert_eq!(all[6], Certificate::PoolRetirement { pool_hash: [5; 28], epoch: 300 });
        assert_eq!(
            all[7],
            Certificate::MoveInstantaneousRewardsCert {
                source: MIRSource::Treasury,
                target: MIRTarget::OtherPot(Lovelace(9)),
            }
        );
    }
}

#[test]
fn test_extract_tx_fee() {
    let tx = list(&[body(&[]), map(&[]), vec![0xf5], null()]);
    assert_eq!(extract_tx_fee(6, &tx), Ok(Lovelace(170_000)));
    assert_eq!(extract_tx_fee(7, &tx), Ok(Lovelace(170_000)));
    // Byron transactions name no fee
    let spent = list(&[num(0), tagged(24, raw(&list(&[raw(&[6; 32]), num(1)])))]);
    let address = list(&[tagged(24, raw(&[0x83, 0x41, 0x01, 0xa0, 0x00])), num(77)]);
    let byron = list(&[list(&[list(&[spent]), list(&[list(&[address, num(900)])]), map(&[])]), list(&[])]);
    assert_eq!(extract_tx_fee(1, &byron), Ok(Lovelace(0)));
    assert_eq!((fee_or_nothing(Some(5)), fee_or_nothing(None)), (Lovelace(5), Lovelace(0)));
    let refused = Err("Failed to decode transaction".to_string());
    assert_eq!(extract_tx_fee(7, &[0x80]), refused);
    assert_eq!(extract_tx_fee(8, &tx), refused);
}

#[test]
fn certificates_and_withdrawals_come_out_of_a_transaction() {
    let account = |header: u8, b: u8| {
        let mut a = vec![header];
        a.extend_from_slice(&[b; 28]);
        a
    };
    let fields = body(&[
        (4, list(&[list(&[num(0), key(1)]), list(&[num(7), key(1), num(2)])])),
        (5, map(&[(raw(&account(0xe1, 6)), num(12)), (raw(&account(0xf1, 7)), num(3))])),
    ]);
    let tx = list(&[fields, map(&[]), vec![0xf5], null()]);
    let credential = Credential::Key(padded(1));
    assert_eq!(
        extract_certificates(7, &tx).unwrap(),
        vec![
            Certificate::StakeRegistration(credential),
            Certificate::ConwayStakeRegistration { credential, deposit: Lovelace(2) },
        ]
    );
    // a script's hash is tagged
    let mut tagged_hash = padded(7);
    tagged_hash[28] = 1;
    assert_eq!(
        extract_withdrawals(7, &tx).unwrap(),
        vec![(padded(6), Lovelace(12)), (tagged_hash, Lovelace(3))]
    );
    assert!(matches!(extract_certificates(7, &[0x80]), Err(e) if e == "Failed to decode transaction"));
    assert!(matches!(extract_withdrawals(7, &[0x80]), Err(e) if e == "Failed to decode transaction"));
    // Conway certificates are no certificates of an earlier era
    assert!(extract_certificates(6, &tx).is_err());
}

#[test]
fn blocks_tell_their_pool_and_what_they_add_to_the_nonce() {
    let praos = parse_block_with_nonce(&block(7, &[], &[])).unwrap();
    let mut data = b"N".to_vec();
    data.extend_from_slice(&[4; 64]);
    assert_eq!(extract_block_nonce(&praos), Some(blake2b_256(&data)));
    let older = parse_block_with_nonce(&block(5, &[], &[])).unwrap();
    assert!(!older.is_praos && older.vrf_output == Some(vec![4; 64]));
    assert_eq!(extract_block_nonce(&older), Some(blake2b_256(&[4; 64])));
    assert_eq!(extract_pool_id(&praos), extract_pool_id(&older));
    assert!(extract_pool_id(&praos).is_some());
    let byron = parse_block_with_nonce(&byron_block(2, 30, &[])).unwrap();
    assert_eq!(extract_block_nonce(&byron), None);
    assert_eq!(extract_pool_id(&byron), None);
    let boundary = parse_block_with_nonce(&boundary_block(2)).unwrap();
    assert_eq!((extract_block_nonce(&boundary), extract_pool_id(&boundary)), (None, None));
}

// ---- updates ----

#[test]
fn proposed_updates_are_read() {
    let params = map(&[
        (num(0), num(44)),
        (num(1), num(155)),
        (num(2), num(1)),
        (num(3), num(2)),
        (num(4), num(3)),
        (num(5), num(4)),
        (num(6), num(5)),
        (num(7), num(6)),
        (num(8), num(7)),
        (num(9), share(3, 10)),
        (num(10), share(3, 1000)),
        (num(11), share(1, 5)),
        (num(14), list(&[num(6), num(1)])),
        (num(16), num(340)),
    ]);
    let expected = ProtocolParamUpdate {
        min_fee_a: Some(44),
        min_fee_b: Some(155),
        max_block_body_size: Some(1),
        max_transaction_size: Some(2),
        max_block_header_size: Some(3),
        key_deposit: Some(4),
        pool_deposit: Some(5),
        e_max: Some(6),
        n_opt: Some(7),
        a0: ratio(3, 10),
        rho: ratio(3, 1000),
        tau: ratio(1, 5),
        protocol_version: Some((6, 1)),
        min_pool_cost: Some(340),
        ..ProtocolParamUpdate::default()
    };
    for era in [2u64, 5, 6] {
        let t = one(era, &[(6, list(&[map(&[(raw(&[7; 28]), params.clone())]), num(250)]))]);
        let u = t.data.update.unwrap();
        assert_eq!(u.epoch, 250);
        assert_eq!(u.proposals, vec![(vec![7; 28], expected)]);
    }
    let d = map(&[(num(12), share(4, 5))]);
    let t = one(5, &[(6, list(&[map(&[(raw(&[7; 28]), d)]), num(250)]))]);
    assert_eq!(t.data.update.unwrap().proposals[0].1.decentralization, ratio(4, 5));
    assert!(one(7, &[]).data.update.is_none());
}

// ---- governance ----

#[test]
fn proposals_are_read() {
    let mut account = vec![0xf1];
    account.extend_from_slice(&[6; 28]);
    let previous = list(&[raw(&[8; 32]), num(3)]);
    let ten: Vec<Vec<u8>> = (1..=10).map(|n| share(n, 11)).collect();
    let five: Vec<Vec<u8>> = (1..=5).map(|n| share(n, 6)).collect();
    let params = map(&[
        (num(0), num(44)),
        (num(1), num(155)),
        (num(2), num(1)),
        (num(3), num(2)),
        (num(4), num(3)),
        (num(5), num(4)),
        (num(6), num(5)),
        (num(7), num(6)),
        (num(8), num(7)),
        (num(9), share(3, 10)),
        (num(10), share(3, 1000)),
        (num(11), share(1, 5)),
        (num(16), num(340)),
        (num(25), list(&five)),
        (num(26), list(&ten)),
        (num(27), num(11)),
        (num(28), num(12)),
        (num(29), num(13)),
        (num(30), num(14)),
        (num(31), num(15)),
        (num(32), num(16)),
        (num(33), share(15, 1)),
    ]);
    let actions = [
        list(&[num(0), previous.clone(), params, null()]),
        list(&[num(1), null(), list(&[num(10), num(0)])]),
        list(&[num(2), map(&[(raw(&[0xe1]), num(5)), (raw(&account), num(9))]), null()]),
        list(&[num(3), previous.clone()]),
        list(&[num(4), null(), list(&[key(1)]), map(&[(script(2), num(400))]), share(2, 3)]),
        list(&[num(5), null(), list(&[anchor("c"), raw(&[4; 28])])]),
        list(&[num(6)]),
    ];
    let l: Vec<Vec<u8>> =
        actions.iter().map(|a| list(&[num(100_000), raw(&account), a.clone(), anchor("p")])).collect();
    let t = one(7, &[(20, list(&l))]);
    let p = &t.data.proposals;
    assert_eq!(p.len(), 7);
    assert!(p.iter().all(|x| x.deposit == 100_000 && x.reward_account == account));
    let prev_action_id = Some(GovActionId { tx_hash: [8; 32], index: 3 });
    let update = ProtocolParamUpdate {
        min_fee_a: Some(44),
        min_fee_b: Some(155),
        max_block_body_size: Some(1),
        max_transaction_size: Some(2),
        max_block_header_size: Some(3),
        key_deposit: Some(4),
        pool_deposit: Some(5),
        e_max: Some(6),
        n_opt: Some(7),
        a0: ratio(3, 10),
        rho: ratio(3, 1000),
        tau: ratio(1, 5),
        min_pool_cost: Some(340),
        committee_min_size: Some(11),
        committee_max_term_length: Some(12),
        gov_action_lifetime: Some(13),
        gov_action_deposit: Some(14),
        drep_deposit: Some(15),
        drep_activity: Some(16),
        min_fee_ref_script_cost_per_byte: ratio(15, 1),
        dvt_motion_no_confidence: ratio(1, 11),
        dvt_committee_normal: ratio(2, 11),
        dvt_committee_no_confidence: ratio(3, 11),
        dvt_update_to_constitution: ratio(4, 11),
        dvt_hard_fork_initiation: ratio(5, 11),
        dvt_pp_network_group: ratio(6, 11),
        dvt_pp_economic_group: ratio(7, 11),
        dvt_pp_technical_group: ratio(8, 11),
        dvt_pp_gov_group: ratio(9, 11),
        dvt_treasury_withdrawal: ratio(10, 11),
        pvt_motion_no_confidence: ratio(1, 6),
        pvt_committee_normal: ratio(2, 6),
        pvt_committee_no_confidence: ratio(3, 6),
        pvt_hard_fork_initiation: ratio(4, 6),
        pvt_pp_security_group: ratio(5, 6),
        ..ProtocolParamUpdate::default()
    };
    assert_eq!(p[0].action, GovernanceAction::ParameterChange { prev_action_id, update, guardrails_hash: None });
    assert_eq!(
        p[1].action,
        GovernanceAction::HardForkInitiation { prev_action_id: None, protocol_version: (10, 0) }
    );
    // an account that is too short gets nothing
    assert_eq!(
        p[2].action,
        GovernanceAction::TreasuryWithdrawals {
            withdrawals: vec![(Credential::Script(padded(6)), Lovelace(9))],
            guardrails_hash: None,
        }
    );
    assert_eq!(p[3].action, GovernanceAction::NoConfidence { prev_action_id });
    assert_eq!(
        p[4].action,
        GovernanceAction::UpdateCommittee {
            prev_action_id: None,
            members_to_remove: vec![Credential::Key(padded(1))],
            members_to_add: vec![(Credential::Script(padded(2)), EpochNo(400))],
            quorum: Rational { numerator: 2, denominator: 3 },
        }
    );
    assert_eq!(
        p[5].action,
        GovernanceAction::NewConstitution {
            prev_action_id: None,
            constitution: Constitution {
                anchor: Some(Anchor { url: "c".to_string(), hash: [9; 32] }),
                script_hash: Some(padded(4)),
            },
        }
    );
    assert_eq!(p[6].action, GovernanceAction::InfoAction);
}

#[test]
fn votes_are_read() {
    let on = |i: u64| list(&[raw(&[8; 32]), num(i)]);
    let cast = |v: u64| list(&[num(v), null()]);
    let by = |kind: u64, b: u8| list(&[num(kind), raw(&[b; 28])]);
    let votes = map(&[
        (by(0, 1), map(&[(on(0), cast(1)), (on(1), cast(0))])),
        (by(1, 2), map(&[(on(0), cast(2))])),
        (by(2, 3), map(&[(on(0), cast(1))])),
        (by(3, 4), map(&[(on(0), cast(1))])),
        (by(4, 5), map(&[(on(0), cast(0))])),
    ]);
    let t = one(7, &[(19, votes)]);
    let id = |index: u32| GovActionId { tx_hash: [8; 32], index };
    let committee = |c: Credential| Voter::ConstitutionalCommittee(c);
    let expected = vec![
        (committee(Credential::Key(padded(1))), id(0), Vote::Yes),
        (committee(Credential::Key(padded(1))), id(1), Vote::No),
        (committee(Credential::Script(padded(2))), id(0), Vote::Abstain),
        (Voter::DRep(Credential::Key(padded(3))), id(0), Vote::Yes),
        (Voter::DRep(Credential::Script(padded(4))), id(0), Vote::Yes),
        (Voter::StakePool([5; 28]), id(0), Vote::No),
    ];
    assert_eq!(t.data.votes.len(), expected.len());
    assert!(expected.iter().all(|v| t.data.votes.contains(v)));
}

// ---- Byron ----

fn byron_block(epoch: u64, slot: u64, inputs: &[Vec<u8>]) -> Vec<u8> {
    let hash = raw(&[1; 32]);
    let proof = list(&[
        list(&[num(1), hash.clone(), hash.clone()]),
        list(&[num(3), hash.clone()]),
        hash.clone(),
        hash.clone(),
    ]);
    let place = list(&[
        list(&[num(epoch), num(slot)]),
        raw(&[2; 64]),
        list(&[num(5)]),
        list(&[num(0), raw(&[3; 64])]),
    ]);
    let extra = list(&[list(&[num(1), num(0), num(0)]), list(&[text("x"), num(1)]), map(&[]), hash.clone()]);
    let header = list(&[num(764824073), hash, proof, place, extra]);
    let address = list(&[tagged(24, raw(&[0x83, 0x41, 0x01, 0xa0, 0x00])), num(77)]);
    let tx = list(&[list(inputs), list(&[list(&[address, num(900)])]), map(&[])]);
    let payload = list(&[list(&[tx, list(&[])])]);
    let body = list(&[payload, list(&[num(3), tagged(258, list(&[]))]), list(&[]), list(&[list(&[]), list(&[])])]);
    list(&[num(1), list(&[header, body, list(&[map(&[])])])])
}

fn boundary_block(epoch: u64) -> Vec<u8> {
    let hash = raw(&[1; 32]);
    let header = list(&[
        num(764824073),
        hash.clone(),
        hash,
        list(&[num(epoch), list(&[num(5)])]),
        list(&[map(&[])]),
    ]);
    list(&[num(0), list(&[header, list(&[]), list(&[map(&[])])])])
}

#[test]
fn byron_transactions_are_read() {
    let spent = list(&[num(0), tagged(24, raw(&list(&[raw(&[6; 32]), num(1)])))]);
    let bytes = byron_block(2, 30, &[spent.clone(), spent]);
    let b = parse_block_with_nonce(&bytes).unwrap();
    assert!(b.is_byron && !b.is_ebb);
    assert_eq!((b.slot, b.tx_count), (2 * 21_600 + 30, 1));
    assert!(b.vrf_output.is_none() && b.issuer_vkey.is_none());
    let l = parse_transactions(&bytes).unwrap();
    assert_eq!(l.len(), 1);
    // inputs stand as they are
    assert_eq!(l[0].spent, vec![([6; 32], 1), ([6; 32], 1)]);
    assert_eq!(l[0].data.fee, None);
    let o = l[0].outputs[0].as_ref().unwrap();
    assert_eq!((o.index, o.amount), (0, 900));
    let address = list(&[tagged(24, raw(&[0x83, 0x41, 0x01, 0xa0, 0x00])), num(77)]);
    assert_eq!(o.address, address);
}

#[test]
fn inputs_that_name_no_output_are_refused() {
    let strange = list(&[num(1), raw(&[0x80])]);
    let bytes = byron_block(2, 30, &[strange]);
    assert!(matches!(parse_transactions(&bytes), Err(e) if e == "Failed to decode transaction"));
}

#[test]
fn byron_slots_are_counted_from_the_start() {
    let b = parse_block_with_nonce(&boundary_block(3)).unwrap();
    assert!(b.is_ebb && !b.is_byron && b.tx_count == 0);
    assert_eq!(b.slot, 3 * 21_600);
    assert!(parse_transactions(&boundary_block(3)).unwrap().is_empty());
    assert_eq!(find_slot(&BlockPlace::Byron(207, 21_599)), Some(4_492_799));
    assert_eq!(find_slot(&BlockPlace::Boundary(208)), Some(4_492_800));
    assert_eq!(find_slot(&BlockPlace::Byron(209, 1)), Some(4_492_800 + 432_000 + 1));
    assert_eq!(find_slot(&BlockPlace::Slot(u64::MAX)), Some(u64::MAX));
}

#[test]
fn slots_out_of_range_are_refused() {
    assert_eq!(find_slot(&BlockPlace::Byron(1, u64::MAX)), None);
    assert_eq!(find_slot(&BlockPlace::Boundary(u64::MAX)), None);
    assert!(matches!(parse_block_with_nonce(&boundary_block(u64::MAX)), Err(e) if e == "Slot out of range"));
    assert!(matches!(parse_block_with_nonce(&byron_block(u64::MAX, 0, &[])), Err(e) if e == "Slot out of range"));
}

// ---- pieces ----

#[test]
fn inputs_are_put_together() {
    assert_eq!(read_byron_inputs(&vec![Some(([1; 32], 2)), Some(([3; 32], 4))]), Some(vec![([1; 32], 2), ([3; 32], 4)]));
    assert_eq!(read_byron_inputs(&vec![Some(([1; 32], 2)), None]), None);
    // indexes keep their low 32 bits
    assert_eq!(read_consumed(&vec![([1; 32], 4_294_967_299)]), vec![([1; 32], 3)]);
}

#[test]
fn actions_need_their_pieces() {
    let lone = |kind: ActionPiece| ActionPieces { kind, terms: None, thresholds: None, committee: None };
    assert!(read_action(lone(ActionPiece::Parameters), None).is_none());
    assert!(read_action(lone(ActionPiece::Committee), None).is_none());
    assert_eq!(read_action(lone(ActionPiece::Information), None), Some(GovernanceAction::InfoAction));
    assert_eq!(
        read_action(lone(ActionPiece::NoConfidence), Some(([8; 32], 3))),
        Some(GovernanceAction::NoConfidence { prev_action_id: Some(GovActionId { tx_hash: [8; 32], index: 3 }) })
    );
}

#[test]
fn certificates_need_their_pieces() {
    assert!(read_alonzo_cert(None, None, None).is_none());
    let lone = ConwayPieces { step: None, enrolment: None, drep: None, office: None, anchor: None, pool: None };
    assert!(read_conway_cert(lone).is_none());
    let credential = ChainCredential::Script([3; 28]);
    assert_eq!(
        read_alonzo_cert(Some((CertStep::Close, credential)), None, None),
        Some(Certificate::StakeDeregistration(Credential::Script(padded(3))))
    );
    assert_eq!(read_enrolment(Credential::Key([1; 32]), None, None, None), None);
}

#[test]
fn amounts_of_assets_are_read() {
    let assets = read_assets(&vec![([1; 28], vec![2], Some(7)), ([1; 28], vec![3], None)]);
    assert_eq!(assets, vec![(vec![1; 28], vec![2], 7), (vec![1; 28], vec![3], 0)]);
}
