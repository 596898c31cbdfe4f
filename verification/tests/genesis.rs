use hayate::genesis::{
    genesis_hash, init_ledger, read_voucher_key, stability_window, Anchor, ByronBlockVersionData, ByronGenesis, ByronProtocolConsts,
    ByronStart, ByronTxFeePolicy, Committee, Constitution, ConwayGenesis, DRepVotingThresholds, PoolVotingThresholds,
    Rational, ShelleyGenesis, ShelleyProtocolParams, ShelleyProtocolVersion,
};
use hayate::ledger::primitives::{EpochNo, Lovelace, ProtocolParameters, Rational as Ratio};
use hayate::ledger::state::LedgerState;
use hayate::table::Table;

fn ratio(numerator: u64, denominator: u64) -> Ratio {
    Ratio { numerator, denominator }
}

fn text(s: &str) -> String {
    s.to_string()
}

fn amounts(l: &[(&str, &str)]) -> Table<String, String> {
    let mut t = Table::new();
    for (name, amount) in l {
        t.insert(text(name), text(amount));
    }
    t
}

fn numbers(l: &[(&str, u64)]) -> Table<String, u64> {
    let mut t = Table::new();
    for (name, n) in l {
        t.insert(text(name), *n);
    }
    t
}

fn byron(balances: &[(&str, &str)], slot_duration: &str) -> ByronGenesis {
    ByronGenesis {
        avvm_distr: amounts(&[("x", "5"), ("y", "not a number")]),
        non_avvm_balances: amounts(balances),
        start_time: 0,
        block_version_data: ByronBlockVersionData {
            slot_duration: text(slot_duration),
            max_block_size: text("2000000"),
            max_tx_size: text("4096"),
            tx_fee_policy: ByronTxFeePolicy { summand: text("0"), multiplier: text("0") },
        },
        protocol_consts: ByronProtocolConsts { k: 432, protocol_magic: 2 },
    }
}

fn no_params() -> ShelleyProtocolParams {
    ShelleyProtocolParams {
        min_fee_a: None,
        min_fee_b: None,
        max_block_body_size: None,
        max_tx_size: None,
        max_block_header_size: None,
        key_deposit: None,
        pool_deposit: None,
        e_max: None,
        n_opt: None,
        a0: None,
        rho: None,
        tau: None,
        decentralisation_param: None,
        min_u_tx_o_value: None,
        min_pool_cost: None,
        protocol_version: None,
    }
}

fn shelley() -> ShelleyGenesis {
    let mut p = no_params();
    p.rho = Some(ratio(3, 1000));
    p.tau = Some(ratio(1, 5));
    p.decentralisation_param = Some(ratio(1, 1));
    p.n_opt = Some(150);
    p.min_pool_cost = Some(340_000_001);
    p.protocol_version = Some(ShelleyProtocolVersion { major: 6, minor: 0 });
    ShelleyGenesis {
        system_start: text("2022-10-25T00:00:00Z"),
        network_magic: 2,
        network_id: text("Testnet"),
        active_slots_coeff: ratio(1, 20),
        security_param: 432,
        epoch_length: 86_400,
        slots_per_kes_period: 129_600,
        max_kes_evolutions: 62,
        slot_length: 1,
        update_quorum: 5,
        max_lovelace_supply: 45_000_000_000_000_000,
        protocol_params: p,
        initial_funds: numbers(&[("a", 40), ("b", 2)]),
    }
}

#[test]
fn genesis_files_are_known_by_their_digest() {
    assert_eq!(
        hex::encode(genesis_hash(b"abc")),
        "bddd813c634239723171ef3fee98579b94964e3bb1cb3e427262c8c068d52319"
    );
}

#[test]
fn byron_outputs_are_read() {
    // 2NEpo7TZRRrLZSi2U is "Hello World!"; 0 is no base58 digit
    let g = byron(&[("2NEpo7TZRRrLZSi2U", "30000"), ("11z", "7"), ("0bad", "5"), ("2", "x")], "20000");
    // in ascending order of the addresses
    let outputs = g.initial_utxos();
    let found: Vec<(Vec<u8>, u64)> = outputs.into_iter().map(|o| (o.address, o.lovelace)).collect();
    assert_eq!(found, vec![(vec![0, 0, 57], 7), (b"Hello World!".to_vec(), 30_000)]);
}

fn redeemed(key: [u8; 32], tag: Option<Vec<u8>>) -> Vec<u8> {
    let payload = pallas_addresses::byron::AddressPayload::new_redeem(key.into(), tag);
    pallas_addresses::ByronAddress::from(payload).to_vec()
}

#[test]
fn vouchers_give_outputs() {
    let mut g = byron(&[("11z", "7")], "20000");
    g.avvm_distr = amounts(&[
        ("AAECAwQFBgcICQoLDA0ODxAREhMUFRYXGBkaGxwdHh8=", "5"),
        ("__________________________________________8", "6"),
        ("BAECAwQFBgcICQoLDA0ODxAREhMUFRYXGBkaGxwdHh8=", "0"),
        ("AAECAwQFBgcICQoLDA0ODxAREhMUFRYXGBkaGxwdHh9=", "5"),
        ("AAEC", "5"),
        ("!AECAwQFBgcICQoLDA0ODxAREhMUFRYXGBkaGxwdHh8=", "5"),
        ("CAECAwQFBgcICQoLDA0ODxAREhMUFRYXGBkaGxwdHh8=", "x"),
    ]);
    let key: [u8; 32] = std::array::from_fn(|i| i as u8);
    let found = |g: &ByronGenesis| -> Vec<(Vec<u8>, u64)> {
        g.initial_utxos().into_iter().map(|o| (o.address, o.lovelace)).collect()
    };
    // a test network has its magic in its addresses
    let tag = Some(vec![2]);
    assert_eq!(
        found(&g),
        vec![(vec![0, 0, 57], 7), (redeemed(key, tag.clone()), 5), (redeemed([255; 32], tag), 6)]
    );
    g.protocol_consts.protocol_magic = 764824073;
    assert_eq!(found(&g)[1], (redeemed(key, None), 5));
    g.protocol_consts.protocol_magic = 1_097_911_063;
    assert_eq!(found(&g)[1], (redeemed(key, Some(vec![0x1a, 0x41, 0x70, 0xcb, 0x17])), 5));
    g.protocol_consts.protocol_magic = 0x0102_0304_0506_0708;
    assert_eq!(found(&g)[1], (redeemed(key, Some(vec![0x1b, 1, 2, 3, 4, 5, 6, 7, 8])), 5));
}

#[test]
fn voucher_keys_are_read() {
    let key: [u8; 32] = std::array::from_fn(|i| i as u8);
    assert_eq!(read_voucher_key("AAECAwQFBgcICQoLDA0ODxAREhMUFRYXGBkaGxwdHh8="), Some(key));
    assert_eq!(read_voucher_key("AAECAwQFBgcICQoLDA0ODxAREhMUFRYXGBkaGxwdHh8"), Some(key));
    // both alphabets
    let a = read_voucher_key("+/+/+/+/+/+/+/+/+/+/+/+/+/+/+/+/+/+/+/+/+/8");
    let b = read_voucher_key("-_-_-_-_-_-_-_-_-_-_-_-_-_-_-_-_-_-_-_-_-_8");
    assert!(a.is_some() && a == b);
    assert_eq!(a.unwrap()[..3], [0xfb, 0xff, 0xbf]);
    assert_eq!(read_voucher_key(""), None);
    assert_eq!(read_voucher_key("AAECAwQFBgcICQoLDA0ODxAREhMUFRYXGBkaGxwdHh8=="), None);
}

#[test]
fn byron_totals_count_everything_that_is_a_number() {
    let g = byron(&[("a", "30"), ("b", "12"), ("c", "x")], "20000");
    assert_eq!(g.total_genesis_lovelace(), 47);
    // of two entries with one name the later counts
    assert_eq!(byron(&[("a", "30"), ("a", "12")], "20000").total_genesis_lovelace(), 17);
    assert_eq!((g.security_param(), g.protocol_magic(), g.slot_duration_ms()), (432, 2, 20_000));
    assert_eq!(byron(&[], "1000").slot_duration_ms(), 1_000);
    assert_eq!(byron(&[], "soon").slot_duration_ms(), 20_000);
}

#[test]
fn shelley_reserves_are_what_the_funds_leave() {
    let g = shelley();
    assert_eq!(g.total_initial_funds(), 42);
    assert_eq!(g.initial_reserves(), 45_000_000_000_000_000 - 42);
}

#[test]
fn windows_are_rounded_up() {
    assert_eq!(stability_window(3, 432, &ratio(1, 20)), 25_920);
    assert_eq!(stability_window(2, 1, &ratio(3, 4)), 3);
    assert_eq!(stability_window(3, 0, &ratio(1, 20)), 0);
    assert_eq!(stability_window(4, u64::MAX, &ratio(1, 1)), u64::MAX);
}

#[test]
fn a_chain_that_starts_in_shelley_has_a_first_reward_update() {
    let l = init_ledger(None, &Some(shelley()), None).unwrap();
    assert!(!l.has_byron);
    assert_eq!((l.epoch_length, l.update_quorum), (86_400, 5));
    assert_eq!(
        (l.stability_window_2kf, l.stability_window_3kf, l.randomness_stabilisation_window),
        (17_280, 25_920, 34_560)
    );
    assert_eq!(l.protocol_params.n_opt, 150);
    assert_eq!(l.protocol_params.min_pool_cost_lovelace, 340_000_001);
    assert_eq!(l.protocol_params.protocol_version_major, 6);
    // what is not given stays as it was
    assert_eq!(l.protocol_params.min_fee_a, 44);
    let u = l.pending_reward_update.as_ref().unwrap();
    assert_eq!(u.delta_r1, 45_000_000_000_000_000 / 1000 * 3);
}

#[test]
fn byron_genesis_takes_from_the_reserves() {
    let start = ByronStart { total_lovelace: 30_000_000_000_000_000, hash: [7; 32], security_param: 432 };
    let l = init_ledger(Some(start), &Some(shelley()), None).unwrap();
    assert!(l.has_byron);
    assert_eq!(l.shelley_transition_epoch, u64::MAX);
    assert_eq!(l.byron_epoch_length, 4_320);
    assert_eq!(l.reserves, Lovelace(15_000_000_000_000_000));
    assert_eq!(l.genesis_hash, [7; 32]);
    assert!(l.pending_reward_update.is_none());

    let l = init_ledger(Some(start), &Some(shelley()), Some(4)).unwrap();
    assert_eq!(l.shelley_transition_epoch, 4);
    let l = init_ledger(Some(start), &Some(shelley()), Some(0)).unwrap();
    assert!(!l.has_byron);
    assert!(l.pending_reward_update.is_some());
}

#[test]
fn genesis_numbers_that_do_not_fit_are_refused() {
    let start = ByronStart { total_lovelace: 0, hash: [0; 32], security_param: u64::MAX };
    assert!(init_ledger(Some(start), &None, None).is_none());
    let mut g = shelley();
    // the treasury would take more than the pot
    g.protocol_params.tau = Some(ratio(2, 1));
    assert!(init_ledger(None, &Some(g), None).is_none());
}

fn conway() -> ConwayGenesis {
    ConwayGenesis {
        pool_voting_thresholds: Some(PoolVotingThresholds {
            motion_no_confidence: ratio(1, 2),
            committee_normal: ratio(1, 3),
            committee_no_confidence: ratio(1, 4),
            hard_fork_initiation: ratio(1, 5),
            pp_security_group: ratio(1, 6),
        }),
        d_rep_voting_thresholds: Some(DRepVotingThresholds {
            motion_no_confidence: ratio(2, 3),
            committee_normal: ratio(2, 5),
            committee_no_confidence: ratio(2, 7),
            update_to_constitution: ratio(2, 9),
            hard_fork_initiation: ratio(2, 11),
            pp_network_group: ratio(2, 13),
            pp_economic_group: ratio(2, 15),
            pp_technical_group: ratio(2, 17),
            pp_gov_group: ratio(2, 19),
            treasury_withdrawal: ratio(2, 21),
        }),
        committee_min_size: Some(3),
        committee_max_term_length: None,
        gov_action_lifetime: Some(8),
        gov_action_deposit: Some(1_000),
        d_rep_deposit: Some(2_000),
        d_rep_activity: Some(9),
        committee: Some(Committee {
            members: numbers(&[
                (format!("keyHash-{}", "ab".repeat(28)).as_str(), 500),
                (format!("scriptHash-{}", "cd".repeat(28)).as_str(), 600),
                ("nonsense", 700),
            ]),
            threshold: Some(Rational { numerator: 2, denominator: 3 }),
        }),
        constitution: Some(Constitution {
            anchor: Some(Anchor { url: text("ipfs://c"), data_hash: "11".repeat(32) }),
            script: Some("22".repeat(28)),
        }),
    }
}

#[test]
fn conway_starts_with_its_genesis() {
    let mut s = LedgerState::new(ProtocolParameters::default());
    let before = s.protocol_params;
    s.apply_conway_genesis(&conway(), EpochNo(163));
    assert_eq!(s.conway_genesis_epoch, Some(163));
    // the new parameters wait for the epoch boundary
    assert_eq!(s.protocol_params, before);
    let p = s.governance.conway_cur_params.unwrap();
    assert_eq!((p.protocol_version_major, p.protocol_version_minor), (9, 0));
    assert_eq!((p.committee_min_size, p.committee_max_term_length), (3, 146));
    assert_eq!((p.drep_deposit, p.drep_activity_period, p.gov_action_lifetime), (2_000, 9, 8));
    assert_eq!((p.pvt_hard_fork, p.dvt_hard_fork, p.dvt_constitution), (ratio(1, 5), ratio(2, 11), ratio(2, 9)));
    assert_eq!(s.governance.committee_threshold, Some(ratio(2, 3)));
    assert_eq!(s.governance.committee_expiration.len(), 2);
    let key = LedgerState::parse_credential_key(&format!("keyHash-{}", "ab".repeat(28))).unwrap();
    assert_eq!(s.governance.committee_expiration.get(&key), Some(&EpochNo(500)));
    let c = s.governance.constitution.as_ref().unwrap();
    assert_eq!(c.anchor.as_ref().unwrap().url, "ipfs://c");
    assert_eq!(c.anchor.as_ref().unwrap().hash, [0x11; 32]);

    // it starts once
    s.apply_conway_genesis(&conway(), EpochNo(200));
    assert_eq!(s.conway_genesis_epoch, Some(163));
}

#[test]
fn credentials_are_read_by_their_prefix() {
    let mut expected = [0xab; 32];
    expected[28..].fill(0);
    assert_eq!(
        LedgerState::parse_credential_key(&format!("keyHash-{}", "ab".repeat(28))),
        Some(expected)
    );
    assert_eq!(LedgerState::parse_credential_key(&format!("pool-{}", "ab".repeat(28))), None);
    assert_eq!(LedgerState::parse_credential_key("keyHash-xy"), None);
    assert_eq!(LedgerState::parse_credential_key(""), None);
}
