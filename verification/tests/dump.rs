use hayate::dump::compare::{
    compare_era_name, compare_u64, total_of, DepositRecord, DumpRecord, EnactRecord, GovernanceRecord, PoolRecord,
    RewardRecord, SnapshotRecord, Wording,
};
use hayate::dump::epochs::{can_compare, can_compare_critical, compare_epoch, compare_epoch_dumps, Verdict};
use hayate::dump::files::{find_haskell_dump, haskell_epoch, hayate_epoch};
use hayate::dump::labels::{label_credential, label_drep};
use hayate::dump::report::{abbrev, chk, chk_with_actual, difference_text, fmt_u64, optional_text, Finding};
use hayate::dump::snapshots::{can_normalize, normalize_cred, short_pool};
use hayate::dump::state::MemberState;
use hayate::dump::trace::{account_key, compare_applied, floor_mul3, TraceInput};
use hayate::ledger::primitives::{Credential, DRep, EpochNo, Lovelace, ProtocolParameters};
use hayate::ledger::state::{DRepRegistration, DepositType, LedgerState};
use hayate::table::KeySet;
use hayate::text::{can_cut, cut};

fn text(s: &str) -> String {
    s.to_string()
}

fn texts(l: &[Finding]) -> Vec<String> {
    l.iter().map(|f| f.text.clone()).collect()
}

fn no_rewards() -> RewardRecord {
    RewardRecord {
        delta_r1: None,
        delta_r2: None,
        delta_t1: None,
        r_pot: None,
        reward_pot: None,
        total_distributed: None,
    }
}

fn rewards() -> RewardRecord {
    RewardRecord {
        delta_r1: Some(30),
        delta_r2: Some(4),
        delta_t1: Some(8),
        r_pot: Some(40),
        reward_pot: Some(32),
        total_distributed: Some(28),
    }
}

fn snapshot(stake: &[(&str, u64)]) -> Option<Option<SnapshotRecord>> {
    Some(Some(SnapshotRecord {
        stake: stake.iter().map(|(n, v)| (text(n), Some(*v))).collect(),
        pools: Some(vec![PoolRecord { id: text("p"), pledge: Some(1), cost: Some(2) }]),
    }))
}

fn record() -> DumpRecord {
    DumpRecord {
        treasury: Some(100),
        reserves: Some(1_000),
        epoch_fees: Some(7),
        active_stake: Some(50),
        deposits: DepositRecord { stake_key: Some(1), pool: Some(2), drep: Some(3), proposal: Some(4), total: Some(10) },
        n_opt: Some(Some(500)),
        rupd: Some(rewards()),
        rupd_next: Some(rewards()),
        era: Some(text("Conway")),
        governance: Some(GovernanceRecord {
            members: Some(3),
            threshold_numerator: Some(2),
            threshold_denominator: Some(3),
            constitution_url: Some(text("ipfs://c")),
            dreps: Some(vec![(text("drep-alwaysAbstain"), Some(5))]),
            enacted: Some(EnactRecord { committee: None, constitution: None, hard_fork: None, pparam_update: None }),
        }),
        mark: snapshot(&[("keyHash-aa", 50)]),
        set: snapshot(&[]),
        go: Some(None),
    }
}

// ---- words ----

#[test]
fn numbers_are_grouped() {
    assert_eq!(fmt_u64(0), "0");
    assert_eq!(fmt_u64(999), "999");
    assert_eq!(fmt_u64(1_000), "1,000");
    assert_eq!(fmt_u64(45_000_000_000_000_000), "45,000,000,000,000,000");
    assert_eq!(fmt_u64(u64::MAX), "18,446,744,073,709,551,615");
    assert_eq!(fmt_u64(u64::MAX).replace(',', ""), u64::MAX.to_string());
}

#[test]
fn values_are_put_in_words() {
    assert_eq!(difference_text(10, 3), "-7");
    assert_eq!(difference_text(3, 10), "7");
    assert_eq!(optional_text(Some(3)), "Some(3)");
    assert_eq!(optional_text(None), "None");
    assert_eq!(abbrev("abcdef", 3), "abc…");
    assert_eq!(abbrev("abc", 3), "abc");
    assert_eq!((chk(true), chk(false)), ("✓", "✗ MISMATCH"));
    assert_eq!(chk_with_actual(true, 5), "✓");
    assert_eq!(chk_with_actual(false, 5_000), "✗  actual: 5,000");
}

#[test]
fn credentials_are_named() {
    let h = [0xab; 32];
    assert_eq!(label_credential(false, &h), format!("keyHash-{}", "ab".repeat(28)));
    assert_eq!(label_credential(true, &h), format!("scriptHash-{}", "ab".repeat(28)));
    assert_eq!(label_drep(&DRep::ScriptHash(h)), format!("drep-scriptHash-{}", "ab".repeat(28)));
    assert_eq!(label_drep(&DRep::AlwaysAbstain), "drep-alwaysAbstain");
    assert_eq!(label_drep(&DRep::AlwaysNoConfidence), "drep-alwaysNoConfidence");
    let long = "ab".repeat(32);
    assert_eq!(normalize_cred(&long), format!("keyHash-{}", "ab".repeat(28)));
    assert_eq!(normalize_cred(&normalize_cred(&long)), normalize_cred(&long));
    assert_eq!(account_key(&long), format!("keyHash-{}", "ab".repeat(28)));
}

#[test]
fn texts_are_cut_by_their_bytes() {
    assert_eq!(abbrev("éé", 2), "é…");
    assert_eq!(abbrev("éé", 4), "éé");
    assert_eq!(abbrev("a€b", 4), "a€…");
    assert_eq!(abbrev("😀x", 4), "😀…");
    assert_eq!(abbrev("abc", 0), "…");
    assert_eq!((cut("éé", 2), cut("éé", 9)), (text("é"), text("éé")));
    // no character may stand across the cut
    assert!(can_cut("éé", 2) && can_cut("éé", 4) && can_cut("éé", 5));
    assert!(!can_cut("éé", 1) && !can_cut("éé", 3) && !can_cut("a€b", 2));
    for n in 0..14 {
        assert_eq!(can_cut("aé€😀b", n), n >= 11 || "aé€😀b".is_char_boundary(n));
    }
}

#[test]
fn names_are_cut_by_their_bytes() {
    let long = "é".repeat(30);
    assert_eq!(normalize_cred(&long), format!("keyHash-{}", "é".repeat(28)));
    assert_eq!(normalize_cred(&format!("keyHash-{}", long)), format!("keyHash-{}", "é".repeat(28)));
    assert_eq!(account_key(&long), format!("keyHash-{}", "é".repeat(28)));
    assert_eq!(short_pool(&long), "é".repeat(28));
    let across = format!("a{}", long);
    assert!(can_normalize(&long) && !can_normalize(&across));

    let mut r = record();
    r.mark = snapshot(&[(long.as_str(), 50)]);
    assert!(can_compare(&record(), &r) && can_compare_critical(&record(), &r));
    let found = texts(&compare_epoch_dumps(&r, &record(), None, 5));
    assert_eq!(
        found[1],
        format!("snapshots.mark.stake[keyHash-{}]: missing in haskell, hayate=50", "é".repeat(28))
    );
    r.mark = snapshot(&[(across.as_str(), 50)]);
    assert!(!can_compare(&record(), &r) && !can_compare_critical(&record(), &r));
    // a snapshot that one dump lacks is not looked into
    let mut h = record();
    h.mark = None;
    assert!(can_compare(&h, &r) && can_compare_critical(&h, &r));
    // pools are compared in a full comparison only
    r.mark = snapshot(&[]);
    if let Some(Some(s)) = &mut r.mark {
        s.pools = Some(vec![PoolRecord { id: across.clone(), pledge: None, cost: None }]);
    }
    assert!(!can_compare(&record(), &r) && can_compare_critical(&record(), &r));

    let mut i = input();
    i.registered = Some(vec![across]);
    assert!(!i.names_cut() && i.trace().is_none());
}

#[test]
fn dump_files_are_found() {
    assert_eq!(haskell_epoch("12-1036800.json"), Some(12));
    assert_eq!(haskell_epoch("12.json"), Some(12));
    assert_eq!(haskell_epoch("12-1036800.txt"), None);
    assert_eq!(haskell_epoch("x-1.json"), None);
    assert_eq!(hayate_epoch("12-hayate.json"), Some(12));
    assert_eq!(hayate_epoch("12-1036800.json"), None);
    let names = vec![text("1-86400.json"), text("12-1.json"), text("2-3.json"), text("2-4.json")];
    assert_eq!(find_haskell_dump(&names, 12), Some(1));
    assert_eq!(find_haskell_dump(&names, 2), Some(2));
    assert_eq!(find_haskell_dump(&names, 3), None);
}

// ---- dumps ----

#[test]
fn a_dump_names_its_file_and_epoch() {
    let mut s = LedgerState::new(ProtocolParameters::default());
    s.epoch = EpochNo(9);
    s.deposit_tracker.add_deposit([1; 32], DepositType::Stake, Lovelace(2));
    s.deposit_tracker.add_deposit([1; 32], DepositType::Pool, Lovelace(500));
    s.deposit_tracker.add_deposit([2; 32], DepositType::DRep, Lovelace(30));
    let d = s.dump_epoch_state(777_600).unwrap();
    assert_eq!(d.file, "9-hayate.json");
    assert_eq!(hayate_epoch(&d.file), Some(9));
    assert_eq!((d.epoch, d.slot, d.era), (9, 777_600, "Conway"));
    assert_eq!((d.deposits.pool, d.deposits.stake_key, d.deposits.drep, d.deposits.total), (500, 2, 30, 532));
    assert!(d.mark.is_none());
}

#[test]
fn a_dump_holds_stake_and_representatives() {
    let mut s = LedgerState::new(ProtocolParameters::default());
    s.governance.dreps.insert(
        [8; 32],
        DRepRegistration {
            credential: Credential::Key([8; 32]),
            deposit: Lovelace(0),
            anchor: None,
            registered_epoch: EpochNo(0),
            last_active_epoch: EpochNo(0),
            active: true,
            delegs: KeySet::new(),
        },
    );
    s.governance.vote_delegations.insert([3; 32], DRep::KeyHash([8; 32]));
    s.governance.vote_delegations.insert([4; 32], DRep::AlwaysAbstain);
    s.stake_distribution.stake_map.insert([3; 32], Lovelace(40));
    s.stake_distribution.stake_map.insert([4; 32], Lovelace(2));
    let dreps = s.drep_distribution().unwrap();
    assert_eq!(dreps.get(&format!("drep-keyHash-{}", "08".repeat(28))), Some(&40));
    assert_eq!(dreps.get(&text("drep-alwaysAbstain")), Some(&2));

    s.governance.committee_hot_keys.insert([5; 32], [6; 32]);
    s.governance.committee_resigned.insert([7; 32], None);
    let states = s.committee_states();
    assert!(matches!(
        states.get(&format!("keyHash-{}", "05".repeat(28))),
        Some(MemberState::Authorized { script: false, hot }) if *hot == [6; 32]
    ));
    assert!(matches!(states.get(&format!("keyHash-{}", "07".repeat(28))), Some(MemberState::Resigned)));
}

#[test]
fn a_dump_that_cannot_be_counted_is_refused() {
    let mut s = LedgerState::new(ProtocolParameters::default());
    s.deposit_tracker.add_deposit([1; 32], DepositType::Stake, Lovelace(u64::MAX));
    s.deposit_tracker.add_deposit([2; 32], DepositType::Stake, Lovelace(1));
    assert!(s.dump_epoch_state(0).is_none());
}

// ---- comparing ----

#[test]
fn equal_dumps_agree() {
    let report = compare_epoch(&record(), &record(), Some(&record()), 5);
    assert_eq!(report.verdict(), Verdict::Agree);
    assert!(compare_epoch_dumps(&record(), &record(), Some(&record()), 5).is_empty());
}

#[test]
fn differences_are_found() {
    let mut r = record();
    r.treasury = Some(90);
    r.deposits.pool = None;
    let report = compare_epoch(&record(), &r, None, 5);
    assert_eq!(report.verdict(), Verdict::Diverged);
    assert_eq!(
        texts(&report.critical),
        vec![
            text("treasury: haskell=100 hayate=90 diff=-10"),
            text("deposits.pool: missing in hayate"),
        ]
    );
    assert_eq!(report.critical[0].lovelace, Some(-10));
    assert_eq!(report.critical[1].lovelace, None);
}

#[test]
fn fees_and_names_are_only_warned_of() {
    let mut r = record();
    r.epoch_fees = Some(8);
    r.era = Some(text("Babbage"));
    let report = compare_epoch(&record(), &r, None, 5);
    assert_eq!(report.verdict(), Verdict::AgreeWithWarnings);
    assert_eq!(report.warnings[0].text, "epochFees: haskell=7 hayate=8 diff=1");
    assert_eq!(report.warnings.len(), 2);
    let mut out = Vec::new();
    compare_era_name(&mut out, &Some(text("a")), &Some(text("a")));
    assert!(out.is_empty());
}

#[test]
fn stake_is_compared_by_name() {
    let mut r = record();
    let other = format!("keyHash-{}", "bb".repeat(32));
    r.mark = snapshot(&[("keyHash-aa", 49), (other.as_str(), 1)]);
    let found = texts(&compare_epoch_dumps(&r, &record(), None, 5));
    assert_eq!(
        found,
        vec![
            text("snapshots.mark.stake[keyHash-aa]: haskell=50 hayate=49"),
            format!(
                "snapshots.mark.stake[keyHash-{}]: missing in haskell, hayate=1",
                "bb".repeat(28)
            ),
        ]
    );
}

#[test]
fn the_applied_update_is_compared_with_the_one_before() {
    let mut r = record();
    let mut u = rewards();
    u.delta_t1 = Some(9);
    r.rupd = Some(u);
    let found = compare_epoch_dumps(&r, &record(), Some(&record()), 5);
    assert_eq!(found.len(), 1);
    assert!(found[0].text.contains("deltaT1"));
    // there is none before the first epoch
    assert!(compare_epoch_dumps(&r, &record(), Some(&record()), 0).is_empty());
    assert_eq!(
        compare_applied(&rewards(), r.rupd.as_ref().unwrap()),
        vec![text("deltaT1: rupdNext=Some(8)  rupdApplied=Some(9)")]
    );
}

#[test]
fn numbers_may_be_missing() {
    let mut out = Vec::new();
    compare_u64(&mut out, "x", Some(1), None, Wording::Number, false);
    compare_u64(&mut out, "x", None, Some(2), Wording::Number, false);
    compare_u64(&mut out, "x", None, Some(2), Wording::Sides, false);
    compare_u64(&mut out, "x", None, Some(2), Wording::Short, false);
    compare_u64(&mut out, "x", None, None, Wording::Short, false);
    assert_eq!(
        texts(&out),
        vec![
            text("x: haskell=1, missing in hayate"),
            text("x: missing in haskell, hayate=2"),
            text("x: haskell=missing hayate=2"),
            text("x: missing in haskell"),
        ]
    );
}

#[test]
fn records_that_cannot_be_counted_are_known() {
    assert_eq!(total_of(&vec![(text("a"), Some(1)), (text("b"), None), (text("c"), Some(2))]), Some(3));
    assert_eq!(total_of(&vec![(text("a"), Some(u64::MAX)), (text("c"), Some(1))]), None);
    assert!(can_compare(&record(), &record()) && can_compare_critical(&record(), &record()));
    let mut r = record();
    r.mark = snapshot(&[("a", u64::MAX), ("b", 1)]);
    assert!(!can_compare(&record(), &r) && !can_compare_critical(&record(), &r));
    let mut r = record();
    r.governance.as_mut().unwrap().dreps = Some(vec![(text("a"), Some(u64::MAX)), (text("b"), Some(1))]);
    assert!(!can_compare(&record(), &r) && !can_compare_critical(&record(), &r));
    // a full comparison counts representatives where both dumps have them
    let mut h = record();
    h.governance = None;
    assert!(can_compare(&h, &r) && !can_compare_critical(&h, &r));
}

// ---- tracing ----

fn input() -> TraceInput {
    // half of the expected blocks: 1/2 * 6/100 * 1000 = 30
    TraceInput {
        epoch: 4,
        rho: Some((6, 100)),
        tau: Some((1, 5)),
        d: Some((0, 1)),
        reserves: 1_000,
        treasury: 100,
        next_reserves: 974,
        next_treasury: 111,
        fees: Some(10),
        rupd: rewards(),
        payouts: Some(vec![(text("keyHash-aa"), Some(25)), (text("keyHash-bb"), Some(3))]),
        blocks: vec![(text("p"), Some(30)), (text("q"), Some(20))],
        expected_given: Some(100),
        expected_dumped: None,
        registered: Some(vec![text("keyHash-aa")]),
    }
}

#[test]
fn a_reward_update_is_traced() {
    let i = input();
    let t = i.trace().unwrap();
    assert_eq!((t.total_blocks, t.federated, t.eta), (50, false, (50, 100)));
    assert_eq!(t.expansion, Some((30, true)));
    assert_eq!(t.pot, Some((40, true)));
    assert_eq!(t.cut, Some((8, true)));
    assert_eq!(t.rest, (32, true));
    assert_eq!(t.payouts, (28, true));
    assert_eq!(t.returned, (4, true));
    assert_eq!(t.next_reserves, (974, true));
    assert_eq!(t.unregistered, 3);
    assert_eq!(t.next_treasury, (111, true));
    assert!(t.passed());
    assert_eq!(i.unregistered(), vec![(text("keyHash-bb"), 3)]);
    // what was there is still there
    assert_eq!(974 + 111 + 25, 1_000 + 100 + 10);
}

#[test]
fn a_trace_shows_what_does_not_add_up() {
    let mut i = input();
    i.next_treasury = 110;
    i.rupd.delta_r1 = Some(31);
    let t = i.trace().unwrap();
    assert!(!t.passed());
    assert_eq!(t.expansion, Some((30, false)));
    assert_eq!(t.next_treasury, (111, false));
    i.rupd = no_rewards();
    let t = i.trace().unwrap();
    assert_eq!(t.r_pot, 10);
    assert_eq!(t.delta_r1, 0);
}

#[test]
fn a_federated_chain_expands_fully() {
    let mut i = input();
    i.d = Some((4, 5));
    let t = i.trace().unwrap();
    assert!(t.federated);
    assert_eq!(t.eta, (1, 1));
    assert_eq!(t.expansion, Some((60, false)));
}

#[test]
fn a_trace_that_leaves_its_range_is_refused() {
    let mut i = input();
    i.tau = Some((1, 0));
    assert!(i.trace().is_none());
    let mut i = input();
    i.treasury = u64::MAX;
    assert!(i.trace().is_none());
    assert_eq!(floor_mul3(1, 2, 1, 3, 100), Some(16));
    assert_eq!(floor_mul3(1, 0, 1, 3, 100), None);
    assert_eq!(floor_mul3(u64::MAX, 1, u64::MAX, 1, u64::MAX), None);
}
