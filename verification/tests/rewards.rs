use hayate::ledger::primitives::{
    EpochNo, Hash28, Hash28Ext, Hash32, Lovelace, ProtocolParameters, Rational,
};
use hayate::ledger::rewards::count_expected_blocks;
use hayate::ledger::state::{LedgerState, PendingRewardUpdate, PoolRegistration, StakeSnapshot};
use hayate::table::{KeySet, Table};

fn ratio(numerator: u64, denominator: u64) -> Rational {
    Rational { numerator, denominator }
}

fn hex28(s: &str) -> Hash28 {
    let b = hex::decode(s).unwrap();
    let mut h = [0u8; 28];
    h.copy_from_slice(&b[..28]);
    h
}

fn empty_snapshot(epoch: u64) -> StakeSnapshot {
    StakeSnapshot {
        epoch: EpochNo(epoch),
        delegations: Table::new(),
        pool_stake: Table::new(),
        pool_params: Table::new(),
        stake_distribution: Table::new(),
        epoch_blocks_by_pool: Table::new(),
        script_stake_credentials: KeySet::new(),
    }
}

fn account(fill: &[u8]) -> Vec<u8> {
    let mut a = vec![0xE0u8];
    a.extend_from_slice(fill);
    a
}

fn pool(id: Hash28, owner: Hash28, pledge: u64, cost: u64, margin: Rational, reward_account: Vec<u8>) -> PoolRegistration {
    PoolRegistration {
        pool_id: id,
        vrf_keyhash: [0u8; 32],
        pledge: Lovelace(pledge),
        cost: Lovelace(cost),
        margin_numerator: margin.numerator,
        margin_denominator: margin.denominator,
        reward_account,
        owners: vec![owner],
        relays: vec![],
        metadata_url: None,
        metadata_hash: None,
    }
}

fn padded_fill(b: u8) -> Hash32 {
    let mut k = [b; 32];
    k[28..].fill(0);
    k
}

/// One pool with an owner and a delegator.
fn one_pool(owner_stake: u64, member_stake: u64, pledge: u64, blocks: u64, margin: Rational) -> StakeSnapshot {
    let id = [1u8; 28];
    let owner = [2u8; 28];
    let mut s = empty_snapshot(0);
    s.delegations.insert(padded_fill(2), id);
    s.delegations.insert(padded_fill(3), id);
    s.stake_distribution.insert(padded_fill(2), Lovelace(owner_stake));
    s.stake_distribution.insert(padded_fill(3), Lovelace(member_stake));
    s.pool_stake.insert(id, Lovelace(owner_stake + member_stake));
    s.pool_params.insert(id, pool(id, owner, pledge, 340_000_000, margin, account(&owner)));
    s.epoch_blocks_by_pool.insert(id, blocks);
    s
}

fn state_with(reserves: u64) -> LedgerState {
    let mut params = ProtocolParameters::default();
    params.rho = ratio(3, 1000);
    params.tau = ratio(1, 5);
    params.a0 = ratio(3, 10);
    params.n_opt = 500;
    params.decentralization = ratio(0, 1);
    params.active_slot_coefficient = ratio(1, 20);
    let mut state = LedgerState::new(params);
    state.epoch = EpochNo(10);
    state.epoch_length = 86400;
    state.reserves = Lovelace(reserves);
    state
}

fn total(t: &Table<Hash32, Lovelace>) -> u64 {
    (0..t.len()).map(|i| t.value_at(i).0).sum()
}

fn split_holds(u: &PendingRewardUpdate, fees: u64) {
    assert_eq!(u.total_distributed + u.undistributed, u.reward_pot_after_treasury);
    assert_eq!(u.reward_pot_after_treasury + u.delta_t1, u.r_pot);
    assert_eq!(u.r_pot, u.delta_r1 + fees);
    assert_eq!(total(&u.rewards), u.total_distributed);
}

#[test]
fn test_epoch12_rupd_total_distributed() {
    let pool_8fc7 = hex28("8fc7a730bba533f2f6f0c4ce0df1783bd002ee9d923ae941728b2830");
    let pool_bf94 = hex28("bf94a435bab1bc756f2f61443cc26d857b2e227903d9f2f5f2e7b686");
    let pool_d9ea = hex28("d9eaf1f9770c8bb35dd18df8d8a0b2b324cdbdeeb38e5e7ceb7ea734");

    let own_b2f1 = hex28("b2f1e813fb3108fe6926717ec6409bc369ae81b485aa2120dc1fa1d7");
    let own_2f5f = hex28("2f5fde105530993a262d744e534847794d477d2cc5a457312b2014b1");
    let own_f535 = hex28("f535d2bfc700116bb07ad9f9a1159d45577e85fc3c472d692780d996");

    let mut go = empty_snapshot(9);
    for (id, owner, fill, blocks) in [
        (pool_8fc7, own_b2f1, 0xAAu8, 1433u64),
        (pool_bf94, own_2f5f, 0xBB, 1422),
        (pool_d9ea, own_f535, 0xCC, 1510),
    ] {
        let cred = owner.to_hash32_padded();
        go.delegations.insert(cred, id);
        go.pool_stake.insert(id, Lovelace(1_000_000_000_000));
        go.pool_params.insert(
            id,
            pool(id, owner, 1_000_000_000_000, 500_000_000, ratio(1, 1), account(&[fill; 28])),
        );
        go.stake_distribution.insert(cred, Lovelace(1_000_000_000_000));
        go.epoch_blocks_by_pool.insert(id, blocks);
    }

    let mut state = state_with(14_901_365_998_049_648);
    state.epoch = EpochNo(12);
    state.reward_accounts.insert(padded_fill(0xAA), Lovelace(0));
    state.reward_accounts.insert(padded_fill(0xBB), Lovelace(0));
    state.reward_accounts.insert(padded_fill(0xCC), Lovelace(0));

    let pp = state.protocol_params;
    let rupd = state.calculate_rewards(&go, Lovelace(0), &pp);

    assert_eq!(rupd.delta_r1, 44_704_097_994_148, "deltaR1 mismatch");
    assert_eq!(rupd.delta_t1, 8_940_819_598_829, "deltaT1 mismatch");
    assert_eq!(rupd.reward_pot_after_treasury, 35_763_278_395_319, "rewardPot mismatch");
    assert_eq!(rupd.total_distributed, 2_742_233_249, "totalDistributed mismatch");
    split_holds(&rupd, 0);
}

#[test]
fn operators_without_accounts_get_nothing_before_babbage() {
    let mut params = ProtocolParameters::default();
    params.rho = ratio(3, 1000);
    params.tau = ratio(1, 5);
    params.a0 = ratio(3, 10);
    params.n_opt = 150;
    params.decentralization = ratio(0, 1);
    params.active_slot_coefficient = ratio(1, 20);
    // operators without a registered account get nothing before Babbage
    params.protocol_version_major = 6;

    let mut state = LedgerState::new(params);
    state.epoch = EpochNo(3);
    state.epoch_length = 86400;
    state.reserves = Lovelace(14_973_016_197_275_303);
    state.treasury = Lovelace(26_983_803_369_087);
    state.prev_epoch_decentralization = ratio(0, 1);

    let pool_38f4 = hex28("38f4a58aaf3fec84f3410520c70ad75321fb651ada7ca026373ce486");
    let pool_40d8 = hex28("40d806d73c8d2a0c8d9b1e95ccb9f380e40cb4d4b23ff6e403ae1456");
    let pool_d5cf = hex28("d5cfc42cf67f6b637688d19fa50a4342658f63370b9e2c9e3eaf4dfe");
    let own_788c = hex28("788cf0519348fefaf3c721c5f5bd60b195b444fa0d8fb4512dc259be");
    let own_ba14 = hex28("ba149e2e2379097e65f0c03f2733d3103151e7f100d36dfdb01a0b22");
    let own_f631 = hex28("f631370cc87882bf5e14ab72534caf2655d0a2a50a9a8a3820bb6f4a");
    let shared = account(&hex28("b96fcef3b9351af6834bd850e3a97859d7bd5b729d24bf3646aeaccf"));

    let mut go = empty_snapshot(1);
    for (id, owner, blocks) in [
        (pool_38f4, own_788c, 1514u64),
        (pool_40d8, own_f631, 1415),
        (pool_d5cf, own_ba14, 1443),
    ] {
        let cred = owner.to_hash32_padded();
        go.delegations.insert(cred, id);
        go.pool_stake.insert(id, Lovelace(100_000_000_000_000));
        go.pool_params.insert(
            id,
            pool(id, owner, 100_000_000_000_000, 500_000_000, ratio(1, 1), shared.clone()),
        );
        go.stake_distribution.insert(cred, Lovelace(100_000_000_000_000));
        go.epoch_blocks_by_pool.insert(id, blocks);
    }

    let fees = Lovelace(205_981);
    let pp = state.protocol_params;
    let rupd = state.calculate_rewards(&go, fees, &pp);

    assert_eq!(rupd.delta_r1, 44_919_048_591_825, "deltaR1");
    assert_eq!(rupd.r_pot, 44_919_048_797_806, "rPot");
    assert_eq!(rupd.delta_t1, 8_983_809_759_561, "deltaT1");
    assert_eq!(rupd.reward_pot_after_treasury, 35_935_239_038_245, "rewardPot");
    assert_eq!(rupd.total_distributed, 0, "totalDistributed");
    assert!(rupd.rewards.is_empty());
    assert_eq!(rupd.undistributed, rupd.reward_pot_after_treasury);

    state.pending_reward_update = Some(rupd);
    state.apply_pending_reward_update();
    assert_eq!(state.reserves.0, 14_964_032_387_721_723, "epoch 4 reserves");
    assert_eq!(state.treasury.0, 35_967_613_128_648, "epoch 4 treasury");
}

#[test]
fn test_epoch_0_to_1_calculation() {
    let params = ProtocolParameters {
        rho: ratio(3, 1000),
        tau: ratio(1, 5),
        decentralization: ratio(1, 1),
        a0: ratio(3, 10),
        n_opt: 500,
        min_fee_a: 44,
        min_fee_b: 155381,
        pool_deposit: 500_000_000,
        key_deposit: 2_000_000,
        min_pool_cost: 340_000_000,
        ..ProtocolParameters::default()
    };
    let mut ledger = LedgerState::new(params);

    ledger.set_epoch_length(86400);
    ledger.seed_genesis_utxos(30_000_000_000_000_000);
    ledger.epoch_fees = Lovelace(438_057);
    ledger.epoch_block_count = 4320;

    let reserves_initial = 15_000_000_000_000_000u64;
    let expansion = 45_000_000_000_000u64;

    ledger.process_epoch_transition(EpochNo(1));
    assert_eq!(ledger.treasury.0, 0);
    assert_eq!(ledger.reserves.0, reserves_initial);
    assert_eq!(ledger.pending_reward_update.as_ref().unwrap().delta_r1, expansion);

    ledger.process_epoch_transition(EpochNo(2));
    let expected_exact_treasury = 9_000_000_087_611u64;
    let expected_exact_reserves = reserves_initial - expansion + (expansion + 438_057 - expected_exact_treasury);
    assert_eq!(ledger.treasury.0, expected_exact_treasury, "Treasury mismatch");
    assert_eq!(ledger.reserves.0, expected_exact_reserves, "Reserves mismatch");
}

#[test]
fn the_pot_is_split_between_operator_and_members() {
    let state = state_with(14_000_000_000_000_000);
    let go = one_pool(1_000_000_000_000, 9_000_000_000_000, 500_000_000_000, 4000, ratio(1, 100));
    let pp = state.protocol_params;
    let u = state.calculate_rewards(&go, Lovelace(1_000_000), &pp);
    split_holds(&u, 1_000_000);
    // after Alonzo an account that is not registered takes part
    let operator = u.rewards.get(&padded_fill(2)).unwrap().0;
    let member = u.rewards.get(&padded_fill(3)).unwrap().0;
    assert_eq!(operator + member, u.total_distributed);
    assert!(operator > 340_000_000);
    // the member has nine tenths of the stake, after cost and margin
    let earned = operator + member;
    let rest = earned - 340_000_000;
    assert!(member.abs_diff(rest * 99 * 9 / 1000) < 3, "{} of {}", member, rest);
}

#[test]
fn a_pool_without_blocks_earns_nothing() {
    let state = state_with(14_000_000_000_000_000);
    let go = one_pool(1_000_000_000_000, 9_000_000_000_000, 0, 0, ratio(0, 1));
    let pp = state.protocol_params;
    let u = state.calculate_rewards(&go, Lovelace(0), &pp);
    assert_eq!(u.total_distributed, 0);
    assert!(u.rewards.is_empty());
    split_holds(&u, 0);
}

#[test]
fn a_pool_below_its_pledge_earns_nothing() {
    let state = state_with(14_000_000_000_000_000);
    let pp = state.protocol_params;
    let short = one_pool(1_000_000_000_000, 9_000_000_000_000, 1_000_000_000_001, 4000, ratio(0, 1));
    let u = state.calculate_rewards(&short, Lovelace(0), &pp);
    assert_eq!(u.total_distributed, 0);
    let met = one_pool(1_000_000_000_000, 9_000_000_000_000, 1_000_000_000_000, 4000, ratio(0, 1));
    let u = state.calculate_rewards(&met, Lovelace(0), &pp);
    assert!(u.total_distributed > 0);
}

#[test]
fn federated_expansion_does_not_depend_on_blocks() {
    let mut state = state_with(14_000_000_000_000_000);
    state.protocol_params.decentralization = ratio(4, 5);
    let pp = state.protocol_params;
    let few = one_pool(1_000_000_000_000, 9_000_000_000_000, 0, 1, ratio(0, 1));
    let many = one_pool(1_000_000_000_000, 9_000_000_000_000, 0, 4000, ratio(0, 1));
    let a = state.calculate_rewards(&few, Lovelace(0), &pp);
    let b = state.calculate_rewards(&many, Lovelace(0), &pp);
    assert_eq!((a.delta_r1, a.r_pot, a.delta_t1), (b.delta_r1, b.r_pot, b.delta_t1));
    assert_eq!(a.eta, ratio(1, 1));
    assert_eq!(a.delta_r1, 42_000_000_000_000);
    state.protocol_params.decentralization = ratio(79, 100);
    let pp = state.protocol_params;
    let c = state.calculate_rewards(&few, Lovelace(0), &pp);
    assert!(c.delta_r1 < a.delta_r1);
}

#[test]
fn expansion_stays_within_the_reserves() {
    let mut state = state_with(1_000);
    state.protocol_params.rho = ratio(1, 1);
    state.protocol_params.tau = ratio(1, 1);
    let pp = state.protocol_params;
    let go = one_pool(1_000_000_000_000, 9_000_000_000_000, 0, 9000, ratio(0, 1));
    let u = state.calculate_rewards(&go, Lovelace(0), &pp);
    assert_eq!(u.delta_r1, 1_000);
    assert_eq!(u.delta_t1, 1_000);
    assert_eq!(u.reward_pot_after_treasury, 0);
}

#[test]
fn nothing_is_computed_of_an_empty_pot() {
    let state = state_with(0);
    let pp = state.protocol_params;
    let u = state.calculate_rewards(&one_pool(1, 1, 0, 1, ratio(0, 1)), Lovelace(0), &pp);
    assert_eq!((u.r_pot, u.delta_t1, u.undistributed, u.total_distributed), (0, 0, 0, 0));
}

#[test]
fn sums_that_do_not_fit_are_refused() {
    let mut state = state_with(14_000_000_000_000_000);
    let mut go = one_pool(1_000_000_000_000, 9_000_000_000_000, 0, u64::MAX, ratio(0, 1));
    go.epoch_blocks_by_pool.insert([9u8; 28], 1);
    let pp = state.protocol_params;
    assert!(state.checked_rewards(&go, Lovelace(0), &pp).is_none());
    let go = one_pool(1_000_000_000_000, 9_000_000_000_000, 0, 1, ratio(0, 1));
    assert!(state.checked_rewards(&go, Lovelace(u64::MAX), &pp).is_none());
    assert!(state.checked_rewards(&go, Lovelace(1), &pp).is_some());
    state.protocol_params.tau = ratio(2, 1);
    let pp = state.protocol_params;
    assert!(state.checked_rewards(&go, Lovelace(0), &pp).is_none());
}

#[test]
fn expected_blocks_follow_the_parameters() {
    let mut pp = ProtocolParameters::default();
    pp.active_slot_coefficient = ratio(1, 20);
    pp.decentralization = ratio(0, 1);
    assert_eq!(count_expected_blocks(86_400, &pp), 4_320);
    pp.decentralization = ratio(1, 4);
    assert_eq!(count_expected_blocks(86_400, &pp), 3_240);
    pp.decentralization = ratio(1, 1);
    assert_eq!(count_expected_blocks(86_400, &pp), 1);
}

#[test]
fn rewards_are_credited_and_the_rest_goes_to_the_treasury() {
    let mut state = state_with(10_000);
    state.treasury = Lovelace(500);
    state.reward_accounts.insert([1u8; 32], Lovelace(7));
    let mut rewards: Table<Hash32, Lovelace> = Table::new();
    rewards.insert([1u8; 32], Lovelace(100));
    rewards.insert([2u8; 32], Lovelace(40));
    state.pending_reward_update = Some(PendingRewardUpdate {
        rewards,
        delta_treasury: 60,
        delta_reserves: 250,
        undistributed: 60,
        eta: ratio(1, 1),
        delta_r1: 250,
        r_pot: 260,
        delta_t1: 60,
        reward_pot_after_treasury: 200,
        total_distributed: 140,
    });
    let before = state.treasury.0 + state.reserves.0 + total(&state.reward_accounts);
    state.apply_pending_reward_update();
    assert_eq!(state.reserves, Lovelace(10_000 - 250 + 60));
    assert_eq!(state.treasury, Lovelace(500 + 60 + 40));
    assert_eq!(state.reward_accounts.get(&[1u8; 32]), Some(&Lovelace(107)));
    assert!(state.reward_accounts.get(&[2u8; 32]).is_none());
    assert!(state.pending_reward_update.is_none());
    // what was there and the fees of ten lovelace
    assert_eq!(state.treasury.0 + state.reserves.0 + total(&state.reward_accounts), before + 10);
}
