//! Reward calculation and application.

use vstd::prelude::*;
use crate::item::{same_bytes, Item};
use crate::ledger::primitives::{
    padded, sat_add, sat_sub, Hash28, Hash28Ext, Hash32, Lovelace, ProtocolParameters, Rational,
};
use crate::ledger::rational::{
    frac, frac_add, frac_div, frac_floor, frac_min, frac_mul, frac_sub, Frac, Rat,
};
use crate::ledger::state::{
    account_key, at_least_one, LedgerModel, LedgerState, PendingRewardUpdate, PoolModel, PoolRegistration, RewardModel,
    SnapshotModel, StakeSnapshot, MAX_LOVELACE_SUPPLY,
};
use crate::sums::{clamp, lemma_seq_sum_prefix, lemma_seq_sum_step, map_sum, seq_sum};
use crate::table::Table;

verus! {

// ---- applying a reward update ----

pub open spec fn lovelace_of(m: Map<Hash32, Lovelace>, k: Hash32) -> u64 {
    if m.dom().contains(k) {
        m[k].0
    } else {
        0
    }
}

/// The accounts with their rewards added.
pub open spec fn credited(accounts: Map<Hash32, Lovelace>, rewards: Map<Hash32, Lovelace>) -> Map<Hash32, Lovelace> {
    Map::new(
        |k: Hash32| accounts.dom().contains(k),
        |k: Hash32| Lovelace(sat_add(accounts[k].0, lovelace_of(rewards, k))),
    )
}

/// A reward whose account is not registered.
pub open spec fn unregistered_amount(accounts: Map<Hash32, Lovelace>) -> spec_fn(Hash32, Lovelace) -> nat {
    |k: Hash32, v: Lovelace| if accounts.dom().contains(k) { 0 } else { v.0 as nat }
}

/// Rewards that no registered account can take.
pub open spec fn unregistered_total(accounts: Map<Hash32, Lovelace>, rewards: Map<Hash32, Lovelace>) -> nat {
    map_sum(rewards, unregistered_amount(accounts))
}

/// The ledger after a reward update: the reserves give the expansion and take
/// back what was not distributed, accounts get their rewards, and the treasury
/// gets its cut and the rewards of unregistered accounts.
pub open spec fn after_rewards(s: LedgerModel, r: RewardModel) -> LedgerModel {
    LedgerModel {
        reserves: Lovelace(sat_add(sat_sub(s.reserves.0, r.delta_reserves), r.undistributed)),
        reward_accounts: credited(s.reward_accounts, r.rewards),
        treasury: Lovelace(
            sat_add(
                sat_add(s.treasury.0, r.delta_treasury),
                unregistered_total(s.reward_accounts, r.rewards) as u64,
            ),
        ),
        ..s
    }
}

/// The ledger after the pending reward update, if there is one.
pub open spec fn after_pending_rewards(s: LedgerModel) -> LedgerModel {
    match s.pending_reward_update {
        Some(r) => after_rewards(LedgerModel { pending_reward_update: None, ..s }, r),
        None => s,
    }
}

pub open spec fn pending_rewards_fit(s: LedgerModel) -> bool {
    s.pending_reward_update matches Some(r) ==> unregistered_total(s.reward_accounts, r.rewards) <= u64::MAX
}

impl LedgerState {
    /// Applies a reward update.
    pub(crate) fn apply_rewards(&mut self, rupd: &PendingRewardUpdate)
        requires
            unregistered_total(old(self).reward_accounts@, rupd.rewards@) <= u64::MAX,
        ensures
            final(self)@ == after_rewards(old(self)@, rupd.model()),
    {
        let ghost start = self@;
        let ghost accounts = self.reward_accounts@;
        let ghost rewards = rupd.rewards@;
        let ghost f = unregistered_amount(accounts);
        let ghost e = rupd.rewards.entries();
        let n: usize = rupd.rewards.len();
        proof {
            rupd.rewards.lemma_entries();
            rupd.rewards.lemma_sum(f);
        }
        self.reserves = Lovelace(self.reserves.0.saturating_sub(rupd.delta_reserves));
        self.reserves = Lovelace(self.reserves.0.saturating_add(rupd.undistributed));
        let ghost mid = self@;
        let mut unreg: u64 = 0;
        let mut i: usize = 0;
        while i < n
            invariant
                i <= n,
                n == e.len(),
                e == rupd.rewards.entries(),
                rewards == rupd.rewards@,
                rupd.rewards.wf(),
                f == unregistered_amount(accounts),
                seq_sum(e, f) <= u64::MAX,
                unreg == seq_sum(e.take(i as int), f),
                self@ == (LedgerModel { reward_accounts: self.reward_accounts@, ..mid }),
                self.reward_accounts@.dom() == accounts.dom(),
                forall|k: Hash32| #[trigger]
                    accounts.dom().contains(k) && (forall|j: int|
                        #![trigger e[j]]
                        0 <= j < i ==> e[j].0 != k) ==> self.reward_accounts@[k] == accounts[k],
                forall|j: int|
                    #![trigger e[j]]
                    0 <= j < i && accounts.dom().contains(e[j].0) ==> self.reward_accounts@[e[j].0] == Lovelace(
                        sat_add(accounts[e[j].0].0, e[j].1.0),
                    ),
            decreases n - i,
        {
            proof {
                rupd.rewards.lemma_entries();
                lemma_seq_sum_step(e, f, i as int);
                lemma_seq_sum_prefix(e, f, i + 1);
            }
            let key: Hash32 = *rupd.rewards.key_at(i);
            let reward: Lovelace = *rupd.rewards.value_at(i);
            let balance: Option<Lovelace> = match self.reward_accounts.get(&key) {
                Some(b) => Some(*b),
                None => None,
            };
            let ghost before = self.reward_accounts@;
            match balance {
                Some(b) => {
                    self.reward_accounts.insert(key, b + reward);
                    assert(self.reward_accounts@.dom() =~= accounts.dom());
                    assert(before[key] == accounts[key]);
                },
                None => {
                    unreg += reward.0;
                },
            }
            i += 1;
        }
        proof {
            assert(e.take(i as int) =~= e);
            assert forall|k: Hash32| accounts.dom().contains(k) implies self.reward_accounts@[k] == credited(
                accounts,
                rewards,
            )[k] by {
                if rewards.dom().contains(k) {
                    let j = choose|j: int| #![trigger e[j]] 0 <= j < e.len() && e[j].0 == k;
                    assert(rewards[k] == e[j].1);
                } else {
                    assert forall|j: int| #![trigger e[j]] 0 <= j < e.len() implies e[j].0 != k by {
                        assert(rewards.dom().contains(e[j].0));
                    }
                }
            }
            assert(self.reward_accounts@ =~= credited(accounts, rewards));
        }
        self.treasury = Lovelace(self.treasury.0.saturating_add(rupd.delta_treasury).saturating_add(unreg));
        assert(self@ =~= after_rewards(start, rupd.model()));
    }

    /// Applies the pending reward update, if there is one.
    pub fn apply_pending_reward_update(&mut self)
        requires
            pending_rewards_fit(old(self)@),
        ensures
            final(self)@ == after_pending_rewards(old(self)@),
    {
        let ghost start = self@;
        if let Some(rupd) = self.pending_reward_update.take() {
            assert(self@ =~= (LedgerModel { pending_reward_update: None, ..start }));
            self.apply_rewards(&rupd);
        }
    }
}

// ---- the reward formula ----

/// A parameter as a fraction.
pub open spec fn param(r: Rational) -> Frac {
    frac(r.numerator as int, at_least_one(r.denominator) as int)
}

/// Blocks in a snapshot.
pub open spec fn block_total(blocks: Map<Hash28, u64>) -> nat {
    map_sum(blocks, |p: Hash28, n: u64| n as nat)
}

/// Whether the decentralization parameter is at least 0.8.
pub open spec fn federated(d: Rational) -> bool {
    5 * d.numerator >= 4 * at_least_one(d.denominator)
}

/// Blocks that pools are expected to make in an epoch: the floor of
/// `(1 - d) * f * length`, at least one. A coefficient without a denominator
/// counts as boundless.
pub open spec fn expected_blocks(epoch_length: u64, pp: ProtocolParameters) -> u64 {
    let f = pp.active_slot_coefficient;
    if f.denominator == 0 {
        if f.numerator > 0 && epoch_length > 0 {
            u64::MAX
        } else {
            1
        }
    } else {
        at_least_one(
            frac_floor(
                frac_mul(
                    frac_mul(
                        frac_sub(frac(1, 1), param(pp.decentralization)),
                        frac(f.numerator as int, f.denominator as int),
                    ),
                    frac(epoch_length as int, 1),
                ),
            ),
        )
    }
}

/// Blocks made over blocks expected, at most one; one while federated.
pub open spec fn eta_of(epoch_length: u64, blocks: nat, pp: ProtocolParameters) -> Rational {
    if federated(pp.decentralization) {
        Rational { numerator: 1, denominator: 1 }
    } else {
        let expected = expected_blocks(epoch_length, pp);
        Rational { numerator: if blocks < expected { blocks as u64 } else { expected }, denominator: expected }
    }
}

/// Monetary expansion: the floor of `eta * rho * reserves`.
pub open spec fn expansion_of(eta: Rational, rho: Rational, reserves: u64) -> u64 {
    frac_floor(
        frac_mul(
            frac_mul(frac(eta.numerator as int, eta.denominator as int), param(rho)),
            frac(reserves as int, 1),
        ),
    )
}

/// Treasury cut: the floor of `tau * pot`.
pub open spec fn treasury_cut_of(tau: Rational, pot: u64) -> u64 {
    frac_floor(frac_mul(param(tau), frac(pot as int, 1)))
}

pub open spec fn saturating_total(m: Map<Hash28, Lovelace>) -> u64 {
    clamp(map_sum(m, |p: Hash28, v: Lovelace| v.0 as nat) as int)
}

/// What all pools of an epoch share.
pub struct PotModel {
    /// Reward pot after the treasury cut.
    pub pot: u64,
    /// Lovelace in circulation.
    pub circulation: u64,
    /// Stake of all pools.
    pub active: u64,
    /// Blocks of all pools, at least one.
    pub blocks: u64,
    /// Optimal pool count, at least one.
    pub n_opt: u64,
    /// Pledge influence.
    pub a0: Frac,
    /// Whether unregistered accounts take part.
    pub unfiltered: bool,
    /// Registered accounts.
    pub accounts: Set<Hash32>,
}

/// The most that a pool can earn:
/// `pot / (1 + a0) * (sigma + p * a0 * (sigma - p * (z0 - sigma) / z0) / z0)`,
/// where `z0` is one over the optimal pool count and bounds `sigma` and `p`,
/// the stake and the pledge as parts of the circulation.
pub open spec fn max_pool(e: PotModel, stake: u64, pledge: u64) -> u64 {
    let z0 = frac(1, e.n_opt as int);
    let sigma = frac_min(frac(stake as int, e.circulation as int), z0);
    let p = frac_min(frac(pledge as int, e.circulation as int), z0);
    let f4 = frac_div(frac_sub(z0, sigma), z0);
    let f3 = frac_div(frac_sub(sigma, frac_mul(p, f4)), z0);
    let f2 = frac_add(sigma, frac_mul(frac_mul(p, e.a0), f3));
    let f1 = frac_div(frac(e.pot as int, 1), frac_add(frac(1, 1), e.a0));
    frac_floor(frac_mul(f1, f2))
}

/// What a pool earns: the maximum times its apparent performance.
pub open spec fn pool_earns(e: PotModel, stake: u64, pledge: u64, blocks: u64) -> u64 {
    if blocks == 0 || stake == 0 {
        0
    } else {
        frac_floor(
            frac_mul(
                frac_mul(frac(blocks as int, e.blocks as int), frac(e.active as int, stake as int)),
                frac(max_pool(e, stake, pledge) as int, 1),
            ),
        )
    }
}

/// What the operator gets of a pool's reward: the cost, and of the rest the
/// margin and the share of the owners' stake.
pub open spec fn operator_part(reward: u64, pool: PoolModel, owner_stake: int, stake: u64) -> int {
    if reward <= pool.cost.0 {
        reward as int
    } else {
        let den = at_least_one(pool.margin_denominator) as int;
        let margin = frac(pool.margin_numerator as int, den);
        let rest = frac(den - pool.margin_numerator, den);
        let share = frac_add(margin, frac_mul(rest, frac(owner_stake, stake as int)));
        pool.cost.0 + frac_floor(frac_mul(share, frac(reward - pool.cost.0, 1)))
    }
}

/// What a member gets of a pool's reward.
pub open spec fn member_part(reward: u64, pool: PoolModel, member_stake: u64, stake: u64) -> u64 {
    if reward <= pool.cost.0 {
        0
    } else {
        let den = at_least_one(pool.margin_denominator) as int;
        frac_floor(
            frac_mul(
                frac_mul(frac(reward - pool.cost.0, 1), frac(den - pool.margin_numerator, den)),
                frac(member_stake as int, stake as int),
            ),
        )
    }
}

/// The account hash of an owner.
pub open spec fn owner_key(owner: Hash28) -> Hash32 {
    choose|h: Hash32| h@ == padded(owner@)
}

/// Stake that owners delegate to their own pool.
pub open spec fn owner_stake(go: SnapshotModel, pool_id: Hash28, owners: Seq<Hash28>) -> nat
    decreases owners.len(),
{
    if owners.len() == 0 {
        0
    } else {
        let k = owner_key(owners.last());
        owner_stake(go, pool_id, owners.drop_last()) + if go.delegations.dom().contains(k) && go.delegations[k]
            == pool_id {
            lovelace_of(go.stake_distribution, k) as nat
        } else {
            0
        }
    }
}

pub open spec fn is_owner(pool: PoolModel, k: Hash32) -> bool {
    exists|i: int| 0 <= i < pool.owners.len() && padded(#[trigger] pool.owners[i]@) == k@
}

pub open spec fn blocks_of(go: SnapshotModel, p: Hash28) -> u64 {
    if go.epoch_blocks_by_pool.dom().contains(p) {
        go.epoch_blocks_by_pool[p]
    } else {
        0
    }
}

/// What a pool of a snapshot earns; nothing where it is not registered or its
/// owners have less stake than they pledged.
pub open spec fn reward_of_pool(e: PotModel, go: SnapshotModel, p: Hash28, stake: u64) -> u64 {
    if !go.pool_params.dom().contains(p) {
        0
    } else {
        let pool = go.pool_params[p];
        if owner_stake(go, p, pool.owners) < pool.pledge.0 {
            0
        } else {
            pool_earns(e, stake, pool.pledge.0, blocks_of(go, p))
        }
    }
}

/// What a delegator who is no owner gets from a pool.
pub open spec fn member_share(e: PotModel, go: SnapshotModel, p: Hash28, stake: u64, c: Hash32) -> nat {
    let reward = reward_of_pool(e, go, p, stake);
    if reward > 0 && go.delegations.dom().contains(c) && go.delegations[c] == p && !is_owner(go.pool_params[p], c) {
        member_part(reward, go.pool_params[p], lovelace_of(go.stake_distribution, c), stake) as nat
    } else {
        0
    }
}

/// What the operator of a pool gets. Before Babbage an operator without a
/// registered account gets nothing.
pub open spec fn operator_share(e: PotModel, go: SnapshotModel, p: Hash28, stake: u64) -> nat {
    let reward = reward_of_pool(e, go, p, stake);
    let pool = go.pool_params[p];
    if reward > 0 && (e.unfiltered || e.accounts.contains(account_key(pool.reward_account))) {
        operator_part(reward, pool, owner_stake(go, p, pool.owners) as int, stake) as nat
    } else {
        0
    }
}

/// What a credential gets from a pool, as a member and as its operator.
pub open spec fn share_of(e: PotModel, go: SnapshotModel, p: Hash28, stake: u64, c: Hash32) -> nat {
    member_share(e, go, p, stake, c) + if c == account_key(go.pool_params[p].reward_account) {
        operator_share(e, go, p, stake)
    } else {
        0
    }
}

pub open spec fn member_fn(e: PotModel, go: SnapshotModel, p: Hash28, stake: u64) -> spec_fn(Hash32, Hash28) -> nat {
    |c: Hash32, q: Hash28| member_share(e, go, p, stake, c)
}

/// All that a pool pays out.
pub open spec fn pool_pays(e: PotModel, go: SnapshotModel, p: Hash28, stake: u64) -> nat {
    map_sum(go.delegations, member_fn(e, go, p, stake)) + operator_share(e, go, p, stake)
}

pub open spec fn pays_fn(e: PotModel, go: SnapshotModel) -> spec_fn(Hash28, Lovelace) -> nat {
    |p: Hash28, st: Lovelace| pool_pays(e, go, p, st.0)
}

pub open spec fn share_fn(e: PotModel, go: SnapshotModel, c: Hash32) -> spec_fn(Hash28, Lovelace) -> nat {
    |p: Hash28, st: Lovelace| share_of(e, go, p, st.0, c)
}

/// All that the pools pay out.
pub open spec fn distributed_total(e: PotModel, go: SnapshotModel) -> nat {
    map_sum(go.pool_stake, pays_fn(e, go))
}

/// All that a credential gets.
pub open spec fn reward_of(e: PotModel, go: SnapshotModel, c: Hash32) -> nat {
    map_sum(go.pool_stake, share_fn(e, go, c))
}

/// The rewards of all credentials that get any.
pub open spec fn reward_map(e: PotModel, go: SnapshotModel) -> Map<Hash32, Lovelace> {
    Map::new(|c: Hash32| reward_of(e, go, c) > 0, |c: Hash32| Lovelace(clamp(reward_of(e, go, c) as int)))
}

/// The pot that an epoch's rewards come from.
pub open spec fn pot_of(s: LedgerModel, go: SnapshotModel, pp: ProtocolParameters, pot: u64) -> PotModel {
    PotModel {
        pot,
        circulation: sat_sub(MAX_LOVELACE_SUPPLY, s.reserves.0),
        active: saturating_total(go.pool_stake),
        blocks: at_least_one(block_total(go.epoch_blocks_by_pool) as u64),
        n_opt: at_least_one(pp.n_opt),
        a0: param(pp.a0),
        unfiltered: pp.protocol_version_major > 6,
        accounts: s.reward_accounts.dom(),
    }
}

/// The reward update of an epoch: the expansion and the fees make the pot, the
/// treasury takes its cut, pools and their members get the rest, and what is
/// left goes back to the reserves.
pub open spec fn reward_update(s: LedgerModel, go: SnapshotModel, fees: Lovelace, pp: ProtocolParameters) -> RewardModel {
    let eta = eta_of(s.epoch_length, block_total(go.epoch_blocks_by_pool), pp);
    let expansion = expansion_of(eta, pp.rho, s.reserves.0);
    let r_pot = (expansion + fees.0) as u64;
    if r_pot == 0 {
        RewardModel {
            rewards: Map::empty(),
            delta_treasury: 0,
            delta_reserves: 0,
            undistributed: 0,
            eta,
            delta_r1: expansion,
            r_pot,
            delta_t1: 0,
            reward_pot_after_treasury: 0,
            total_distributed: 0,
        }
    } else {
        let cut = treasury_cut_of(pp.tau, r_pot);
        let pot = (r_pot - cut) as u64;
        let e = pot_of(s, go, pp, pot);
        let (rewards, total) = if e.circulation == 0 || e.active == 0 {
            (Map::empty(), 0u64)
        } else {
            (reward_map(e, go), distributed_total(e, go) as u64)
        };
        RewardModel {
            rewards,
            delta_treasury: cut,
            delta_reserves: expansion,
            undistributed: sat_sub(pot, total),
            eta,
            delta_r1: expansion,
            r_pot,
            delta_t1: cut,
            reward_pot_after_treasury: pot,
            total_distributed: total,
        }
    }
}

/// A pool's sums stay within `u64`.
pub open spec fn pool_fits(e: PotModel, go: SnapshotModel, p: Hash28, stake: u64) -> bool {
    go.pool_params.dom().contains(p) ==> {
        let pool = go.pool_params[p];
        let reward = reward_of_pool(e, go, p, stake);
        &&& owner_stake(go, p, pool.owners) <= u64::MAX
        &&& operator_part(reward, pool, owner_stake(go, p, pool.owners) as int, stake) <= u64::MAX
    }
}

/// The sums of a reward calculation stay within `u64`, and the treasury does
/// not take more than the pot.
pub open spec fn rewards_fit(s: LedgerModel, go: SnapshotModel, fees: Lovelace, pp: ProtocolParameters) -> bool {
    let eta = eta_of(s.epoch_length, block_total(go.epoch_blocks_by_pool), pp);
    let r_pot = expansion_of(eta, pp.rho, s.reserves.0) + fees.0;
    let cut = treasury_cut_of(pp.tau, r_pot as u64);
    let e = pot_of(s, go, pp, (r_pot - cut) as u64);
    &&& block_total(go.epoch_blocks_by_pool) <= u64::MAX
    &&& r_pot <= u64::MAX
    &&& r_pot > 0 ==> cut <= r_pot
    &&& r_pot > 0 && e.circulation > 0 && e.active > 0 ==> {
        &&& forall|p: Hash28| #[trigger] go.pool_stake.dom().contains(p) ==> pool_fits(e, go, p, go.pool_stake[p].0)
        &&& distributed_total(e, go) <= u64::MAX
    }
}

// ---- computing it ----

fn param_rat(r: Rational) -> (q: Rat)
    ensures
        q@ == param(r),
        q.wf(),
{
    let den: u64 = if r.denominator == 0 { 1 } else { r.denominator };
    Rat::from_i128(r.numerator as i128, den as i128)
}

fn ratio_rat(n: u64, d: u64) -> (q: Rat)
    ensures
        q@ == frac(n as int, d as int),
        q.wf(),
{
    Rat::from_i128(n as i128, d as i128)
}

fn whole_rat(n: u64) -> (q: Rat)
    ensures
        q@ == frac(n as int, 1),
        q.wf(),
{
    Rat::from_i128(n as i128, 1)
}

/// Blocks that pools are expected to make in an epoch.
pub fn count_expected_blocks(epoch_length: u64, pp: &ProtocolParameters) -> (r: u64)
    ensures
        r == expected_blocks(epoch_length, *pp),
        r > 0,
{
    let f: Rational = pp.active_slot_coefficient;
    if f.denominator == 0 {
        if f.numerator > 0 && epoch_length > 0 {
            return u64::MAX;
        }
        return 1;
    }
    let q: u64 = whole_rat(1).sub(&param_rat(pp.decentralization)).mul(&ratio_rat(f.numerator, f.denominator)).mul(
        &whole_rat(epoch_length),
    ).floor_u64();
    if q == 0 {
        1
    } else {
        q
    }
}

/// The values that all pools of an epoch share.
struct Pot {
    pot: u64,
    circulation: u64,
    active: u64,
    blocks: u64,
    n_opt: u64,
    a0: Rat,
    unfiltered: bool,
}

impl Pot {
    spec fn matches(&self, e: PotModel) -> bool {
        &&& self.pot == e.pot
        &&& self.circulation == e.circulation
        &&& self.active == e.active
        &&& self.blocks == e.blocks
        &&& self.n_opt == e.n_opt
        &&& self.a0@ == e.a0
        &&& self.unfiltered == e.unfiltered
    }

    fn max_pool(&self, stake: u64, pledge: u64, Ghost(e): Ghost<PotModel>) -> (r: u64)
        requires
            self.matches(e),
        ensures
            r == max_pool(e, stake, pledge),
    {
        let z0 = ratio_rat(1, self.n_opt);
        let sigma = ratio_rat(stake, self.circulation).min_rat(&z0);
        let p = ratio_rat(pledge, self.circulation).min_rat(&z0);
        let f4 = z0.sub(&sigma).div(&z0);
        let f3 = sigma.sub(&p.mul(&f4)).div(&z0);
        let f2 = sigma.add(&p.mul(&self.a0).mul(&f3));
        let f1 = whole_rat(self.pot).div(&whole_rat(1).add(&self.a0));
        f1.mul(&f2).floor_u64()
    }

    fn pool_earns(&self, stake: u64, pledge: u64, blocks: u64, Ghost(e): Ghost<PotModel>) -> (r: u64)
        requires
            self.matches(e),
        ensures
            r == pool_earns(e, stake, pledge, blocks),
    {
        if blocks == 0 || stake == 0 {
            return 0;
        }
        let most: u64 = self.max_pool(stake, pledge, Ghost(e));
        let perf = ratio_rat(blocks, self.blocks).mul(&ratio_rat(self.active, stake));
        perf.mul(&whole_rat(most)).floor_u64()
    }
}

/// What the operator gets; `None` where it does not fit.
fn operator_reward(reward: u64, pool: &PoolRegistration, owners: u64, stake: u64) -> (r: Option<u64>)
    ensures
        match r {
            Some(x) => x == operator_part(reward, pool.model(), owners as int, stake),
            None => operator_part(reward, pool.model(), owners as int, stake) > u64::MAX,
        },
{
    let cost: u64 = pool.cost.0;
    if reward <= cost {
        return Some(reward);
    }
    let den: u64 = if pool.margin_denominator == 0 { 1 } else { pool.margin_denominator };
    let margin = ratio_rat(pool.margin_numerator, den);
    let rest = Rat::from_i128(den as i128 - pool.margin_numerator as i128, den as i128);
    let share = margin.add(&rest.mul(&ratio_rat(owners, stake)));
    let extra: u64 = share.mul(&whole_rat(reward - cost)).floor_u64();
    cost.checked_add(extra)
}

fn member_reward(reward: u64, pool: &PoolRegistration, member_stake: u64, stake: u64) -> (r: u64)
    ensures
        r == member_part(reward, pool.model(), member_stake, stake),
{
    let cost: u64 = pool.cost.0;
    if reward <= cost {
        return 0;
    }
    let den: u64 = if pool.margin_denominator == 0 { 1 } else { pool.margin_denominator };
    let rest = Rat::from_i128(den as i128 - pool.margin_numerator as i128, den as i128);
    whole_rat(reward - cost).mul(&rest).mul(&ratio_rat(member_stake, stake)).floor_u64()
}

pub proof fn lemma_owner_key(h: Hash32, owner: Hash28)
    requires
        h@ == padded(owner@),
    ensures
        h == owner_key(owner),
{
    let k = owner_key(owner);
    assert(k@ == padded(owner@));
    assert(h =~= k);
}

/// Stake that owners delegate to their own pool; `None` where it does not fit.
fn sum_owner_stake(go: &StakeSnapshot, pool_id: &Hash28, owners: &Vec<Hash28>) -> (r: Option<u64>)
    ensures
        match r {
            Some(x) => x == owner_stake(go.model(), *pool_id, owners@),
            None => owner_stake(go.model(), *pool_id, owners@) > u64::MAX,
        },
{
    let mut sum: u64 = 0;
    let mut i: usize = 0;
    let ghost g = go.model();
    while i < owners.len()
        invariant
            i <= owners.len(),
            g == go.model(),
            sum == owner_stake(g, *pool_id, owners@.take(i as int)),
        decreases owners.len() - i,
    {
        let key: Hash32 = owners[i].to_hash32_padded();
        proof {
            lemma_owner_key(key, owners@[i as int]);
            assert(owners@.take(i + 1).drop_last() =~= owners@.take(i as int));
            lemma_owner_stake_prefix(g, *pool_id, owners@, i + 1);
        }
        if let Some(pool) = go.delegations.get(&key) {
            let own: bool = same_bytes(pool.as_slice(), pool_id.as_slice());
            proof {
                if own {
                    assert(*pool =~= *pool_id);
                }
            }
            if own {
                let stake: u64 = match go.stake_distribution.get(&key) {
                    Some(l) => l.0,
                    None => 0,
                };
                match sum.checked_add(stake) {
                    Some(x) => {
                        sum = x;
                    },
                    None => {
                        return None;
                    },
                }
            }
        }
        i += 1;
    }
    assert(owners@.take(i as int) =~= owners@);
    Some(sum)
}

proof fn lemma_owner_stake_prefix(g: SnapshotModel, p: Hash28, owners: Seq<Hash28>, i: int)
    requires
        0 <= i <= owners.len(),
    ensures
        owner_stake(g, p, owners.take(i)) <= owner_stake(g, p, owners),
    decreases owners.len() - i,
{
    if i == owners.len() {
        assert(owners.take(i) =~= owners);
    } else {
        assert(owners.take(i + 1).drop_last() =~= owners.take(i));
        lemma_owner_stake_prefix(g, p, owners, i + 1);
    }
}

fn owns(pool: &PoolRegistration, key: &Hash32) -> (r: bool)
    ensures
        r == is_owner(pool.model(), *key),
{
    let mut i: usize = 0;
    while i < pool.owners.len()
        invariant
            i <= pool.owners.len(),
            forall|j: int| 0 <= j < i ==> padded(#[trigger] pool.owners@[j]@) != key@,
        decreases pool.owners.len() - i,
    {
        let k: Hash32 = pool.owners[i].to_hash32_padded();
        if same_bytes(k.as_slice(), key.as_slice()) {
            assert(padded(pool.model().owners[i as int]@) == key@);
            return true;
        }
        i += 1;
    }
    false
}

fn sum_blocks(blocks: &Table<Hash28, u64>) -> (r: Option<u64>)
    ensures
        match r {
            Some(x) => x == block_total(blocks@),
            None => block_total(blocks@) > u64::MAX,
        },
{
    let ghost f = |p: Hash28, n: u64| n as nat;
    let ghost e = blocks.entries();
    let n: usize = blocks.len();
    proof {
        blocks.lemma_sum(f);
    }
    let mut sum: u64 = 0;
    let mut i: usize = 0;
    while i < n
        invariant
            i <= n,
            n == e.len(),
            e == blocks.entries(),
            f == (|p: Hash28, n: u64| n as nat),
            block_total(blocks@) == seq_sum(e, f),
            sum == seq_sum(e.take(i as int), f),
        decreases n - i,
    {
        proof {
            lemma_seq_sum_step(e, f, i as int);
            lemma_seq_sum_prefix(e, f, i + 1);
        }
        match sum.checked_add(*blocks.value_at(i)) {
            Some(x) => {
                sum = x;
            },
            None => {
                return None;
            },
        }
        i += 1;
    }
    assert(e.take(i as int) =~= e);
    Some(sum)
}

/// The sum of all stakes, at most `u64::MAX`.
pub(crate) fn sum_stake(stakes: &Table<Hash28, Lovelace>) -> (r: u64)
    ensures
        r == saturating_total(stakes@),
{
    let ghost f = |p: Hash28, v: Lovelace| v.0 as nat;
    let ghost e = stakes.entries();
    let n: usize = stakes.len();
    proof {
        stakes.lemma_sum(f);
    }
    let mut sum: u64 = 0;
    let mut i: usize = 0;
    while i < n
        invariant
            i <= n,
            n == e.len(),
            e == stakes.entries(),
            f == (|p: Hash28, v: Lovelace| v.0 as nat),
            sum == clamp(seq_sum(e.take(i as int), f) as int),
        decreases n - i,
    {
        proof {
            lemma_seq_sum_step(e, f, i as int);
        }
        sum = sum.saturating_add(stakes.value_at(i).0);
        i += 1;
    }
    assert(e.take(i as int) =~= e);
    sum
}

/// A map that holds exactly the amounts above zero.
spec fn holds(m: Map<Hash32, Lovelace>, f: spec_fn(Hash32) -> nat) -> bool {
    forall|c: Hash32|
        #![trigger m.dom().contains(c)]
        (m.dom().contains(c) <==> f(c) > 0) && (f(c) > 0 ==> m[c] == Lovelace(clamp(f(c) as int)))
}

spec fn plus_at(f: spec_fn(Hash32) -> nat, k: Hash32, x: nat) -> spec_fn(Hash32) -> nat {
    |c: Hash32| f(c) + if c == k { x } else { 0 }
}

/// Adds an amount to what a credential gets.
fn credit(rewards: &mut Table<Hash32, Lovelace>, k: Hash32, x: u64, Ghost(f): Ghost<spec_fn(Hash32) -> nat>)
    requires
        holds(old(rewards)@, f),
    ensures
        holds(final(rewards)@, plus_at(f, k, x as nat)),
{
    let ghost m = rewards@;
    let ghost g = plus_at(f, k, x as nat);
    if x > 0 {
        assert(m.dom().contains(k) <==> f(k) > 0);
        let before: Lovelace = match rewards.get(&k) {
            Some(l) => *l,
            None => Lovelace(0),
        };
        rewards.insert(k, before + Lovelace(x));
        assert forall|c: Hash32| #![trigger rewards@.dom().contains(c)] (rewards@.dom().contains(c) <==> g(c) > 0) && (g(
            c,
        ) > 0 ==> rewards@[c] == Lovelace(clamp(g(c) as int))) by {
            assert(m.dom().contains(c) <==> f(c) > 0);
        }
    } else {
        assert forall|c: Hash32| #![trigger rewards@.dom().contains(c)] (rewards@.dom().contains(c) <==> g(c) > 0) && (g(
            c,
        ) > 0 ==> rewards@[c] == Lovelace(clamp(g(c) as int))) by {
            assert(m.dom().contains(c) <==> f(c) > 0);
        }
    }
}

proof fn lemma_holds_same(m: Map<Hash32, Lovelace>, f: spec_fn(Hash32) -> nat, g: spec_fn(Hash32) -> nat)
    requires
        holds(m, f),
        forall|c: Hash32| #[trigger] f(c) == g(c),
    ensures
        holds(m, g),
{
    assert forall|c: Hash32| #![trigger m.dom().contains(c)] (m.dom().contains(c) <==> g(c) > 0) && (g(c) > 0
        ==> m[c] == Lovelace(clamp(g(c) as int))) by {
        assert(f(c) == g(c));
        assert(m.dom().contains(c) <==> f(c) > 0);
        assert(f(c) > 0 ==> m[c] == Lovelace(clamp(f(c) as int)));
    }
}

/// What one credential gets as a member, counted delegator by delegator.
spec fn pick_fn(e: PotModel, go: SnapshotModel, p: Hash28, stake: u64, c: Hash32) -> spec_fn(Hash32, Hash28) -> nat {
    |d: Hash32, q: Hash28| if d == c { member_share(e, go, p, stake, d) } else { 0 }
}

spec fn plus_members(
    f: spec_fn(Hash32) -> nat,
    e: PotModel,
    go: SnapshotModel,
    p: Hash28,
    stake: u64,
    ds: Seq<(Hash32, Hash28)>,
) -> spec_fn(Hash32) -> nat {
    |c: Hash32| f(c) + seq_sum(ds, pick_fn(e, go, p, stake, c))
}

/// Among entries with distinct keys, at most one is the credential's own.
proof fn lemma_pick(e: PotModel, go: SnapshotModel, p: Hash28, stake: u64, c: Hash32, ds: Seq<(Hash32, Hash28)>)
    requires
        crate::sums::distinct_keys(ds),
    ensures
        (exists|i: int| #![trigger ds[i]] 0 <= i < ds.len() && ds[i].0 == c) ==> seq_sum(ds, pick_fn(e, go, p, stake, c))
            == member_share(e, go, p, stake, c),
        !(exists|i: int| #![trigger ds[i]] 0 <= i < ds.len() && ds[i].0 == c) ==> seq_sum(
            ds,
            pick_fn(e, go, p, stake, c),
        ) == 0,
    decreases ds.len(),
{
    if ds.len() > 0 {
        let t = ds.drop_last();
        assert(crate::sums::distinct_keys(t)) by {
            assert forall|i: int, j: int| #![trigger t[i], t[j]] 0 <= i < j < t.len() implies t[i].0 != t[j].0 by {
                assert(ds[i] == t[i] && ds[j] == t[j]);
            }
        }
        lemma_pick(e, go, p, stake, c, t);
        assert(ds[ds.len() - 1] == ds.last());
        if ds.last().0 == c {
            assert(!(exists|i: int| #![trigger t[i]] 0 <= i < t.len() && t[i].0 == c)) by {
                if exists|i: int| #![trigger t[i]] 0 <= i < t.len() && t[i].0 == c {
                    let i = choose|i: int| #![trigger t[i]] 0 <= i < t.len() && t[i].0 == c;
                    assert(ds[i] == t[i]);
                }
            }
        } else {
            if exists|i: int| #![trigger ds[i]] 0 <= i < ds.len() && ds[i].0 == c {
                let i = choose|i: int| #![trigger ds[i]] 0 <= i < ds.len() && ds[i].0 == c;
                assert(t[i] == ds[i]);
            }
            if exists|i: int| #![trigger t[i]] 0 <= i < t.len() && t[i].0 == c {
                let i = choose|i: int| #![trigger t[i]] 0 <= i < t.len() && t[i].0 == c;
                assert(ds[i] == t[i]);
            }
        }
    }
}

spec fn plus_member(f: spec_fn(Hash32) -> nat, e: PotModel, go: SnapshotModel, p: Hash28, stake: u64) -> spec_fn(
    Hash32,
) -> nat {
    |c: Hash32| f(c) + member_share(e, go, p, stake, c)
}

spec fn plus_pool(f: spec_fn(Hash32) -> nat, e: PotModel, go: SnapshotModel, p: Hash28, stake: u64) -> spec_fn(Hash32) -> nat {
    |c: Hash32| f(c) + share_of(e, go, p, stake, c)
}

/// Pays the members of a pool; `None` where the total does not fit.
fn pay_members(
    go: &StakeSnapshot,
    pool_id: &Hash28,
    pool: &PoolRegistration,
    reward: u64,
    stake: u64,
    total: u64,
    rewards: &mut Table<Hash32, Lovelace>,
    Ghost(e): Ghost<PotModel>,
    Ghost(f): Ghost<spec_fn(Hash32) -> nat>,
) -> (r: Option<u64>)
    requires
        go.model().pool_params.dom().contains(*pool_id),
        go.model().pool_params[*pool_id] == pool.model(),
        reward == reward_of_pool(e, go.model(), *pool_id, stake),
        reward > 0,
        holds(old(rewards)@, f),
    ensures
        match r {
            Some(x) => x == total + map_sum(go.model().delegations, member_fn(e, go.model(), *pool_id, stake)) && holds(
                final(rewards)@,
                plus_member(f, e, go.model(), *pool_id, stake),
            ),
            None => total + map_sum(go.model().delegations, member_fn(e, go.model(), *pool_id, stake)) > u64::MAX,
        },
{
    let ghost g = go.model();
    let ghost p = *pool_id;
    let ghost ds = go.delegations.entries();
    let ghost mf = member_fn(e, g, p, stake);
    let n: usize = go.delegations.len();
    proof {
        go.delegations.lemma_entries();
        go.delegations.lemma_sum(mf);
        assert(ds.take(0) =~= Seq::empty());
        assert forall|c: Hash32| #[trigger] f(c) == plus_members(f, e, g, p, stake, ds.take(0))(c) by {}
        lemma_holds_same(rewards@, f, plus_members(f, e, g, p, stake, ds.take(0)));
    }
    let mut sum: u64 = total;
    let mut i: usize = 0;
    while i < n
        invariant
            i <= n,
            n == ds.len(),
            ds == go.delegations.entries(),
            go.delegations.wf(),
            g == go.model(),
            p == *pool_id,
            mf == member_fn(e, g, p, stake),
            g.pool_params.dom().contains(p),
            g.pool_params[p] == pool.model(),
            reward == reward_of_pool(e, g, p, stake),
            reward > 0,
            map_sum(g.delegations, mf) == seq_sum(ds, mf),
            sum == total + seq_sum(ds.take(i as int), mf),
            holds(rewards@, plus_members(f, e, g, p, stake, ds.take(i as int))),
        decreases n - i,
    {
        proof {
            go.delegations.lemma_entries();
            lemma_seq_sum_step(ds, mf, i as int);
            lemma_seq_sum_prefix(ds, mf, i + 1);
        }
        let key: Hash32 = *go.delegations.key_at(i);
        let to: Hash28 = *go.delegations.value_at(i);
        let mine: bool = same_bytes(to.as_slice(), pool_id.as_slice());
        proof {
            if mine {
                assert(to =~= p);
            }
        }
        let ghost before = plus_members(f, e, g, p, stake, ds.take(i as int));
        let mut share: u64 = 0;
        if mine && !owns(pool, &key) {
            let member_stake: u64 = match go.stake_distribution.get(&key) {
                Some(l) => l.0,
                None => 0,
            };
            share = member_reward(reward, pool, member_stake, stake);
        }
        assert(share == member_share(e, g, p, stake, key));
        credit(rewards, key, share, Ghost(before));
        match sum.checked_add(share) {
            Some(x) => {
                sum = x;
            },
            None => {
                return None;
            },
        }
        proof {
            let after = plus_members(f, e, g, p, stake, ds.take(i + 1));
            assert forall|c: Hash32| #[trigger] plus_at(before, key, share as nat)(c) == after(c) by {
                lemma_seq_sum_step(ds, pick_fn(e, g, p, stake, c), i as int);
            }
            lemma_holds_same(rewards@, plus_at(before, key, share as nat), after);
        }
        i += 1;
    }
    proof {
        assert(ds.take(i as int) =~= ds);
        let end = plus_member(f, e, g, p, stake);
        assert forall|c: Hash32| #[trigger] plus_members(f, e, g, p, stake, ds)(c) == end(c) by {
            lemma_pick(e, g, p, stake, c, ds);
            if exists|i: int| #![trigger ds[i]] 0 <= i < ds.len() && ds[i].0 == c {
            } else {
                assert(!g.delegations.dom().contains(c));
            }
        }
        lemma_holds_same(rewards@, plus_members(f, e, g, p, stake, ds), end);
    }
    Some(sum)
}

/// Pays the members and the operator of a pool; `None` where a sum does not
/// fit.
fn pay_pool(
    accounts: &Table<Hash32, Lovelace>,
    pot: &Pot,
    go: &StakeSnapshot,
    pool_id: &Hash28,
    stake: u64,
    total: u64,
    rewards: &mut Table<Hash32, Lovelace>,
    Ghost(e): Ghost<PotModel>,
    Ghost(f): Ghost<spec_fn(Hash32) -> nat>,
) -> (r: Option<u64>)
    requires
        pot.matches(e),
        e.accounts == accounts@.dom(),
        holds(old(rewards)@, f),
    ensures
        match r {
            Some(x) => pool_fits(e, go.model(), *pool_id, stake) && x == total + pool_pays(
                e,
                go.model(),
                *pool_id,
                stake,
            ) && holds(final(rewards)@, plus_pool(f, e, go.model(), *pool_id, stake)),
            None => !pool_fits(e, go.model(), *pool_id, stake) || total + pool_pays(e, go.model(), *pool_id, stake)
                > u64::MAX,
        },
{
    let ghost g = go.model();
    let ghost p = *pool_id;
    let ghost after = plus_pool(f, e, g, p, stake);
    let found = go.pool_params.get(pool_id);
    let mut reward: u64 = 0;
    let mut owners: u64 = 0;
    if let Some(pool) = found {
        owners = match sum_owner_stake(go, pool_id, &pool.owners) {
            Some(x) => x,
            None => {
                return None;
            },
        };
        if owners >= pool.pledge.0 {
            let blocks: u64 = match go.epoch_blocks_by_pool.get(pool_id) {
                Some(b) => *b,
                None => 0,
            };
            reward = pot.pool_earns(stake, pool.pledge.0, blocks, Ghost(e));
        }
    }
    assert(reward == reward_of_pool(e, g, p, stake));
    if reward > 0 {
        if let Some(pool) = found {
            let operator: u64 = match operator_reward(reward, pool, owners, stake) {
                Some(x) => x,
                None => {
                    return None;
                },
            };
            let sum: u64 = match pay_members(go, pool_id, pool, reward, stake, total, rewards, Ghost(e), Ghost(f)) {
                Some(x) => x,
                None => {
                    return None;
                },
            };
            let ghost mid = plus_member(f, e, g, p, stake);
            let key: Hash32 = LedgerState::reward_account_to_hash(&pool.reward_account);
            let paid: u64 = if pot.unfiltered || accounts.contains_key(&key) {
                operator
            } else {
                0
            };
            assert(paid == operator_share(e, g, p, stake));
            credit(rewards, key, paid, Ghost(mid));
            proof {
                assert forall|c: Hash32| #[trigger] plus_at(mid, key, paid as nat)(c) == after(c) by {}
                lemma_holds_same(rewards@, plus_at(mid, key, paid as nat), after);
            }
            return sum.checked_add(paid);
        }
    }
    proof {
        assert forall|c: Hash32| #[trigger] f(c) == after(c) by {}
        lemma_holds_same(rewards@, f, after);
        let mf = member_fn(e, g, p, stake);
        use_type_invariant(&go.delegations);
        go.delegations.lemma_sum(mf);
        lemma_zero_sum(go.delegations.entries(), mf);
    }
    Some(total)
}

proof fn lemma_zero_sum<K, V>(s: Seq<(K, V)>, f: spec_fn(K, V) -> nat)
    requires
        forall|k: K, v: V| #[trigger] f(k, v) == 0,
    ensures
        seq_sum(s, f) == 0,
    decreases s.len(),
{
    if s.len() > 0 {
        lemma_zero_sum(s.drop_last(), f);
    }
}

spec fn plus_pools(e: PotModel, go: SnapshotModel, ps: Seq<(Hash28, Lovelace)>) -> spec_fn(Hash32) -> nat {
    |c: Hash32| seq_sum(ps, share_fn(e, go, c))
}

/// A sum of all pools can be counted.
spec fn pools_fit(e: PotModel, go: SnapshotModel) -> bool {
    &&& forall|p: Hash28| #[trigger] go.pool_stake.dom().contains(p) ==> pool_fits(e, go, p, go.pool_stake[p].0)
    &&& distributed_total(e, go) <= u64::MAX
}

/// Pays all pools; `None` where a sum does not fit.
fn pay_pools(
    accounts: &Table<Hash32, Lovelace>,
    pot: &Pot,
    go: &StakeSnapshot,
    Ghost(e): Ghost<PotModel>,
) -> (r: Option<(Table<Hash32, Lovelace>, u64)>)
    requires
        pot.matches(e),
        e.accounts == accounts@.dom(),
    ensures
        match r {
            Some(x) => pools_fit(e, go.model()) && x.0@ == reward_map(e, go.model()) && x.1 == distributed_total(
                e,
                go.model(),
            ),
            None => !pools_fit(e, go.model()),
        },
{
    let ghost g = go.model();
    let ghost ps = go.pool_stake.entries();
    let ghost pf = pays_fn(e, g);
    let n: usize = go.pool_stake.len();
    let mut rewards: Table<Hash32, Lovelace> = Table::new();
    proof {
        go.pool_stake.lemma_entries();
        go.pool_stake.lemma_sum(pf);
        assert(ps.take(0) =~= Seq::empty());
        assert(holds(rewards@, plus_pools(e, g, ps.take(0))));
    }
    let mut total: u64 = 0;
    let mut i: usize = 0;
    while i < n
        invariant
            i <= n,
            n == ps.len(),
            ps == go.pool_stake.entries(),
            go.pool_stake.wf(),
            g == go.model(),
            pf == pays_fn(e, g),
            pot.matches(e),
            e.accounts == accounts@.dom(),
            forall|j: int| #![trigger ps[j]] 0 <= j < i ==> pool_fits(e, g, ps[j].0, ps[j].1.0),
            distributed_total(e, g) == seq_sum(ps, pf),
            total == seq_sum(ps.take(i as int), pf),
            holds(rewards@, plus_pools(e, g, ps.take(i as int))),
        decreases n - i,
    {
        let ghost before = plus_pools(e, g, ps.take(i as int));
        proof {
            go.pool_stake.lemma_entries();
            lemma_seq_sum_step(ps, pf, i as int);
            lemma_seq_sum_prefix(ps, pf, i + 1);
            assert(g.pool_stake.dom().contains(ps[i as int].0));
        }
        let stake: u64 = go.pool_stake.value_at(i).0;
        let pool_id: &Hash28 = go.pool_stake.key_at(i);
        total = match pay_pool(accounts, pot, go, pool_id, stake, total, &mut rewards, Ghost(e), Ghost(before)) {
            Some(x) => x,
            None => {
                return None;
            },
        };
        proof {
            let after = plus_pools(e, g, ps.take(i + 1));
            let step = plus_pool(before, e, g, *pool_id, stake);
            assert forall|c: Hash32| #[trigger] step(c) == after(c) by {
                lemma_seq_sum_step(ps, share_fn(e, g, c), i as int);
            }
            lemma_holds_same(rewards@, step, after);
        }
        i += 1;
    }
    proof {
        assert(ps.take(i as int) =~= ps);
        let all = plus_pools(e, g, ps);
        assert forall|c: Hash32| #[trigger] all(c) == reward_of(e, g, c) by {
            go.pool_stake.lemma_sum(share_fn(e, g, c));
        }
        assert forall|c: Hash32| rewards@.dom().contains(c) <==> reward_map(e, g).dom().contains(c) by {
            assert(all(c) == reward_of(e, g, c));
        }
        assert forall|c: Hash32| rewards@.dom().contains(c) implies rewards@[c] == reward_map(e, g)[c] by {
            assert(all(c) == reward_of(e, g, c));
        }
        assert(rewards@ =~= reward_map(e, g));
        assert forall|p: Hash28| #[trigger] g.pool_stake.dom().contains(p) implies pool_fits(e, g, p, g.pool_stake[p].0) by {
            let j = choose|j: int| #![trigger ps[j]] 0 <= j < ps.len() && ps[j].0 == p;
            assert(g.pool_stake[p] == ps[j].1);
        }
    }
    Some((rewards, total))
}

impl LedgerState {
    /// Calculates the reward update of an epoch: pools earn by their stake,
    /// pledge and performance, pools that do not meet their pledge earn
    /// nothing, operators take cost, margin and their owners' share, members
    /// share the rest. The update is applied at the next epoch boundary.
    pub fn calculate_rewards(&self, go_snapshot: &StakeSnapshot, fees: Lovelace, pp: &ProtocolParameters) -> (r:
        PendingRewardUpdate)
        requires
            rewards_fit(self@, go_snapshot.model(), fees, *pp),
        ensures
            r.model() == reward_update(self@, go_snapshot.model(), fees, *pp),
    {
        self.checked_rewards(go_snapshot, fees, pp).unwrap()
    }

    /// Calculates the reward update of an epoch; `None` where a sum does not
    /// fit `u64` or the treasury would take more than the pot.
    pub fn checked_rewards(&self, go_snapshot: &StakeSnapshot, fees: Lovelace, pp: &ProtocolParameters) -> (r: Option<
        PendingRewardUpdate,
    >)
        ensures
            match r {
                Some(u) => rewards_fit(self@, go_snapshot.model(), fees, *pp) && u.model() == reward_update(
                    self@,
                    go_snapshot.model(),
                    fees,
                    *pp,
                ),
                None => !rewards_fit(self@, go_snapshot.model(), fees, *pp),
            },
    {
        let ghost s = self@;
        let ghost go = go_snapshot.model();
        let blocks: u64 = match sum_blocks(&go_snapshot.epoch_blocks_by_pool) {
            Some(x) => x,
            None => {
                return None;
            },
        };
        let d: Rational = pp.decentralization;
        let d_den: u64 = if d.denominator == 0 { 1 } else { d.denominator };
        let eta: Rational = if 5 * (d.numerator as u128) >= 4 * (d_den as u128) {
            Rational { numerator: 1, denominator: 1 }
        } else {
            let expected: u64 = count_expected_blocks(self.epoch_length, pp);
            Rational { numerator: if blocks < expected { blocks } else { expected }, denominator: expected }
        };
        let expansion: u64 = ratio_rat(eta.numerator, eta.denominator).mul(&param_rat(pp.rho)).mul(
            &whole_rat(self.reserves.0),
        ).floor_u64();
        let r_pot: u64 = match expansion.checked_add(fees.0) {
            Some(x) => x,
            None => {
                return None;
            },
        };
        if r_pot == 0 {
            return Some(PendingRewardUpdate {
                rewards: Table::new(),
                delta_treasury: 0,
                delta_reserves: 0,
                undistributed: 0,
                eta,
                delta_r1: expansion,
                r_pot,
                delta_t1: 0,
                reward_pot_after_treasury: 0,
                total_distributed: 0,
            });
        }
        let cut: u64 = param_rat(pp.tau).mul(&whole_rat(r_pot)).floor_u64();
        if cut > r_pot {
            return None;
        }
        let pot: u64 = r_pot - cut;
        let circulation: u64 = MAX_LOVELACE_SUPPLY.saturating_sub(self.reserves.0);
        let active: u64 = sum_stake(&go_snapshot.pool_stake);
        let ghost e = pot_of(s, go, *pp, pot);
        let mut rewards: Table<Hash32, Lovelace> = Table::new();
        let mut total: u64 = 0;
        if circulation != 0 && active != 0 {
            let shared = Pot {
                pot,
                circulation,
                active,
                blocks: if blocks == 0 { 1 } else { blocks },
                n_opt: if pp.n_opt == 0 { 1 } else { pp.n_opt },
                a0: param_rat(pp.a0),
                unfiltered: pp.protocol_version_major > 6,
            };
            let paid = match pay_pools(&self.reward_accounts, &shared, go_snapshot, Ghost(e)) {
                Some(x) => x,
                None => {
                    return None;
                },
            };
            rewards = paid.0;
            total = paid.1;
        }
        Some(PendingRewardUpdate {
            rewards,
            delta_treasury: cut,
            delta_reserves: expansion,
            undistributed: pot.saturating_sub(total),
            eta,
            delta_r1: expansion,
            r_pot,
            delta_t1: cut,
            reward_pot_after_treasury: pot,
            total_distributed: total,
        })
    }
}

} // verus!
