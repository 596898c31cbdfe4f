//! The reward formulas as real numbers.

use vstd::prelude::*;
use crate::ledger::bounds::{
    lemma_cast_mul, lemma_max_pool, lemma_pledge_influence, lemma_val_add, lemma_val_div, lemma_val_frac, lemma_val_min, lemma_val_mul,
    lemma_val_sub, val,
};
use crate::ledger::primitives::{padded, Hash28, Hash32, Lovelace, ProtocolParameters, Rational};
use crate::ledger::rational::{
    frac, frac_add, frac_div, frac_floor, frac_min, frac_mul, frac_sub, lemma_frac_value, Frac,
};
use crate::ledger::rewards::{
    after_pending_rewards, after_rewards, block_total, distributed_total, eta_of, expansion_of, expected_blocks, is_owner, lemma_owner_key, max_pool, member_fn, member_part,
    operator_part, owner_stake, param, pays_fn, pool_earns, pool_pays, pot_of, reward_map, reward_of, reward_of_pool, reward_update, rewards_fit,
    share_fn, share_of, treasury_cut_of, unregistered_amount, PotModel,
};
use crate::ledger::state::{account_key, at_least_one, LedgerModel, PoolModel, RewardModel, SnapshotModel};
use crate::sums::{lemma_sum_insert, lemma_sum_remove, lemma_sum_same, lemma_sum_scaled, map_sum};

verus! {

/// The smaller of two real numbers.
pub open spec fn least(a: real, b: real) -> real {
    if a <= b {
        a
    } else {
        b
    }
}

/// One number over another.
pub open spec fn over(a: int, b: int) -> real {
    a as real / b as real
}

/// Whether a number is the floor of a real number, kept within `u64`.
pub open spec fn is_floor(r: int, x: real) -> bool {
    if x < 0 as real {
        r == 0
    } else if x >= u64::MAX as real {
        r == u64::MAX
    } else {
        r as real <= x && x < (r + 1) as real
    }
}

proof fn lemma_floor(a: Frac)
    requires
        a.d > 0,
    ensures
        is_floor(frac_floor(a) as int, val(a)),
{
    let (an, ad, x) = (a.n as real, a.d as real, val(a));
    let q = a.n / a.d;
    let m = u64::MAX as int;
    vstd::arithmetic::div_mod::lemma_fundamental_div_mod(a.n, a.d);
    vstd::arithmetic::div_mod::lemma_mod_bound(a.n, a.d);
    lemma_cast_mul(a.d, q);
    lemma_cast_mul(a.d, q + 1);
    assert(a.d * (q + 1) == a.d * q + a.d) by (nonlinear_arith);
    assert(q as real <= x && x < (q + 1) as real) by (nonlinear_arith)
        requires
            x == an / ad,
            ad > 0 as real,
            ad * q as real <= an,
            an < ad * (q + 1) as real,
    ;
    if a.n <= 0 {
        assert(x <= 0 as real) by (nonlinear_arith)
            requires
                x == an / ad,
                ad > 0 as real,
                an <= 0 as real,
        ;
    } else {
        assert(x > 0 as real) by (nonlinear_arith)
            requires
                x == an / ad,
                ad > 0 as real,
                an > 0 as real,
        ;
        vstd::arithmetic::div_mod::lemma_div_pos_is_pos(a.n, a.d);
        if x >= m as real {
            assert((q + 1) as real > m as real);
            assert(q + 1 > m);
        } else {
            assert((q as real) < m as real);
            assert(q < m);
        }
    }
}

proof fn lemma_min(a: Frac, b: Frac)
    requires
        a.d > 0,
        b.d > 0,
    ensures
        frac_min(a, b).d > 0,
        val(frac_min(a, b)) == least(val(a), val(b)),
{
    lemma_val_min(a, b);
}

proof fn lemma_positive(a: Frac)
    requires
        a.d > 0,
        val(a) > 0 as real,
    ensures
        a.n > 0,
{
    if a.n <= 0 {
        let (an, ad, x) = (a.n as real, a.d as real, val(a));
        assert(x <= 0 as real) by (nonlinear_arith)
            requires
                x == an / ad,
                ad > 0 as real,
                an <= 0 as real,
        ;
    }
}

// ---- fractions ----

/// Fractions add, subtract, multiply and divide as the numbers that they stand
/// for, and are rounded down.
pub proof fn law_fractions(a: Frac, b: Frac)
    requires
        a.d > 0,
        b.d > 0,
    ensures
        over(frac_add(a, b).n, frac_add(a, b).d) == over(a.n, a.d) + over(b.n, b.d),
        over(frac_sub(a, b).n, frac_sub(a, b).d) == over(a.n, a.d) - over(b.n, b.d),
        over(frac_mul(a, b).n, frac_mul(a, b).d) == over(a.n, a.d) * over(b.n, b.d),
        b.n > 0 ==> over(frac_div(a, b).n, frac_div(a, b).d) == over(a.n, a.d) / over(b.n, b.d),
        b.n == 0 ==> frac_div(a, b).n == 0,
        over(frac_min(a, b).n, frac_min(a, b).d) == least(over(a.n, a.d), over(b.n, b.d)),
        over(frac(a.n, a.d).n, frac(a.n, a.d).d) == over(a.n, a.d),
        is_floor(frac_floor(a) as int, over(a.n, a.d)),
{
    lemma_val_add(a, b);
    lemma_val_sub(a, b);
    lemma_val_mul(a, b);
    if b.n > 0 {
        lemma_val_div(a, b);
    }
    if b.n == 0 {
        lemma_frac_value(0, 1);
    }
    lemma_min(a, b);
    lemma_val_frac(a.n, a.d);
    lemma_floor(a);
}

// ---- a pool ----

/// The most that a pool can earn, as a real number: with `z0 = 1 / n`, the
/// stake and the pledge as parts of the circulation, each at most `z0`,
/// `pot / (1 + a) * (s + p * a * (s - p * (z0 - s) / z0) / z0)`.
pub open spec fn most_earned(pot: real, z0: real, stake: real, pledge: real, a: real) -> real {
    let s = least(stake, z0);
    let p = least(pledge, z0);
    pot / (1 as real + a) * (s + p * a * ((s - p * ((z0 - s) / z0)) / z0))
}

/// The most that a pool can earn is the floor of the formula.
pub proof fn law_max_pool(e: PotModel, stake: u64, pledge: u64)
    requires
        e.circulation > 0,
        e.n_opt > 0,
        e.a0.d > 0,
        e.a0.n >= 0,
    ensures
        is_floor(
            max_pool(e, stake, pledge) as int,
            most_earned(
                e.pot as real,
                over(1, e.n_opt as int),
                over(stake as int, e.circulation as int),
                over(pledge as int, e.circulation as int),
                over(e.a0.n, e.a0.d),
            ),
        ),
{
    let z0 = frac(1, e.n_opt as int);
    lemma_val_frac(1, e.n_opt as int);
    let zr = val(z0);
    let nr = e.n_opt as real;
    assert(zr > 0 as real) by (nonlinear_arith)
        requires
            nr > 0 as real,
            zr == 1 as real / nr,
    ;
    lemma_positive(z0);
    let part = frac(stake as int, e.circulation as int);
    let pledged = frac(pledge as int, e.circulation as int);
    lemma_val_frac(stake as int, e.circulation as int);
    lemma_val_frac(pledge as int, e.circulation as int);
    let sigma = frac_min(part, z0);
    let p = frac_min(pledged, z0);
    lemma_min(part, z0);
    lemma_min(pledged, z0);
    let d4 = frac_sub(z0, sigma);
    lemma_val_sub(z0, sigma);
    let f4 = frac_div(d4, z0);
    lemma_val_div(d4, z0);
    let m3 = frac_mul(p, f4);
    lemma_val_mul(p, f4);
    let d3 = frac_sub(sigma, m3);
    lemma_val_sub(sigma, m3);
    let f3 = frac_div(d3, z0);
    lemma_val_div(d3, z0);
    let m2 = frac_mul(p, e.a0);
    lemma_val_mul(p, e.a0);
    let m1 = frac_mul(m2, f3);
    lemma_val_mul(m2, f3);
    let f2 = frac_add(sigma, m1);
    lemma_val_add(sigma, m1);
    let one = frac(1, 1);
    lemma_val_frac(1, 1);
    let s1 = frac_add(one, e.a0);
    lemma_val_add(one, e.a0);
    let ar = val(e.a0);
    assert(ar >= 0 as real) by (nonlinear_arith)
        requires
            ar == e.a0.n as real / e.a0.d as real,
            e.a0.n as real >= 0 as real,
            e.a0.d as real > 0 as real,
    ;
    lemma_positive(s1);
    let pot = frac(e.pot as int, 1);
    lemma_val_frac(e.pot as int, 1);
    let f1 = frac_div(pot, s1);
    lemma_val_div(pot, s1);
    let f0 = frac_mul(f1, f2);
    lemma_val_mul(f1, f2);
    lemma_floor(f0);
    assert(max_pool(e, stake, pledge) == frac_floor(f0));
}

/// A pool whose pledge is at most its stake can earn at least the floor of
/// `pot / (1 + a) * s`, and exactly that where it pledges nothing.
pub proof fn law_pool_owed(e: PotModel, stake: u64, pledge: u64)
    requires
        e.circulation > 0,
        e.n_opt > 0,
        e.a0.d > 0,
        e.a0.n >= 0,
        pledge <= stake,
    ensures
        ({
            let s = least(over(stake as int, e.circulation as int), over(1, e.n_opt as int));
            let x = e.pot as real / (1 as real + over(e.a0.n, e.a0.d)) * s;
            &&& x < (max_pool(e, stake, pledge) + 1) as real
            &&& pledge == 0 ==> max_pool(e, stake, pledge) as real <= x
        }),
{
    let z = over(1, e.n_opt as int);
    let c = e.circulation as real;
    let nr = e.n_opt as real;
    let part = over(stake as int, e.circulation as int);
    let pledged = over(pledge as int, e.circulation as int);
    let a = over(e.a0.n, e.a0.d);
    let pot = e.pot as real;
    law_max_pool(e, stake, pledge);
    lemma_max_pool(e, stake, pledge);
    assert(z > 0 as real && z <= 1 as real) by (nonlinear_arith)
        requires
            nr >= 1 as real,
            z == 1 as real / nr,
    ;
    assert(0 as real <= pledged && pledged <= part) by (nonlinear_arith)
        requires
            c > 0 as real,
            pledged == pledge as real / c,
            part == stake as real / c,
            0 as real <= pledge as real,
            pledge as real <= stake as real,
    ;
    assert(a >= 0 as real) by (nonlinear_arith)
        requires
            a == e.a0.n as real / e.a0.d as real,
            e.a0.n as real >= 0 as real,
            e.a0.d as real > 0 as real,
    ;
    let s = least(part, z);
    let p = least(pledged, z);
    assert(0 as real <= p && p <= s && s <= z);
    let w = (z - s) / z;
    assert(0 as real <= w && w <= 1 as real) by (nonlinear_arith)
        requires
            w == (z - s) / z,
            z > 0 as real,
            0 as real <= s,
            s <= z,
    ;
    let u = (s - p * w) / z;
    assert(u >= 0 as real) by (nonlinear_arith)
        requires
            u == (s - p * w) / z,
            z > 0 as real,
            0 as real <= p,
            p <= s,
            0 as real <= w,
            w <= 1 as real,
    ;
    let g = s + p * a * u;
    assert(g >= s) by (nonlinear_arith)
        requires
            g == s + p * a * u,
            p >= 0 as real,
            a >= 0 as real,
            u >= 0 as real,
    ;
    let k = pot / (1 as real + a);
    assert(k >= 0 as real && k <= pot) by (nonlinear_arith)
        requires
            k == pot / (1 as real + a),
            a >= 0 as real,
            pot >= 0 as real,
    ;
    let x = k * s;
    let y = k * g;
    assert(y >= x && x >= 0 as real && x <= pot) by (nonlinear_arith)
        requires
            x == k * s,
            y == k * g,
            k >= 0 as real,
            k <= pot,
            g >= s,
            s >= 0 as real,
            s <= 1 as real,
    ;
    assert(y == most_earned(pot, z, part, pledged, a));
    let m = max_pool(e, stake, pledge);
    if y >= u64::MAX as real {
        assert(m == u64::MAX);
        assert(x < (m + 1) as real);
    }
    if pledge == 0 {
        assert(pledged == 0 as real) by (nonlinear_arith)
            requires
                c > 0 as real,
                pledged == 0 as real / c,
        ;
        assert(p == 0 as real);
        assert(p * a * u == 0 as real) by (nonlinear_arith)
            requires
                p == 0 as real,
        ;
        assert(y == x);
    }
}

/// What a pool earns is the floor of its part of the blocks over its part of
/// the stake of all pools, times the most that it can earn.
pub proof fn law_pool_earns(e: PotModel, stake: u64, pledge: u64, blocks: u64)
    requires
        e.blocks > 0,
    ensures
        blocks == 0 || stake == 0 ==> pool_earns(e, stake, pledge, blocks) == 0,
        blocks > 0 && stake > 0 ==> is_floor(
            pool_earns(e, stake, pledge, blocks) as int,
            over(blocks as int, e.blocks as int) * over(e.active as int, stake as int) * (max_pool(
                e,
                stake,
                pledge,
            ) as real),
        ),
{
    if blocks > 0 && stake > 0 {
        let most = max_pool(e, stake, pledge);
        let f1 = frac(blocks as int, e.blocks as int);
        let f2 = frac(e.active as int, stake as int);
        lemma_val_frac(blocks as int, e.blocks as int);
        lemma_val_frac(e.active as int, stake as int);
        let f3 = frac_mul(f1, f2);
        lemma_val_mul(f1, f2);
        let f4 = frac(most as int, 1);
        lemma_val_frac(most as int, 1);
        lemma_val_mul(f3, f4);
        lemma_floor(frac_mul(f3, f4));
    }
}

// ---- what a pool pays ----

/// The margin of a pool as a real number.
pub open spec fn margin_of(pool: PoolModel) -> real {
    over(
        pool.margin_numerator as int,
        if pool.margin_denominator == 0 {
            1
        } else {
            pool.margin_denominator as int
        },
    )
}

/// The operator gets the cost, and the floor of the margin and of the owners'
/// share of what the margin leaves, of what the pool earns above its cost. A
/// pool that earns no more than its cost pays all to the operator.
pub proof fn law_operator_part(reward: u64, pool: PoolModel, owners: int, stake: u64)
    requires
        stake > 0,
    ensures
        reward <= pool.cost.0 ==> operator_part(reward, pool, owners, stake) == reward,
        reward > pool.cost.0 ==> is_floor(
            operator_part(reward, pool, owners, stake) - pool.cost.0,
            (margin_of(pool) + (1 as real - margin_of(pool)) * over(owners, stake as int)) * (reward
                - pool.cost.0) as real,
        ),
{
    if reward > pool.cost.0 {
        let den = at_least_one(pool.margin_denominator) as int;
        let num = pool.margin_numerator as int;
        let x = reward - pool.cost.0;
        let f1 = frac(num, den);
        let f2 = frac(den - num, den);
        let f3 = frac(owners, stake as int);
        lemma_val_frac(num, den);
        lemma_val_frac(den - num, den);
        lemma_val_frac(owners, stake as int);
        lemma_rest(num, den);
        lemma_val_mul(f2, f3);
        let m = frac_mul(f2, f3);
        lemma_val_add(f1, m);
        let share = frac_add(f1, m);
        lemma_val_frac(x, 1);
        lemma_val_mul(share, frac(x, 1));
        lemma_floor(frac_mul(share, frac(x, 1)));
    }
}

proof fn lemma_rest(num: int, den: int)
    requires
        den > 0,
    ensures
        over(den - num, den) == 1 as real - over(num, den),
{
    let (n, d) = (num as real, den as real);
    assert((d - n) / d == 1 as real - n / d) by (nonlinear_arith)
        requires
            d > 0 as real,
    ;
}

/// A member gets the floor of its part of the pool's stake, of what the margin
/// leaves of what the pool earns above its cost.
pub proof fn law_member_part(reward: u64, pool: PoolModel, member: u64, stake: u64)
    requires
        stake > 0,
    ensures
        reward <= pool.cost.0 ==> member_part(reward, pool, member, stake) == 0,
        reward > pool.cost.0 ==> is_floor(
            member_part(reward, pool, member, stake) as int,
            (reward - pool.cost.0) as real * (1 as real - margin_of(pool)) * over(member as int, stake as int),
        ),
{
    if reward > pool.cost.0 {
        let den = at_least_one(pool.margin_denominator) as int;
        let num = pool.margin_numerator as int;
        let x = reward - pool.cost.0;
        let f1 = frac(x, 1);
        let f2 = frac(den - num, den);
        let f3 = frac(member as int, stake as int);
        lemma_val_frac(x, 1);
        lemma_val_frac(den - num, den);
        lemma_val_frac(member as int, stake as int);
        lemma_rest(num, den);
        lemma_val_mul(f1, f2);
        lemma_val_mul(frac_mul(f1, f2), f3);
        lemma_floor(frac_mul(frac_mul(f1, f2), f3));
    }
}

// ---- the pot ----

/// A parameter as a real number; one without a denominator counts as whole.
pub open spec fn real_of(r: Rational) -> real {
    over(
        r.numerator as int,
        if r.denominator == 0 {
            1
        } else {
            r.denominator as int
        },
    )
}

proof fn lemma_param(r: Rational)
    ensures
        param(r).d > 0,
        val(param(r)) == real_of(r),
{
    lemma_val_frac(r.numerator as int, at_least_one(r.denominator) as int);
}

/// The expansion is the floor of `eta * rho * reserves`.
pub proof fn law_expansion(eta: Rational, rho: Rational, reserves: u64)
    requires
        eta.denominator > 0,
    ensures
        is_floor(expansion_of(eta, rho, reserves) as int, real_of(eta) * real_of(rho) * reserves as real),
{
    let f1 = frac(eta.numerator as int, eta.denominator as int);
    let f3 = frac(reserves as int, 1);
    lemma_val_frac(eta.numerator as int, eta.denominator as int);
    lemma_param(rho);
    lemma_val_frac(reserves as int, 1);
    lemma_val_mul(f1, param(rho));
    lemma_val_mul(frac_mul(f1, param(rho)), f3);
    lemma_floor(frac_mul(frac_mul(f1, param(rho)), f3));
}

/// The treasury cut is the floor of `tau * pot`.
pub proof fn law_treasury_cut(tau: Rational, pot: u64)
    ensures
        is_floor(treasury_cut_of(tau, pot) as int, real_of(tau) * pot as real),
{
    lemma_param(tau);
    lemma_val_frac(pot as int, 1);
    lemma_val_mul(param(tau), frac(pot as int, 1));
    lemma_floor(frac_mul(param(tau), frac(pot as int, 1)));
}

/// Pools are expected to make the floor of `(1 - d) * f * length` blocks, at
/// least one.
pub proof fn law_expected_blocks(epoch_length: u64, pp: ProtocolParameters)
    requires
        pp.active_slot_coefficient.denominator > 0,
    ensures
        ({
            let x = (1 as real - real_of(pp.decentralization)) * real_of(pp.active_slot_coefficient)
                * epoch_length as real;
            let n = expected_blocks(epoch_length, pp);
            &&& x < 1 as real ==> n == 1
            &&& x >= 1 as real ==> is_floor(n as int, x)
        }),
{
    let f = pp.active_slot_coefficient;
    let one = frac(1, 1);
    lemma_val_frac(1, 1);
    lemma_param(pp.decentralization);
    let d = frac_sub(one, param(pp.decentralization));
    lemma_val_sub(one, param(pp.decentralization));
    let g = frac(f.numerator as int, f.denominator as int);
    lemma_val_frac(f.numerator as int, f.denominator as int);
    lemma_val_mul(d, g);
    let l = frac(epoch_length as int, 1);
    lemma_val_frac(epoch_length as int, 1);
    lemma_val_mul(frac_mul(d, g), l);
    lemma_floor(frac_mul(frac_mul(d, g), l));
}

/// The part of the expected blocks that was made, at most one. It is one from
/// `d = 4/5` on, where the genesis delegates make most blocks.
pub proof fn law_eta(epoch_length: u64, blocks: nat, pp: ProtocolParameters)
    ensures
        ({
            let eta = eta_of(epoch_length, blocks, pp);
            &&& eta.denominator > 0
            &&& real_of(pp.decentralization) >= over(4, 5) ==> real_of(eta) == 1 as real
            &&& real_of(pp.decentralization) < over(4, 5) ==> real_of(eta) == least(
                1 as real,
                over(blocks as int, expected_blocks(epoch_length, pp) as int),
            )
        }),
{
    let eta = eta_of(epoch_length, blocks, pp);
    let n = pp.decentralization.numerator as int;
    let d = at_least_one(pp.decentralization.denominator) as int;
    let (nr, dr, x) = (n as real, d as real, real_of(pp.decentralization));
    let t = over(4, 5);
    assert(x == nr / dr);
    lemma_cast_mul(5, n);
    lemma_cast_mul(4, d);
    assert(t * 5 as real == 4 as real) by (nonlinear_arith)
        requires
            t == 4 as real / 5 as real,
    ;
    if 5 * n >= 4 * d {
        assert(x >= t) by (nonlinear_arith)
            requires
                x == nr / dr,
                dr > 0 as real,
                t * 5 as real == 4 as real,
                5 as real * nr >= 4 as real * dr,
        ;
        assert(1 as real / 1 as real == 1 as real) by (nonlinear_arith);
    } else {
        assert(x < t) by (nonlinear_arith)
            requires
                x == nr / dr,
                dr > 0 as real,
                t * 5 as real == 4 as real,
                5 as real * nr < 4 as real * dr,
        ;
        let m = expected_blocks(epoch_length, pp);
        let (b, mr) = (blocks as real, m as real);
        if blocks < m {
            assert(b / mr < 1 as real) by (nonlinear_arith)
                requires
                    mr > 0 as real,
                    b < mr,
            ;
        } else {
            assert(b / mr >= 1 as real && mr / mr == 1 as real) by (nonlinear_arith)
                requires
                    mr > 0 as real,
                    b >= mr,
            ;
        }
    }
}

// ---- the update ----

/// The amounts of a reward update: the expansion comes from the reserves, with
/// the fees it makes the pot, the treasury takes its part of the pot, and what
/// the pools do not pay out of the rest goes back.
pub proof fn law_update_amounts(s: LedgerModel, go: SnapshotModel, fees: Lovelace, pp: ProtocolParameters)
    requires
        rewards_fit(s, go, fees, pp),
    ensures
        ({
            let r = reward_update(s, go, fees, pp);
            &&& r.eta == eta_of(s.epoch_length, block_total(go.epoch_blocks_by_pool), pp)
            &&& is_floor(r.delta_r1 as int, real_of(r.eta) * real_of(pp.rho) * s.reserves.0 as real)
            &&& r.r_pot == r.delta_r1 + fees.0
            &&& is_floor(r.delta_t1 as int, real_of(pp.tau) * r.r_pot as real)
            &&& r.reward_pot_after_treasury == r.r_pot - r.delta_t1
            &&& r.delta_reserves == r.delta_r1
            &&& r.delta_treasury == r.delta_t1
            &&& r.total_distributed <= r.reward_pot_after_treasury ==> r.undistributed
                == r.reward_pot_after_treasury - r.total_distributed
        }),
{
    let r = reward_update(s, go, fees, pp);
    law_eta(s.epoch_length, block_total(go.epoch_blocks_by_pool), pp);
    law_expansion(r.eta, pp.rho, s.reserves.0);
    if r.r_pot == 0 {
        let t = real_of(pp.tau);
        assert(t * 0 as real == 0 as real) by (nonlinear_arith);
    } else {
        law_treasury_cut(pp.tau, r.r_pot);
    }
}

/// The values that the pools of an epoch share, taken from the ledger, the
/// snapshot and the parameters.
pub proof fn law_shared_values(s: LedgerModel, go: SnapshotModel, pp: ProtocolParameters, pot: u64)
    requires
        block_total(go.epoch_blocks_by_pool) <= u64::MAX,
    ensures
        ({
            let e = pot_of(s, go, pp, pot);
            &&& e.pot == pot
            &&& s.reserves.0 <= 45_000_000_000_000_000 ==> e.circulation == 45_000_000_000_000_000 - s.reserves.0
            &&& map_sum(go.pool_stake, |p: Hash28, v: Lovelace| v.0 as nat) <= u64::MAX ==> e.active == map_sum(
                go.pool_stake,
                |p: Hash28, v: Lovelace| v.0 as nat,
            )
            &&& block_total(go.epoch_blocks_by_pool) > 0 ==> e.blocks == block_total(go.epoch_blocks_by_pool)
            &&& e.blocks > 0
            &&& pp.n_opt > 0 ==> e.n_opt == pp.n_opt
            &&& e.n_opt > 0
            &&& e.a0.d > 0
            &&& e.a0.n >= 0
            &&& over(e.a0.n, e.a0.d) == real_of(pp.a0)
            &&& e.unfiltered == (pp.protocol_version_major >= 7)
            &&& forall|c: Hash32| #[trigger] e.accounts.contains(c) == s.reward_accounts.dom().contains(c)
        }),
{
    lemma_pledge_influence(pp);
    lemma_param(pp.a0);
}

/// The rewards of an update are those of its pot, its snapshot and its
/// parameters; there are none without stake or without lovelace in
/// circulation.
pub proof fn law_update_pays(s: LedgerModel, go: SnapshotModel, fees: Lovelace, pp: ProtocolParameters)
    requires
        rewards_fit(s, go, fees, pp),
    ensures
        ({
            let r = reward_update(s, go, fees, pp);
            let e = pot_of(s, go, pp, r.reward_pot_after_treasury);
            &&& r.r_pot > 0 && s.reserves.0 < 45_000_000_000_000_000 && e.active > 0 ==> r.rewards == reward_map(e, go)
                && r.total_distributed == distributed_total(e, go)
            &&& r.r_pot == 0 || s.reserves.0 >= 45_000_000_000_000_000 || e.active == 0 ==> r.rewards == Map::<
                Hash32,
                Lovelace,
            >::empty() && r.total_distributed == 0
        }),
{
}

/// The sum of a function that is zero but at one key.
proof fn lemma_one_term(m: Map<Hash28, Lovelace>, f: spec_fn(Hash28, Lovelace) -> nat, k: Hash28)
    requires
        m.dom().finite(),
        m.dom().contains(k),
        forall|p: Hash28| #[trigger] m.dom().contains(p) && p != k ==> f(p, m[p]) == 0,
    ensures
        map_sum(m, f) == f(k, m[k]),
{
    lemma_sum_remove(m, f, k);
    let r = m.remove(k);
    let zero = |p: Hash28, v: Lovelace| 0nat;
    assert forall|p: Hash28| #[trigger] r.dom().contains(p) implies f(p, r[p]) * 1nat <= 0nat * zero(p, r[p]) by {
        assert(m.dom().contains(p));
        assert(0 * zero(p, r[p]) == 0) by (nonlinear_arith);
    }
    lemma_sum_scaled(r, f, zero, 1, 0);
    let z = map_sum(r, zero);
    assert(0 * z == 0) by (nonlinear_arith);
}

/// Whether some pool of a snapshot pays its operator to an account.
pub open spec fn operates(go: SnapshotModel, c: Hash32) -> bool {
    exists|p: Hash28| #[trigger] go.pool_stake.dom().contains(p) && account_key(go.pool_params[p].reward_account) == c
}

/// A delegator that owns no part of its pool, and operates none, is paid its
/// member's part of what its pool earns, and nothing else.
pub proof fn law_member_paid(e: PotModel, go: SnapshotModel, c: Hash32, p: Hash28)
    requires
        go.pool_stake.dom().finite(),
        go.pool_stake.dom().contains(p),
        go.pool_params.dom().contains(p),
        go.delegations.dom().contains(c),
        go.delegations[c] == p,
        !is_owner(go.pool_params[p], c),
        !operates(go, c),
        reward_of_pool(e, go, p, go.pool_stake[p].0) > 0,
        go.stake_distribution.dom().contains(c),
    ensures
        ({
            let stake = go.pool_stake[p].0;
            let paid = member_part(
                reward_of_pool(e, go, p, stake),
                go.pool_params[p],
                go.stake_distribution[c].0,
                stake,
            );
            &&& reward_of(e, go, c) == paid
            &&& paid > 0 ==> reward_map(e, go).dom().contains(c) && reward_map(e, go)[c] == Lovelace(paid)
            &&& paid == 0 ==> !reward_map(e, go).dom().contains(c)
        }),
{
    let f = share_fn(e, go, c);
    assert forall|q: Hash28| #[trigger] go.pool_stake.dom().contains(q) && q != p implies f(q, go.pool_stake[q])
        == 0 by {}
    lemma_one_term(go.pool_stake, f, p);
}

/// An account that operates one pool and delegates to none is paid the
/// operator's part of what the pool earns. Up to protocol version 6 it has to
/// be registered.
pub proof fn law_operator_paid(e: PotModel, go: SnapshotModel, p: Hash28)
    requires
        go.pool_stake.dom().finite(),
        go.pool_stake.dom().contains(p),
        go.pool_params.dom().contains(p),
        !go.delegations.dom().contains(account_key(go.pool_params[p].reward_account)),
        forall|q: Hash28| #[trigger]
            go.pool_stake.dom().contains(q) && q != p ==> account_key(go.pool_params[q].reward_account) != account_key(
                go.pool_params[p].reward_account,
            ),
        reward_of_pool(e, go, p, go.pool_stake[p].0) > 0,
    ensures
        ({
            let c = account_key(go.pool_params[p].reward_account);
            let stake = go.pool_stake[p].0;
            let paid = operator_part(
                reward_of_pool(e, go, p, stake),
                go.pool_params[p],
                owner_stake(go, p, go.pool_params[p].owners) as int,
                stake,
            );
            &&& e.unfiltered || e.accounts.contains(c) ==> reward_of(e, go, c) == paid
            &&& !e.unfiltered && !e.accounts.contains(c) ==> reward_of(e, go, c) == 0
        }),
{
    let c = account_key(go.pool_params[p].reward_account);
    let f = share_fn(e, go, c);
    assert forall|q: Hash28| #[trigger] go.pool_stake.dom().contains(q) && q != p implies f(q, go.pool_stake[q])
        == 0 by {}
    lemma_one_term(go.pool_stake, f, p);
}

/// A pool earns by its own stake, pledge and blocks, if it is registered and
/// its owners have the stake that they pledged.
pub proof fn law_pool_judged(e: PotModel, go: SnapshotModel, p: Hash28, stake: u64)
    ensures
        !go.pool_params.dom().contains(p) ==> reward_of_pool(e, go, p, stake) == 0,
        !go.epoch_blocks_by_pool.dom().contains(p) ==> reward_of_pool(e, go, p, stake) == 0,
        go.pool_params.dom().contains(p) && owner_stake(go, p, go.pool_params[p].owners)
            >= go.pool_params[p].pledge.0 && go.epoch_blocks_by_pool.dom().contains(p) ==> reward_of_pool(
            e,
            go,
            p,
            stake,
        ) == pool_earns(e, stake, go.pool_params[p].pledge.0, go.epoch_blocks_by_pool[p]),
{
}

/// The stake of two lists of owners is that of each, added up.
pub proof fn law_owner_stake_adds(go: SnapshotModel, p: Hash28, a: Seq<Hash28>, b: Seq<Hash28>)
    ensures
        owner_stake(go, p, a + b) == owner_stake(go, p, a) + owner_stake(go, p, b),
    decreases b.len(),
{
    if b.len() == 0 {
        assert(a + b =~= a);
    } else {
        assert((a + b).drop_last() =~= a + b.drop_last());
        law_owner_stake_adds(go, p, a, b.drop_last());
    }
}

/// An owner brings its stake where it delegates to its own pool, and nothing
/// elsewhere.
pub proof fn law_owner_stake_of_one(go: SnapshotModel, p: Hash28, owner: Hash28, k: Hash32)
    requires
        k@ == owner@ + Seq::new(4, |i: int| 0u8),
    ensures
        ({
            let x = owner_stake(go, p, seq![owner]);
            &&& go.delegations.dom().contains(k) && go.delegations[k] == p && go.stake_distribution.dom().contains(k)
                ==> x == go.stake_distribution[k].0
            &&& !go.delegations.dom().contains(k) ==> x == 0
            &&& go.delegations.dom().contains(k) && go.delegations[k] != p ==> x == 0
            &&& !go.stake_distribution.dom().contains(k) ==> x == 0
        }),
{
    assert(padded(owner@) =~= owner@ + Seq::new(4, |i: int| 0u8));
    lemma_owner_key(k, owner);
    let l = seq![owner];
    assert(l.drop_last() =~= Seq::empty());
    assert(owner_stake(go, p, l.drop_last()) == 0);
    assert(l.last() == owner);
}

/// Applying an update gives each registered account its reward, and the
/// treasury the rewards of accounts that are not registered.
pub proof fn law_rewards_credited(s: LedgerModel, r: RewardModel, k: Hash32)
    ensures
        ({
            let t = after_rewards(s, r);
            &&& t.reward_accounts.dom().contains(k) == s.reward_accounts.dom().contains(k)
            &&& s.reward_accounts.dom().contains(k) && !r.rewards.dom().contains(k) ==> t.reward_accounts[k]
                == s.reward_accounts[k]
            &&& s.reward_accounts.dom().contains(k) && r.rewards.dom().contains(k) && s.reward_accounts[k].0
                + r.rewards[k].0 <= u64::MAX ==> t.reward_accounts[k].0 == s.reward_accounts[k].0 + r.rewards[k].0
            &&& r.delta_reserves <= s.reserves.0 && s.reserves.0 - r.delta_reserves + r.undistributed <= u64::MAX
                ==> t.reserves.0 == s.reserves.0 - r.delta_reserves + r.undistributed
            &&& t.treasury.0 >= s.treasury.0
            &&& t.delegations == s.delegations && t.pool_params == s.pool_params && t.deposits == s.deposits
                && t.governance == s.governance && t.protocol_params == s.protocol_params && t.epoch == s.epoch
        }),
{
}

/// Where every rewarded account is registered, the treasury gets its cut; a
/// reward without an account goes to the treasury on top.
pub proof fn law_unclaimed_rewards(s: LedgerModel, r: RewardModel, k: Hash32, v: Lovelace)
    requires
        r.rewards.dom().finite(),
        forall|c: Hash32| #[trigger] r.rewards.dom().contains(c) ==> s.reward_accounts.dom().contains(c),
        !r.rewards.dom().contains(k),
        s.treasury.0 + r.delta_treasury + v.0 <= u64::MAX,
    ensures
        after_rewards(s, r).treasury.0 == s.treasury.0 + r.delta_treasury,
        ({
            let t = after_rewards(s, RewardModel { rewards: r.rewards.insert(k, v), ..r });
            t.treasury.0 == s.treasury.0 + r.delta_treasury + if s.reward_accounts.dom().contains(k) {
                0
            } else {
                v.0 as int
            }
        }),
{
    let f = unregistered_amount(s.reward_accounts);
    let zero = |c: Hash32, v: Lovelace| 0nat;
    assert forall|c: Hash32| #[trigger] r.rewards.dom().contains(c) implies f(c, r.rewards[c]) * 1nat <= 0nat * zero(
        c,
        r.rewards[c],
    ) by {
        assert(0 * zero(c, r.rewards[c]) == 0) by (nonlinear_arith);
    }
    lemma_sum_scaled(r.rewards, f, zero, 1, 0);
    let z = map_sum(r.rewards, zero);
    assert(0 * z == 0) by (nonlinear_arith);
    lemma_sum_insert(r.rewards, f, k, v);
}

/// What a credential gets from a pool: the member's part where it delegates to
/// the pool and owns no part of it, and on top the operator's part where the
/// pool pays its operator to it.
pub proof fn law_share(e: PotModel, go: SnapshotModel, p: Hash28, stake: u64, c: Hash32)
    ensures
        ({
            let reward = reward_of_pool(e, go, p, stake);
            let pool = go.pool_params[p];
            let k = account_key(pool.reward_account);
            let member = reward > 0 && go.delegations.dom().contains(c) && go.delegations[c] == p && !is_owner(pool, c);
            let held = if go.stake_distribution.dom().contains(c) { go.stake_distribution[c].0 } else { 0 };
            let runs = reward > 0 && c == k && (e.unfiltered || e.accounts.contains(k));
            share_of(e, go, p, stake, c) == (if member { member_part(reward, pool, held, stake) as nat } else { 0 }) + (
            if runs {
                operator_part(reward, pool, owner_stake(go, p, pool.owners) as int, stake) as nat
            } else {
                0
            })
        }),
{
}

/// One more pool in a snapshot adds its share to what a credential gets, and
/// what it pays to all that is paid.
pub proof fn law_rewards_by_pool(e: PotModel, go: SnapshotModel, p: Hash28, stake: Lovelace, c: Hash32)
    requires
        go.pool_stake.dom().finite(),
        !go.pool_stake.dom().contains(p),
    ensures
        ({
            let more = SnapshotModel { pool_stake: go.pool_stake.insert(p, stake), ..go };
            &&& reward_of(e, more, c) == reward_of(e, go, c) + share_of(e, go, p, stake.0, c)
            &&& distributed_total(e, more) == distributed_total(e, go) + pool_pays(e, go, p, stake.0)
            &&& go.pool_stake == Map::<Hash28, Lovelace>::empty() ==> reward_of(e, go, c) == 0 && distributed_total(e, go)
                == 0
        }),
{
    let more = SnapshotModel { pool_stake: go.pool_stake.insert(p, stake), ..go };
    assert forall|q: Hash28, st: u64| reward_of_pool(e, more, q, st) == #[trigger] reward_of_pool(e, go, q, st) by {
        lemma_owner_same(go, more, q, go.pool_params[q].owners);
    }
    let f = share_fn(e, go, c);
    let g = pays_fn(e, go);
    assert forall|q: Hash28| #[trigger] more.pool_stake.dom().contains(q) implies share_fn(e, more, c)(
        q,
        more.pool_stake[q],
    ) == f(q, more.pool_stake[q]) by {
        lemma_owner_same(go, more, q, go.pool_params[q].owners);
        assert(reward_of_pool(e, more, q, more.pool_stake[q].0) == reward_of_pool(e, go, q, more.pool_stake[q].0));
    }
    lemma_sum_same(more.pool_stake, share_fn(e, more, c), f);
    lemma_sum_insert(go.pool_stake, f, p, stake);
    assert forall|q: Hash28| #[trigger] more.pool_stake.dom().contains(q) implies pays_fn(e, more)(
        q,
        more.pool_stake[q],
    ) == g(q, more.pool_stake[q]) by {
        let st = more.pool_stake[q].0;
        lemma_owner_same(go, more, q, go.pool_params[q].owners);
        assert(reward_of_pool(e, more, q, st) == reward_of_pool(e, go, q, st));
        lemma_sum_same(go.delegations, member_fn(e, more, q, st), member_fn(e, go, q, st));
    }
    lemma_sum_same(more.pool_stake, pays_fn(e, more), g);
    lemma_sum_insert(go.pool_stake, g, p, stake);
    if go.pool_stake == Map::<Hash28, Lovelace>::empty() {
        crate::sums::lemma_sum_empty::<Hash28, Lovelace>(f);
        crate::sums::lemma_sum_empty::<Hash28, Lovelace>(g);
    }
}

proof fn lemma_owner_same(a: SnapshotModel, b: SnapshotModel, p: Hash28, owners: Seq<Hash28>)
    requires
        a.delegations == b.delegations,
        a.stake_distribution == b.stake_distribution,
    ensures
        owner_stake(a, p, owners) == owner_stake(b, p, owners),
    decreases owners.len(),
{
    if owners.len() > 0 {
        lemma_owner_same(a, b, p, owners.drop_last());
    }
}

/// Rewards are listed for those who get any, and for no others.
pub proof fn law_rewards_listed(e: PotModel, go: SnapshotModel, c: Hash32)
    ensures
        reward_map(e, go).dom().contains(c) == (reward_of(e, go, c) > 0),
        0 < reward_of(e, go, c) <= u64::MAX ==> reward_map(e, go)[c].0 == reward_of(e, go, c),
{
}

/// Owners are known by their padded hashes.
pub proof fn law_owners(pool: PoolModel, k: Hash32, i: int)
    ensures
        0 <= i < pool.owners.len() && k@ == pool.owners[i]@ + Seq::new(4, |j: int| 0u8) ==> is_owner(pool, k),
        is_owner(pool, k) ==> exists|j: int|
            #![trigger pool.owners[j]]
            0 <= j < pool.owners.len() && k@.take(28) == pool.owners[j]@,
{
    if 0 <= i < pool.owners.len() && k@ == pool.owners[i]@ + Seq::new(4, |j: int| 0u8) {
        assert(padded(pool.owners[i]@) =~= k@);
    }
    if is_owner(pool, k) {
        let j = choose|j: int| 0 <= j < pool.owners.len() && padded(#[trigger] pool.owners[j]@) == k@;
        assert(k@.take(28) =~= pool.owners[j]@);
    }
}

/// The pending update is applied and gone; without one nothing changes.
pub proof fn law_pending_applied(s: LedgerModel)
    ensures
        s.pending_reward_update is None ==> after_pending_rewards(s) == s,
        s.pending_reward_update matches Some(r) ==> after_pending_rewards(s) == (LedgerModel {
            pending_reward_update: None,
            ..after_rewards(s, r)
        }),
{
}

} // verus!
