//! Bounds on what a reward update hands out.

use vstd::prelude::*;
use crate::ledger::primitives::{sat_sub, Hash28, Hash32, Lovelace, ProtocolParameters, Rational};
use crate::ledger::rewards::{
    after_rewards, block_total, blocks_of, credited, distributed_total, eta_of, expansion_of, is_owner, lovelace_of, max_pool, member_fn,
    member_part, member_share, operator_part, operator_share, owner_stake, param, pays_fn, pool_earns, pool_fits, pool_pays,
    pot_of, reward_map, reward_of, reward_of_pool, reward_update, rewards_fit, saturating_total, share_fn, share_of,
    treasury_cut_of, unregistered_amount, PotModel,
};
use crate::ledger::state::{account_key, at_least_one, LedgerModel, PoolModel, RewardModel, SnapshotModel, MAX_LOVELACE_SUPPLY};
use crate::sums::{
    lemma_sum_across, lemma_sum_add, lemma_sum_empty, lemma_sum_le, lemma_sum_remove, lemma_sum_same, lemma_sum_scaled, map_sum,
};
use crate::ledger::rational::{
    frac, frac_add, frac_div, frac_floor, frac_min, frac_mul, frac_sub, law_floor_tight, lemma_frac_same_value,
    lemma_frac_value, Frac,
};

verus! {

/// The value of a fraction.
pub open spec fn val(a: Frac) -> real {
    a.n as real / a.d as real
}

pub(crate) proof fn lemma_cast_mul(a: int, b: int)
    by (nonlinear_arith)
    ensures
        (a * b) as real == a as real * b as real,
{
}

proof fn lemma_cross(a: int, b: int, c: int, d: int)
    requires
        b > 0,
        d > 0,
        a * d == c * b,
    ensures
        a as real / b as real == c as real / d as real,
{
    lemma_cast_mul(a, d);
    lemma_cast_mul(c, b);
    assert(a as real / b as real == c as real / d as real) by (nonlinear_arith)
        requires
            b as real > 0 as real,
            d as real > 0 as real,
            a as real * d as real == c as real * b as real,
    ;
}

pub(crate) proof fn lemma_val_frac(n: int, d: int)
    requires
        d > 0,
    ensures
        frac(n, d).d > 0,
        val(frac(n, d)) == n as real / d as real,
{
    lemma_frac_value(n, d);
    let r = frac(n, d);
    lemma_cross(r.n, r.d, n, d);
}

pub(crate) proof fn lemma_val_mul(a: Frac, b: Frac)
    requires
        a.d > 0,
        b.d > 0,
    ensures
        frac_mul(a, b).d > 0,
        val(frac_mul(a, b)) == val(a) * val(b),
{
    let (an, ad, bn, bd) = (a.n as real, a.d as real, b.n as real, b.d as real);
    assert(a.d * b.d > 0) by (nonlinear_arith)
        requires
            a.d > 0,
            b.d > 0,
    ;
    lemma_val_frac(a.n * b.n, a.d * b.d);
    lemma_cast_mul(a.n, b.n);
    lemma_cast_mul(a.d, b.d);
    assert((an * bn) / (ad * bd) == (an / ad) * (bn / bd)) by (nonlinear_arith)
        requires
            ad > 0 as real,
            bd > 0 as real,
    ;
}

pub(crate) proof fn lemma_val_add(a: Frac, b: Frac)
    requires
        a.d > 0,
        b.d > 0,
    ensures
        frac_add(a, b).d > 0,
        val(frac_add(a, b)) == val(a) + val(b),
{
    let (an, ad, bn, bd) = (a.n as real, a.d as real, b.n as real, b.d as real);
    assert(a.d * b.d > 0) by (nonlinear_arith)
        requires
            a.d > 0,
            b.d > 0,
    ;
    lemma_val_frac(a.n * b.d + b.n * a.d, a.d * b.d);
    lemma_cast_mul(a.n, b.d);
    lemma_cast_mul(b.n, a.d);
    lemma_cast_mul(a.d, b.d);
    assert((an * bd + bn * ad) / (ad * bd) == an / ad + bn / bd) by (nonlinear_arith)
        requires
            ad > 0 as real,
            bd > 0 as real,
    ;
}

pub(crate) proof fn lemma_val_sub(a: Frac, b: Frac)
    requires
        a.d > 0,
        b.d > 0,
    ensures
        frac_sub(a, b).d > 0,
        val(frac_sub(a, b)) == val(a) - val(b),
{
    let (an, ad, bn, bd) = (a.n as real, a.d as real, b.n as real, b.d as real);
    assert(a.d * b.d > 0) by (nonlinear_arith)
        requires
            a.d > 0,
            b.d > 0,
    ;
    lemma_val_frac(a.n * b.d - b.n * a.d, a.d * b.d);
    lemma_cast_mul(a.n, b.d);
    lemma_cast_mul(b.n, a.d);
    lemma_cast_mul(a.d, b.d);
    assert((an * bd - bn * ad) / (ad * bd) == an / ad - bn / bd) by (nonlinear_arith)
        requires
            ad > 0 as real,
            bd > 0 as real,
    ;
}

pub(crate) proof fn lemma_val_div(a: Frac, b: Frac)
    requires
        a.d > 0,
        b.d > 0,
        b.n > 0,
    ensures
        frac_div(a, b).d > 0,
        val(frac_div(a, b)) == val(a) / val(b),
{
    let (an, ad, bn, bd) = (a.n as real, a.d as real, b.n as real, b.d as real);
    assert(a.d * b.n > 0) by (nonlinear_arith)
        requires
            a.d > 0,
            b.n > 0,
    ;
    lemma_val_frac(a.n * b.d, a.d * b.n);
    lemma_cast_mul(a.n, b.d);
    lemma_cast_mul(a.d, b.n);
    assert((an * bd) / (ad * bn) == (an / ad) / (bn / bd)) by (nonlinear_arith)
        requires
            ad > 0 as real,
            bd > 0 as real,
            bn > 0 as real,
    ;
}

/// The smaller of two fractions is no more than either.
pub(crate) proof fn lemma_val_min(a: Frac, b: Frac)
    requires
        a.d > 0,
        b.d > 0,
    ensures
        frac_min(a, b).d > 0,
        val(frac_min(a, b)) <= val(a),
        val(frac_min(a, b)) <= val(b),
        frac_min(a, b) == a || frac_min(a, b) == b,
{
    let (an, ad, bn, bd) = (a.n as real, a.d as real, b.n as real, b.d as real);
    lemma_cast_mul(a.n, b.d);
    lemma_cast_mul(b.n, a.d);
    if a.n * b.d <= b.n * a.d {
        assert(an / ad <= bn / bd) by (nonlinear_arith)
            requires
                ad > 0 as real,
                bd > 0 as real,
                an * bd <= bn * ad,
        ;
    } else {
        assert(bn / bd <= an / ad) by (nonlinear_arith)
            requires
                ad > 0 as real,
                bd > 0 as real,
                an * bd >= bn * ad,
        ;
    }
}

/// The floor of a fraction that is not below zero is not above it.
pub(crate) proof fn lemma_val_floor(a: Frac)
    requires
        a.d > 0,
    ensures
        frac_floor(a) > 0 ==> frac_floor(a) as real <= val(a),
        val(a) >= 0 as real ==> frac_floor(a) as real <= val(a),
{
    let q = a.n / a.d;
    let (an, ad, qr) = (a.n as real, a.d as real, q as real);
    vstd::arithmetic::div_mod::lemma_fundamental_div_mod(a.n, a.d);
    lemma_cast_mul(a.d, q);
    assert(qr <= an / ad) by (nonlinear_arith)
        requires
            ad > 0 as real,
            ad * qr <= an,
    ;
    if a.n > 0 {
        vstd::arithmetic::div_mod::lemma_div_pos_is_pos(a.n, a.d);
    }
}

// ---- one pool ----

/// A pool can earn no more than its part of the circulation gives it, and no
/// more than one over the optimal pool count.
pub(crate) proof fn lemma_max_pool(e: PotModel, stake: u64, pledge: u64)
    requires
        e.circulation > 0,
        e.n_opt > 0,
        e.a0.d > 0,
        e.a0.n >= 0,
    ensures
        max_pool(e, stake, pledge) as real <= e.pot as real * (stake as real / e.circulation as real),
        max_pool(e, stake, pledge) as real <= e.pot as real * (1 as real / e.n_opt as real),
{
    let z0 = frac(1, e.n_opt as int);
    lemma_val_frac(1, e.n_opt as int);
    let nr = e.n_opt as real;
    let zr = val(z0);
    assert(zr > 0 as real && zr * nr == 1 as real) by (nonlinear_arith)
        requires
            nr > 0 as real,
            zr == 1 as real / nr,
    ;
    assert(z0.n > 0) by {
        lemma_frac_value(1, e.n_opt as int);
        assert(z0.n * e.n_opt == z0.d);
        assert(z0.n > 0) by (nonlinear_arith)
            requires
                z0.n * e.n_opt == z0.d,
                z0.d > 0,
                e.n_opt > 0,
        ;
    }
    let part = frac(stake as int, e.circulation as int);
    let pledged = frac(pledge as int, e.circulation as int);
    lemma_val_frac(stake as int, e.circulation as int);
    lemma_val_frac(pledge as int, e.circulation as int);
    let cr = e.circulation as real;
    assert(stake as real / cr >= 0 as real && pledge as real / cr >= 0 as real) by (nonlinear_arith)
        requires
            cr > 0 as real,
            stake as real >= 0 as real,
            pledge as real >= 0 as real,
    ;
    let sigma = frac_min(part, z0);
    let p = frac_min(pledged, z0);
    lemma_val_min(part, z0);
    lemma_val_min(pledged, z0);
    let sr = val(sigma);
    let pr = val(p);
    assert(sr >= 0 as real && pr >= 0 as real);
    let d4 = frac_sub(z0, sigma);
    lemma_val_sub(z0, sigma);
    let f4 = frac_div(d4, z0);
    lemma_val_div(d4, z0);
    let r4 = val(f4);
    assert(r4 >= 0 as real) by (nonlinear_arith)
        requires
            r4 == (zr - sr) / zr,
            zr > 0 as real,
            sr <= zr,
    ;
    let m3 = frac_mul(p, f4);
    lemma_val_mul(p, f4);
    let d3 = frac_sub(sigma, m3);
    lemma_val_sub(sigma, m3);
    let f3 = frac_div(d3, z0);
    lemma_val_div(d3, z0);
    let r3 = val(f3);
    let ar = val(e.a0);
    assert(ar >= 0 as real) by (nonlinear_arith)
        requires
            ar == e.a0.n as real / e.a0.d as real,
            e.a0.n as real >= 0 as real,
            e.a0.d as real > 0 as real,
    ;
    let m2 = frac_mul(p, e.a0);
    lemma_val_mul(p, e.a0);
    let m1 = frac_mul(m2, f3);
    lemma_val_mul(m2, f3);
    let f2 = frac_add(sigma, m1);
    lemma_val_add(sigma, m1);
    let r2 = val(f2);
    assert(r3 * zr == sr - pr * r4) by (nonlinear_arith)
        requires
            r3 == (sr - pr * r4) / zr,
            zr > 0 as real,
    ;
    assert(pr * r4 >= 0 as real) by (nonlinear_arith)
        requires
            pr >= 0 as real,
            r4 >= 0 as real,
    ;
    // the pledge gives at most the factor 1 + a0
    assert(pr * r3 <= sr) by (nonlinear_arith)
        requires
            r3 * zr <= sr,
            0 as real <= pr,
            pr <= zr,
            sr >= 0 as real,
            zr > 0 as real,
    ;
    assert(r2 <= sr * (1 as real + ar)) by (nonlinear_arith)
        requires
            r2 == sr + (pr * ar) * r3,
            pr * r3 <= sr,
            ar >= 0 as real,
    ;
    let one = frac(1, 1);
    lemma_val_frac(1, 1);
    let s1 = frac_add(one, e.a0);
    lemma_val_add(one, e.a0);
    let s1r = val(s1);
    assert(s1r == 1 as real + ar);
    assert(s1.n > 0) by {
        if s1.n <= 0 {
            assert(s1r <= 0 as real) by (nonlinear_arith)
                requires
                    s1r == s1.n as real / s1.d as real,
                    s1.n as real <= 0 as real,
                    s1.d as real > 0 as real,
            ;
        }
    }
    let pot = frac(e.pot as int, 1);
    lemma_val_frac(e.pot as int, 1);
    let f1 = frac_div(pot, s1);
    lemma_val_div(pot, s1);
    let r1 = val(f1);
    let potr = e.pot as real;
    assert(r1 >= 0 as real && r1 * s1r == potr) by (nonlinear_arith)
        requires
            r1 == potr / s1r,
            s1r > 0 as real,
            potr >= 0 as real,
    ;
    let f0 = frac_mul(f1, f2);
    lemma_val_mul(f1, f2);
    let r0 = val(f0);
    assert(r0 <= potr * sr) by (nonlinear_arith)
        requires
            r0 == r1 * r2,
            r1 >= 0 as real,
            r2 <= sr * s1r,
            r1 * s1r == potr,
    ;
    lemma_val_floor(f0);
    let part_r = stake as real / cr;
    assert(potr * sr <= potr * part_r && potr * part_r >= 0 as real) by (nonlinear_arith)
        requires
            potr >= 0 as real,
            sr <= part_r,
            part_r >= 0 as real,
    ;
    assert(potr * sr <= potr * zr && potr * zr >= 0 as real) by (nonlinear_arith)
        requires
            potr >= 0 as real,
            sr <= zr,
            zr >= 0 as real,
    ;
    assert(max_pool(e, stake, pledge) == frac_floor(f0));
}

/// The stake of all pools is within the circulation, or within what pools of
/// this size would have if there were as many as is optimal.
pub open spec fn stake_bounded(active: u64, circulation: u64, n_opt: u64, stake: u64) -> bool {
    active <= circulation || active <= n_opt * stake
}

/// A pool earns no more of the pot than its part of the blocks.
proof fn lemma_pool_earns(e: PotModel, stake: u64, pledge: u64, blocks: u64)
    requires
        e.circulation > 0,
        e.n_opt > 0,
        e.blocks > 0,
        e.a0.d > 0,
        e.a0.n >= 0,
        stake_bounded(e.active, e.circulation, e.n_opt, stake),
    ensures
        pool_earns(e, stake, pledge, blocks) * e.blocks <= e.pot * blocks,
{
    if blocks == 0 || stake == 0 {
        assert(e.pot * blocks >= 0) by (nonlinear_arith)
            requires
                e.pot >= 0,
                blocks >= 0,
        ;
        assert(0 * e.blocks == 0) by (nonlinear_arith);
    } else {
        let most = max_pool(e, stake, pledge);
        lemma_max_pool(e, stake, pledge);
        let (b, t, a, s, c, p, m) = (
            blocks as real,
            e.blocks as real,
            e.active as real,
            stake as real,
            e.circulation as real,
            e.pot as real,
            most as real,
        );
        let f1 = frac(blocks as int, e.blocks as int);
        let f2 = frac(e.active as int, stake as int);
        lemma_val_frac(blocks as int, e.blocks as int);
        lemma_val_frac(e.active as int, stake as int);
        let f3 = frac_mul(f1, f2);
        lemma_val_mul(f1, f2);
        let f4 = frac(most as int, 1);
        lemma_val_frac(most as int, 1);
        let f = frac_mul(f3, f4);
        lemma_val_mul(f3, f4);
        lemma_val_floor(f);
        let v = val(f);
        let w = (a / s) * m;
        if e.active <= e.circulation {
            assert(w >= 0 as real && w <= p) by (nonlinear_arith)
                requires
                    w == (a / s) * m,
                    s > 0 as real,
                    c > 0 as real,
                    a >= 0 as real,
                    a <= c,
                    m >= 0 as real,
                    p >= 0 as real,
                    m <= p * (s / c),
            ;
        } else {
            let n = e.n_opt as real;
            lemma_cast_mul(e.n_opt as int, stake as int);
            assert(w >= 0 as real && w <= p) by (nonlinear_arith)
                requires
                    w == (a / s) * m,
                    s > 0 as real,
                    n > 0 as real,
                    a >= 0 as real,
                    a <= n * s,
                    m >= 0 as real,
                    p >= 0 as real,
                    m <= p * (1 as real / n),
            ;
        }
        assert(v >= 0 as real && v * t <= p * b) by (nonlinear_arith)
            requires
                v == ((b / t) * (a / s)) * m,
                w == (a / s) * m,
                w >= 0 as real,
                w <= p,
                t > 0 as real,
                b >= 0 as real,
        ;
        let r = pool_earns(e, stake, pledge, blocks);
        let rr = r as real;
        assert(rr * t <= p * b) by (nonlinear_arith)
            requires
                rr <= v,
                v * t <= p * b,
                t > 0 as real,
        ;
        lemma_cast_mul(r as int, e.blocks as int);
        lemma_cast_mul(e.pot as int, blocks as int);
    }
}

/// Stake that members who are no owners delegate to a pool.
pub open spec fn member_stakes(go: SnapshotModel, p: Hash28) -> spec_fn(Hash32, Hash28) -> nat {
    |c: Hash32, q: Hash28|
        if q == p && !is_owner(go.pool_params[p], c) {
            lovelace_of(go.stake_distribution, c) as nat
        } else {
            0
        }
}

/// The stake of a pool covers what its owners and its members delegate to it,
/// and its margin is at most one.
pub open spec fn pool_consistent(go: SnapshotModel, p: Hash28) -> bool {
    let pool = go.pool_params[p];
    &&& pool.margin_numerator <= at_least_one(pool.margin_denominator)
    &&& owner_stake(go, p, pool.owners) + map_sum(go.delegations, member_stakes(go, p)) <= go.pool_stake[p].0
}

proof fn lemma_member_part(reward: u64, pool: PoolModel, t: u64, stake: u64)
    requires
        reward > pool.cost.0,
        stake > 0,
        pool.margin_numerator <= at_least_one(pool.margin_denominator),
    ensures
        member_part(reward, pool, t, stake) * (at_least_one(pool.margin_denominator) * stake) <= ((reward - pool.cost.0)
            * (at_least_one(pool.margin_denominator) - pool.margin_numerator)) * t,
{
    let den = at_least_one(pool.margin_denominator) as int;
    let keep = den - pool.margin_numerator;
    let x = reward - pool.cost.0;
    let f1 = frac(x, 1);
    let f2 = frac(keep, den);
    let f3 = frac(t as int, stake as int);
    lemma_val_frac(x, 1);
    lemma_val_frac(keep, den);
    lemma_val_frac(t as int, stake as int);
    lemma_val_mul(f1, f2);
    lemma_val_mul(frac_mul(f1, f2), f3);
    let f = frac_mul(frac_mul(f1, f2), f3);
    lemma_val_floor(f);
    let (xr, kr, dr, tr, sr) = (x as real, keep as real, den as real, t as real, stake as real);
    let v = val(f);
    assert(v >= 0 as real && v * (dr * sr) == (xr * kr) * tr) by (nonlinear_arith)
        requires
            v == (xr / 1 as real) * (kr / dr) * (tr / sr),
            dr > 0 as real,
            sr > 0 as real,
            xr >= 0 as real,
            kr >= 0 as real,
            tr >= 0 as real,
    ;
    let m = member_part(reward, pool, t, stake);
    let mr = m as real;
    assert(mr * (dr * sr) <= (xr * kr) * tr) by (nonlinear_arith)
        requires
            mr <= v,
            v * (dr * sr) == (xr * kr) * tr,
            dr > 0 as real,
            sr > 0 as real,
    ;
    lemma_cast_mul(den, stake as int);
    lemma_cast_mul(m as int, den * stake);
    lemma_cast_mul(x, keep);
    lemma_cast_mul(x * keep, t as int);
}

proof fn lemma_operator_part(reward: u64, pool: PoolModel, o: int, stake: u64)
    requires
        reward > pool.cost.0,
        stake > 0,
        o >= 0,
        pool.margin_numerator <= at_least_one(pool.margin_denominator),
    ensures
        (operator_part(reward, pool, o, stake) - pool.cost.0) * (at_least_one(pool.margin_denominator) * stake) <= (
        pool.margin_numerator * stake + (at_least_one(pool.margin_denominator) - pool.margin_numerator) * o) * (reward
            - pool.cost.0),
{
    let den = at_least_one(pool.margin_denominator) as int;
    let num = pool.margin_numerator as int;
    let keep = den - num;
    let x = reward - pool.cost.0;
    let f1 = frac(num, den);
    let f2 = frac(keep, den);
    let f3 = frac(o, stake as int);
    lemma_val_frac(num, den);
    lemma_val_frac(keep, den);
    lemma_val_frac(o, stake as int);
    lemma_val_mul(f2, f3);
    lemma_val_add(f1, frac_mul(f2, f3));
    let share = frac_add(f1, frac_mul(f2, f3));
    let f4 = frac(x, 1);
    lemma_val_frac(x, 1);
    lemma_val_mul(share, f4);
    let f = frac_mul(share, f4);
    lemma_val_floor(f);
    let (xr, nr, kr, dr, or, sr) = (x as real, num as real, keep as real, den as real, o as real, stake as real);
    let v = val(f);
    let y = nr / dr + (kr / dr) * (or / sr);
    assert(y >= 0 as real && y * (dr * sr) == nr * sr + kr * or) by (nonlinear_arith)
        requires
            y == nr / dr + (kr / dr) * (or / sr),
            dr > 0 as real,
            sr > 0 as real,
            nr >= 0 as real,
            kr >= 0 as real,
            or >= 0 as real,
    ;
    assert(v >= 0 as real && v * (dr * sr) == (nr * sr + kr * or) * xr) by (nonlinear_arith)
        requires
            v == y * (xr / 1 as real),
            y >= 0 as real,
            y * (dr * sr) == nr * sr + kr * or,
            xr >= 0 as real,
    ;
    let m = frac_floor(f);
    let mr = m as real;
    assert(mr * (dr * sr) <= (nr * sr + kr * or) * xr) by (nonlinear_arith)
        requires
            mr <= v,
            v * (dr * sr) == (nr * sr + kr * or) * xr,
            dr > 0 as real,
            sr > 0 as real,
    ;
    lemma_cast_mul(den, stake as int);
    lemma_cast_mul(m as int, den * stake);
    lemma_cast_mul(num, stake as int);
    lemma_cast_mul(keep, o);
    lemma_cast_mul(num * stake + keep * o, x);
}

/// A pool pays out no more than it earns.
proof fn lemma_pool_pays(e: PotModel, go: SnapshotModel, p: Hash28)
    requires
        go.pool_stake.dom().contains(p),
        go.pool_params.dom().contains(p) ==> pool_consistent(go, p),
    ensures
        pool_pays(e, go, p, go.pool_stake[p].0) <= reward_of_pool(e, go, p, go.pool_stake[p].0),
{
    let stake = go.pool_stake[p].0;
    let reward = reward_of_pool(e, go, p, stake);
    let pool = go.pool_params[p];
    let mf = member_fn(e, go, p, stake);
    let sf = member_stakes(go, p);
    let den = at_least_one(pool.margin_denominator) as int;
    let num = pool.margin_numerator as int;
    let keep = den - num;
    let o = owner_stake(go, p, pool.owners) as int;
    if reward == 0 || reward <= pool.cost.0 {
        assert forall|c: Hash32| #[trigger] go.delegations.dom().contains(c) implies mf(c, go.delegations[c]) * 1nat
            <= 0nat * sf(c, go.delegations[c]) by {
            assert(0 * sf(c, go.delegations[c]) == 0) by (nonlinear_arith);
        }
        lemma_sum_scaled(go.delegations, mf, sf, 1, 0);
        let total = map_sum(go.delegations, sf);
        assert(0 * total == 0) by (nonlinear_arith);
    } else {
        let x = reward - pool.cost.0;
        let c = (den * stake) as nat;
        let d = (x * keep) as nat;
        assert(den * stake > 0 && x * keep >= 0) by (nonlinear_arith)
            requires
                den > 0,
                stake > 0,
                x > 0,
                keep >= 0,
        ;
        assert forall|k: Hash32| #[trigger] go.delegations.dom().contains(k) implies mf(k, go.delegations[k]) * c <= d
            * sf(k, go.delegations[k]) by {
            let t = lovelace_of(go.stake_distribution, k);
            lemma_member_part(reward, pool, t, stake);
            assert(0 * c == 0 && d * 0 == 0) by (nonlinear_arith);
        }
        lemma_sum_scaled(go.delegations, mf, sf, c, d);
        let paid = map_sum(go.delegations, mf) as int;
        let members = map_sum(go.delegations, sf) as int;
        lemma_operator_part(reward, pool, o, stake);
        let op = operator_share(e, go, p, stake) as int;
        let extra = if op == 0 {
            -(pool.cost.0 as int)
        } else {
            op - pool.cost.0
        };
        assert(extra * c <= (num * stake + keep * o) * x) by {
            if op == 0 {
                assert(extra * c <= (num * stake + keep * o) * x) by (nonlinear_arith)
                    requires
                        extra <= 0,
                        c >= 0,
                        num >= 0,
                        stake >= 0,
                        keep >= 0,
                        o >= 0,
                        x >= 0,
                ;
            }
        }
        assert(paid * c + extra * c <= x * c) by (nonlinear_arith)
            requires
                paid * c <= d * members,
                d == x * keep,
                extra * c <= (num * stake + keep * o) * x,
                c == den * stake,
                den == num + keep,
                keep >= 0,
                x > 0,
                o + members <= stake,
        ;
        assert(paid + extra <= x) by (nonlinear_arith)
            requires
                paid * c + extra * c <= x * c,
                c > 0,
        ;
    }
}

// ---- all pools ----

spec fn earned_fn(e: PotModel, go: SnapshotModel) -> spec_fn(Hash28, Lovelace) -> nat {
    |p: Hash28, st: Lovelace| reward_of_pool(e, go, p, st.0) as nat
}

spec fn made_fn(blocks: Map<Hash28, u64>) -> spec_fn(Hash28, Lovelace) -> nat {
    |p: Hash28, st: Lovelace| if blocks.dom().contains(p) { blocks[p] as nat } else { 0 }
}

/// The pools of a snapshot made no more blocks than there are.
proof fn lemma_blocks_made(stakes: Map<Hash28, Lovelace>, blocks: Map<Hash28, u64>)
    requires
        stakes.dom().finite(),
        blocks.dom().finite(),
    ensures
        map_sum(stakes, made_fn(blocks)) <= block_total(blocks),
    decreases stakes.dom().len(),
{
    let f = made_fn(blocks);
    let g = |p: Hash28, n: u64| n as nat;
    if stakes.dom().len() > 0 {
        let k = stakes.dom().choose();
        assert(stakes.dom().contains(k)) by {
            if !stakes.dom().contains(k) {
                assert(stakes.dom() =~= Set::empty());
            }
        }
        let rest = stakes.remove(k);
        assert(rest.dom() =~= stakes.dom().remove(k));
        if blocks.dom().contains(k) {
            let others = blocks.remove(k);
            assert(others.dom() =~= blocks.dom().remove(k));
            lemma_blocks_made(rest, others);
            lemma_sum_remove(blocks, g, k);
            assert forall|q: Hash28| #[trigger] rest.dom().contains(q) implies f(q, rest[q]) <= made_fn(others)(
                q,
                rest[q],
            ) by {}
            lemma_sum_le(rest, f, made_fn(others));
        } else {
            lemma_blocks_made(rest, blocks);
        }
    }
}

/// A snapshot whose pools are consistent and whose stake is bounded.
pub open spec fn snapshot_consistent(s: LedgerModel, go: SnapshotModel, pp: ProtocolParameters) -> bool {
    &&& go.pool_stake.dom().finite()
    &&& go.epoch_blocks_by_pool.dom().finite()
    &&& block_total(go.epoch_blocks_by_pool) <= u64::MAX
    &&& forall|p: Hash28| #[trigger]
        go.pool_stake.dom().contains(p) && go.pool_params.dom().contains(p) ==> pool_consistent(go, p)
            && stake_bounded(
            saturating_total(go.pool_stake),
            sat_sub(MAX_LOVELACE_SUPPLY, s.reserves.0),
            at_least_one(pp.n_opt),
            go.pool_stake[p].0,
        )
}

/// The pools together pay out no more than the pot.
proof fn lemma_total_within_pot(e: PotModel, go: SnapshotModel)
    requires
        go.pool_stake.dom().finite(),
        go.epoch_blocks_by_pool.dom().finite(),
        e.circulation > 0,
        e.n_opt > 0,
        e.a0.d > 0,
        e.a0.n >= 0,
        block_total(go.epoch_blocks_by_pool) <= u64::MAX,
        e.blocks == at_least_one(block_total(go.epoch_blocks_by_pool) as u64),
        forall|p: Hash28| #[trigger]
            go.pool_stake.dom().contains(p) && go.pool_params.dom().contains(p) ==> pool_consistent(go, p)
                && stake_bounded(e.active, e.circulation, e.n_opt, go.pool_stake[p].0),
    ensures
        distributed_total(e, go) <= e.pot,
{
    let stakes = go.pool_stake;
    let blocks = go.epoch_blocks_by_pool;
    let pays = pays_fn(e, go);
    let earned = earned_fn(e, go);
    let made = made_fn(blocks);
    assert forall|p: Hash28| #[trigger] stakes.dom().contains(p) implies pays(p, stakes[p]) <= earned(p, stakes[p]) by {
        lemma_pool_pays(e, go, p);
    }
    lemma_sum_le(stakes, pays, earned);
    assert forall|p: Hash28| #[trigger] stakes.dom().contains(p) implies earned(p, stakes[p]) * (e.blocks as nat)
        <= (e.pot as nat) * made(p, stakes[p]) by {
        let b = blocks_of(go, p);
        if go.pool_params.dom().contains(p) {
            lemma_pool_earns(e, stakes[p].0, go.pool_params[p].pledge.0, b);
        }
        assert(e.pot * b >= 0) by (nonlinear_arith)
            requires
                e.pot >= 0,
                b >= 0,
        ;
        assert(0 * e.blocks == 0) by (nonlinear_arith);
    }
    lemma_sum_scaled(stakes, earned, made, e.blocks as nat, e.pot as nat);
    lemma_blocks_made(stakes, blocks);
    let total = map_sum(stakes, earned);
    let count = map_sum(stakes, made);
    assert(total <= e.pot) by (nonlinear_arith)
        requires
            total * (e.blocks as nat) <= (e.pot as nat) * count,
            count <= e.blocks,
            e.blocks > 0,
            e.pot >= 0,
    ;
}

/// The treasury takes no more than the pot, and the expansion no more than the
/// reserves, where the parameters are at most one.
pub proof fn law_expansion_within_reserves(s: LedgerModel, go: SnapshotModel, fees: Lovelace, pp: ProtocolParameters)
    requires
        block_total(go.epoch_blocks_by_pool) <= u64::MAX,
        pp.rho.numerator <= at_least_one(pp.rho.denominator),
        pp.tau.numerator <= at_least_one(pp.tau.denominator),
    ensures
        ({
            let eta = eta_of(s.epoch_length, block_total(go.epoch_blocks_by_pool), pp);
            let expansion = expansion_of(eta, pp.rho, s.reserves.0);
            &&& eta.numerator <= eta.denominator
            &&& expansion <= s.reserves.0
            &&& forall|pot: u64| #[trigger] treasury_cut_of(pp.tau, pot) <= pot
        }),
{
    let eta = eta_of(s.epoch_length, block_total(go.epoch_blocks_by_pool), pp);
    assert(eta.denominator > 0);
    let f1 = frac(eta.numerator as int, eta.denominator as int);
    let f2 = param(pp.rho);
    let f3 = frac(s.reserves.0 as int, 1);
    lemma_val_frac(eta.numerator as int, eta.denominator as int);
    lemma_val_frac(pp.rho.numerator as int, at_least_one(pp.rho.denominator) as int);
    lemma_val_frac(s.reserves.0 as int, 1);
    lemma_val_mul(f1, f2);
    lemma_val_mul(frac_mul(f1, f2), f3);
    let f = frac_mul(frac_mul(f1, f2), f3);
    lemma_val_floor(f);
    let (a, b, c) = (val(f1), val(f2), s.reserves.0 as real);
    lemma_at_most_one(eta.numerator, eta.denominator);
    lemma_at_most_one(pp.rho.numerator, at_least_one(pp.rho.denominator));
    assert(0 as real <= (a * b) * c && (a * b) * c <= c) by (nonlinear_arith)
        requires
            0 as real <= a,
            a <= 1 as real,
            0 as real <= b,
            b <= 1 as real,
            0 as real <= c,
    ;
    assert forall|pot: u64| #[trigger] treasury_cut_of(pp.tau, pot) <= pot by {
        let g1 = param(pp.tau);
        let g2 = frac(pot as int, 1);
        lemma_val_frac(pp.tau.numerator as int, at_least_one(pp.tau.denominator) as int);
        lemma_val_frac(pot as int, 1);
        lemma_val_mul(g1, g2);
        lemma_val_floor(frac_mul(g1, g2));
        lemma_at_most_one(pp.tau.numerator, at_least_one(pp.tau.denominator));
        let (x, y) = (val(g1), pot as real);
        assert(0 as real <= x * y && x * y <= y) by (nonlinear_arith)
            requires
                0 as real <= x,
                x <= 1 as real,
                0 as real <= y,
        ;
    }
}

pub(crate) proof fn lemma_at_most_one(n: u64, d: u64)
    requires
        n <= d,
        d > 0,
    ensures
        0 as real <= n as real / d as real,
        n as real / d as real <= 1 as real,
{
    let (a, b) = (n as real, d as real);
    assert(0 as real <= a / b && a / b <= 1 as real) by (nonlinear_arith)
        requires
            0 as real <= a,
            a <= b,
            b > 0 as real,
    ;
}

pub(crate) proof fn lemma_pledge_influence(pp: ProtocolParameters)
    ensures
        param(pp.a0).d > 0,
        param(pp.a0).n >= 0,
{
    let (n, d) = (pp.a0.numerator as int, at_least_one(pp.a0.denominator) as int);
    let a0 = param(pp.a0);
    lemma_frac_value(n, d);
    assert(a0.n >= 0) by (nonlinear_arith)
        requires
            a0.n * d == n * a0.d,
            n >= 0,
            d > 0,
            a0.d > 0,
    ;
}

/// A reward update of a consistent snapshot can be computed: its sums stay
/// within `u64` where the parameters are at most one and the reserves and the
/// fees together fit.
pub proof fn law_consistent_rewards_fit(s: LedgerModel, go: SnapshotModel, fees: Lovelace, pp: ProtocolParameters)
    requires
        snapshot_consistent(s, go, pp),
        pp.rho.numerator <= at_least_one(pp.rho.denominator),
        pp.tau.numerator <= at_least_one(pp.tau.denominator),
        s.reserves.0 + fees.0 <= u64::MAX,
    ensures
        rewards_fit(s, go, fees, pp),
{
    law_expansion_within_reserves(s, go, fees, pp);
    let eta = eta_of(s.epoch_length, block_total(go.epoch_blocks_by_pool), pp);
    let r_pot = expansion_of(eta, pp.rho, s.reserves.0) + fees.0;
    let cut = treasury_cut_of(pp.tau, r_pot as u64);
    let e = pot_of(s, go, pp, (r_pot - cut) as u64);
    if r_pot > 0 && e.circulation > 0 && e.active > 0 {
        lemma_pledge_influence(pp);
        lemma_total_within_pot(e, go);
        assert forall|p: Hash28| #[trigger] go.pool_stake.dom().contains(p) implies pool_fits(
            e,
            go,
            p,
            go.pool_stake[p].0,
        ) by {
            if go.pool_params.dom().contains(p) {
                let stake = go.pool_stake[p].0;
                let pool = go.pool_params[p];
                let reward = reward_of_pool(e, go, p, stake);
                let o = owner_stake(go, p, pool.owners) as int;
                if reward > pool.cost.0 {
                    lemma_operator_part(reward, pool, o, stake);
                    lemma_operator_within(reward, pool, o, stake);
                }
            }
        }
    }
}

/// The operator gets no more than the pool earns.
proof fn lemma_operator_within(reward: u64, pool: PoolModel, o: int, stake: u64)
    requires
        reward > pool.cost.0,
        0 <= o <= stake,
        stake > 0,
        pool.margin_numerator <= at_least_one(pool.margin_denominator),
    ensures
        operator_part(reward, pool, o, stake) <= reward,
{
    lemma_operator_part(reward, pool, o, stake);
    let den = at_least_one(pool.margin_denominator) as int;
    let num = pool.margin_numerator as int;
    let keep = den - num;
    let x = reward - pool.cost.0;
    let extra = operator_part(reward, pool, o, stake) - pool.cost.0;
    let c = den * stake;
    assert(extra <= x) by (nonlinear_arith)
        requires
            extra * c <= (num * stake + keep * o) * x,
            c == den * stake,
            den == num + keep,
            num >= 0,
            keep >= 0,
            den > 0,
            stake > 0,
            0 <= o <= stake,
            x > 0,
    ;
}

/// A reward update of a consistent snapshot splits the pot: what is
/// distributed and what goes back to the reserves are the pot after the
/// treasury cut, and with the cut they are the expansion and the fees.
pub proof fn law_pot_is_split(s: LedgerModel, go: SnapshotModel, fees: Lovelace, pp: ProtocolParameters)
    requires
        rewards_fit(s, go, fees, pp),
        snapshot_consistent(s, go, pp),
    ensures
        ({
            let r = reward_update(s, go, fees, pp);
            &&& r.total_distributed + r.undistributed == r.reward_pot_after_treasury
            &&& r.reward_pot_after_treasury + r.delta_t1 == r.r_pot
            &&& r.r_pot == r.delta_r1 + fees.0
            &&& r.delta_t1 == r.delta_treasury
        }),
{
    let r = reward_update(s, go, fees, pp);
    if r.r_pot > 0 {
        let e = pot_of(s, go, pp, r.reward_pot_after_treasury);
        if e.circulation > 0 && e.active > 0 {
            lemma_pledge_influence(pp);
            lemma_total_within_pot(e, go);
        }
    }
}

// ---- what is handed out ----

/// The amounts of a map of rewards or balances.
pub open spec fn lovelace_fn() -> spec_fn(Hash32, Lovelace) -> nat {
    |c: Hash32, v: Lovelace| v.0 as nat
}

/// All rewards of an update, or all balances.
pub open spec fn lovelace_total(m: Map<Hash32, Lovelace>) -> nat {
    map_sum(m, lovelace_fn())
}

spec fn at_fn(k: Hash32, x: nat) -> spec_fn(Hash32, ()) -> nat {
    |c: Hash32, u: ()| if c == k { x } else { 0 }
}

spec fn members_at(e: PotModel, go: SnapshotModel, p: Hash28, stake: u64) -> spec_fn(Hash32, ()) -> nat {
    |c: Hash32, u: ()| member_share(e, go, p, stake, c)
}

spec fn share_at(e: PotModel, go: SnapshotModel, p: Hash28, stake: u64) -> spec_fn(Hash32, ()) -> nat {
    |c: Hash32, u: ()| share_of(e, go, p, stake, c)
}

spec fn reward_at(e: PotModel, go: SnapshotModel, pools: Map<Hash28, Lovelace>) -> spec_fn(Hash32, ()) -> nat {
    |c: Hash32, u: ()| map_sum(pools, share_fn(e, go, c))
}

proof fn lemma_sum_at(d: Map<Hash32, ()>, k: Hash32, x: nat)
    requires
        d.dom().finite(),
        d.dom().contains(k),
    ensures
        map_sum(d, at_fn(k, x)) == x,
{
    let f = at_fn(k, x);
    lemma_sum_remove(d, f, k);
    let rest = d.remove(k);
    let zero = |c: Hash32, u: ()| 0nat;
    assert forall|c: Hash32| #[trigger] rest.dom().contains(c) implies f(c, rest[c]) * 1nat <= 0nat * zero(
        c,
        rest[c],
    ) by {
        assert(0 * zero(c, rest[c]) == 0) by (nonlinear_arith);
    }
    lemma_sum_scaled(rest, f, zero, 1, 0);
    let z = map_sum(rest, zero);
    assert(0 * z == 0) by (nonlinear_arith);
}

/// What a pool pays is what its members and its operator get.
proof fn lemma_pool_shares(e: PotModel, go: SnapshotModel, p: Hash28, stake: u64, d: Map<Hash32, ()>)
    requires
        d.dom().finite(),
        go.delegations.dom().finite(),
        forall|c: Hash32| #[trigger] go.delegations.dom().contains(c) ==> d.dom().contains(c),
        d.dom().contains(account_key(go.pool_params[p].reward_account)),
    ensures
        map_sum(d, share_at(e, go, p, stake)) == pool_pays(e, go, p, stake),
{
    let key = account_key(go.pool_params[p].reward_account);
    let x = operator_share(e, go, p, stake);
    let f = members_at(e, go, p, stake);
    let g = at_fn(key, x);
    let both = |c: Hash32, u: ()| f(c, u) + g(c, u);
    assert forall|c: Hash32| #[trigger] d.dom().contains(c) implies share_at(e, go, p, stake)(c, d[c]) == both(
        c,
        d[c],
    ) by {}
    lemma_sum_same(d, share_at(e, go, p, stake), both);
    lemma_sum_add(d, f, g);
    lemma_sum_at(d, key, x);
    lemma_sum_across(d, go.delegations, f, member_fn(e, go, p, stake));
}

/// The rewards of all credentials are what the pools pay.
proof fn lemma_shares_swapped(e: PotModel, go: SnapshotModel, pools: Map<Hash28, Lovelace>, d: Map<Hash32, ()>)
    requires
        d.dom().finite(),
        pools.dom().finite(),
        go.delegations.dom().finite(),
        forall|c: Hash32| #[trigger] go.delegations.dom().contains(c) ==> d.dom().contains(c),
        forall|p: Hash28| #[trigger]
            pools.dom().contains(p) ==> d.dom().contains(account_key(go.pool_params[p].reward_account)),
    ensures
        map_sum(d, reward_at(e, go, pools)) == map_sum(pools, pays_fn(e, go)),
    decreases pools.dom().len(),
{
    if pools.dom().len() > 0 {
        let p = pools.dom().choose();
        assert(pools.dom().contains(p)) by {
            if !pools.dom().contains(p) {
                assert(pools.dom() =~= Set::empty());
            }
        }
        let rest = pools.remove(p);
        assert(rest.dom() =~= pools.dom().remove(p));
        assert forall|q: Hash28| #[trigger] rest.dom().contains(q) implies d.dom().contains(
            account_key(go.pool_params[q].reward_account),
        ) by {
            assert(pools.dom().contains(q));
        }
        lemma_shares_swapped(e, go, rest, d);
        lemma_sum_remove(pools, pays_fn(e, go), p);
        let f = share_at(e, go, p, pools[p].0);
        let g = reward_at(e, go, rest);
        let both = |c: Hash32, u: ()| f(c, u) + g(c, u);
        assert forall|c: Hash32| #[trigger] d.dom().contains(c) implies reward_at(e, go, pools)(c, d[c]) == both(
            c,
            d[c],
        ) by {
            lemma_sum_remove(pools, share_fn(e, go, c), p);
        }
        lemma_sum_same(d, reward_at(e, go, pools), both);
        lemma_sum_add(d, f, g);
        lemma_pool_shares(e, go, p, pools[p].0, d);
    } else {
        let zero = |c: Hash32, u: ()| 0nat;
        assert forall|c: Hash32| #[trigger] d.dom().contains(c) implies reward_at(e, go, pools)(c, d[c]) * 1nat <= 0nat
            * zero(c, d[c]) by {
            assert(0 * zero(c, d[c]) == 0) by (nonlinear_arith);
        }
        lemma_sum_scaled(d, reward_at(e, go, pools), zero, 1, 0);
        let z = map_sum(d, zero);
        assert(0 * z == 0) by (nonlinear_arith);
    }
}

proof fn lemma_operators_finite(go: SnapshotModel, pools: Map<Hash28, Lovelace>) -> (r: Set<Hash32>)
    requires
        pools.dom().finite(),
    ensures
        r.finite(),
        forall|p: Hash28| #[trigger] pools.dom().contains(p) ==> r.contains(account_key(go.pool_params[p].reward_account)),
    decreases pools.dom().len(),
{
    if pools.dom().len() > 0 {
        let p = pools.dom().choose();
        assert(pools.dom().contains(p)) by {
            if !pools.dom().contains(p) {
                assert(pools.dom() =~= Set::empty());
            }
        }
        let rest = pools.remove(p);
        assert(rest.dom() =~= pools.dom().remove(p));
        let r = lemma_operators_finite(go, rest);
        let k = account_key(go.pool_params[p].reward_account);
        assert forall|q: Hash28| #[trigger] pools.dom().contains(q) implies r.insert(k).contains(
            account_key(go.pool_params[q].reward_account),
        ) by {
            if q != p {
                assert(rest.dom().contains(q));
            }
        }
        r.insert(k)
    } else {
        assert(pools.dom() =~= Set::empty());
        Set::empty()
    }
}

/// The rewards of an update add up to what it says was distributed.
pub proof fn law_rewards_add_up(s: LedgerModel, go: SnapshotModel, fees: Lovelace, pp: ProtocolParameters)
    requires
        rewards_fit(s, go, fees, pp),
        go.pool_stake.dom().finite(),
        go.delegations.dom().finite(),
    ensures
        ({
            let r = reward_update(s, go, fees, pp);
            &&& r.rewards.dom().finite()
            &&& lovelace_total(r.rewards) == r.total_distributed
        }),
{
    let r = reward_update(s, go, fees, pp);
    let e = pot_of(s, go, pp, r.reward_pot_after_treasury);
    if r.r_pot > 0 && e.circulation > 0 && e.active > 0 {
        let ops = lemma_operators_finite(go, go.pool_stake);
        let all = go.delegations.dom().union(ops);
        let d = Map::new(|c: Hash32| all.contains(c), |c: Hash32| ());
        assert(d.dom() =~= all);
        lemma_shares_swapped(e, go, go.pool_stake, d);
        let m = reward_map(e, go);
        // only members and operators get anything
        assert forall|c: Hash32| !all.contains(c) implies reward_of(e, go, c) == 0 by {
            let f = share_fn(e, go, c);
            let zero = |p: Hash28, st: Lovelace| 0nat;
            assert forall|p: Hash28| #[trigger] go.pool_stake.dom().contains(p) implies f(p, go.pool_stake[p]) * 1nat
                <= 0nat * zero(p, go.pool_stake[p]) by {
                assert(0 * zero(p, go.pool_stake[p]) == 0) by (nonlinear_arith);
            }
            lemma_sum_scaled(go.pool_stake, f, zero, 1, 0);
            let z = map_sum(go.pool_stake, zero);
            assert(0 * z == 0) by (nonlinear_arith);
        }
        assert(m.dom().subset_of(all));
        vstd::set_lib::lemma_set_subset_finite(all, m.dom());
        let f = reward_at(e, go, go.pool_stake);
        assert forall|c: Hash32| #[trigger] m.dom().contains(c) implies f(c, ()) == lovelace_fn()(c, m[c]) by {
            lemma_sum_remove(d, f, c);
        }
        lemma_sum_across(d, m, f, lovelace_fn());
    } else {
        assert(r.rewards.dom() =~= Set::empty());
        lemma_sum_empty::<Hash32, Lovelace>(lovelace_fn());
    }
}

// ---- conservation ----

/// Lovelace in the treasury, the reserves and the reward accounts.
pub open spec fn held(s: LedgerModel) -> nat {
    s.treasury.0 as nat + s.reserves.0 as nat + lovelace_total(s.reward_accounts)
}

spec fn registered_fn(accounts: Map<Hash32, Lovelace>) -> spec_fn(Hash32, Lovelace) -> nat {
    |k: Hash32, v: Lovelace| if accounts.dom().contains(k) { v.0 as nat } else { 0 }
}

spec fn due_fn(rewards: Map<Hash32, Lovelace>) -> spec_fn(Hash32, Lovelace) -> nat {
    |k: Hash32, v: Lovelace| lovelace_of(rewards, k) as nat
}

/// Applying a reward update moves lovelace and makes none: treasury, reserves
/// and accounts together gain the fees that the update was computed with.
pub proof fn law_rewards_conserve(s: LedgerModel, r: RewardModel, fees: nat)
    requires
        s.reward_accounts.dom().finite(),
        r.rewards.dom().finite(),
        lovelace_total(r.rewards) == r.total_distributed,
        r.total_distributed + r.undistributed + r.delta_treasury == r.delta_reserves + fees,
        r.delta_reserves <= s.reserves.0,
        held(s) + fees <= u64::MAX,
    ensures
        held(after_rewards(s, r)) == held(s) + fees,
{
    let accounts = s.reward_accounts;
    let rewards = r.rewards;
    let after = credited(accounts, rewards);
    let f = lovelace_fn();
    let reg = registered_fn(accounts);
    let due = due_fn(rewards);
    let unreg = unregistered_amount(accounts);
    // rewards are those of registered accounts and the others
    let both = |k: Hash32, v: Lovelace| reg(k, v) + unreg(k, v);
    assert forall|k: Hash32| #[trigger] rewards.dom().contains(k) implies f(k, rewards[k]) == both(k, rewards[k]) by {}
    lemma_sum_same(rewards, f, both);
    lemma_sum_add(rewards, reg, unreg);
    lemma_sum_across(accounts, rewards, due, reg);
    // no account saturates
    assert forall|k: Hash32| #[trigger] accounts.dom().contains(k) implies accounts[k].0 + lovelace_of(rewards, k)
        <= u64::MAX by {
        lemma_sum_remove(accounts, f, k);
        if rewards.dom().contains(k) {
            lemma_sum_remove(rewards, f, k);
        }
    }
    let grown = |k: Hash32, v: Lovelace| f(k, v) + due(k, v);
    lemma_sum_add(accounts, f, due);
    assert(after.dom() =~= accounts.dom());
    assert forall|k: Hash32| accounts.dom().contains(k) && #[trigger] after.dom().contains(k) implies grown(
        k,
        accounts[k],
    ) == f(k, after[k]) by {}
    lemma_sum_across(accounts, after, grown, f);
}

/// The lovelace that an update of a consistent snapshot moves: applied to any
/// state whose reserves cover the expansion, it adds exactly the fees.
pub proof fn law_update_conserves(
    s: LedgerModel,
    go: SnapshotModel,
    fees: Lovelace,
    pp: ProtocolParameters,
    later: LedgerModel,
)
    requires
        rewards_fit(s, go, fees, pp),
        snapshot_consistent(s, go, pp),
        go.delegations.dom().finite(),
        later.reward_accounts.dom().finite(),
        reward_update(s, go, fees, pp).delta_r1 <= later.reserves.0,
        held(later) + fees.0 <= u64::MAX,
    ensures
        held(after_rewards(later, reward_update(s, go, fees, pp))) == held(later) + fees.0,
{
    law_pot_is_split(s, go, fees, pp);
    law_rewards_add_up(s, go, fees, pp);
    law_rewards_conserve(later, reward_update(s, go, fees, pp), fees.0 as nat);
}

// ---- who gets nothing ----

/// Where no block was made, nothing is distributed.
pub proof fn law_no_blocks_no_rewards(s: LedgerModel, go: SnapshotModel, fees: Lovelace, pp: ProtocolParameters)
    requires
        forall|p: Hash28| #[trigger] go.epoch_blocks_by_pool.dom().contains(p) ==> go.epoch_blocks_by_pool[p] == 0,
    ensures
        reward_update(s, go, fees, pp).total_distributed == 0,
        reward_update(s, go, fees, pp).rewards == Map::<Hash32, Lovelace>::empty(),
{
    let r = reward_update(s, go, fees, pp);
    let e = pot_of(s, go, pp, r.reward_pot_after_treasury);
    assert forall|p: Hash28, stake: u64| #[trigger] reward_of_pool(e, go, p, stake) == 0 by {
        assert(blocks_of(go, p) == 0);
    }
    lemma_nothing_earned(e, go);
    assert(reward_map(e, go) =~= Map::empty());
}

/// A pool whose owners have less stake than they pledged earns nothing, and
/// pays nothing.
pub proof fn law_pledge_not_met(e: PotModel, go: SnapshotModel, p: Hash28, stake: u64)
    requires
        go.pool_params.dom().contains(p),
        owner_stake(go, p, go.pool_params[p].owners) < go.pool_params[p].pledge.0,
    ensures
        reward_of_pool(e, go, p, stake) == 0,
        pool_pays(e, go, p, stake) == 0,
{
    lemma_no_reward_no_pay(e, go, p, stake);
}

proof fn lemma_no_reward_no_pay(e: PotModel, go: SnapshotModel, p: Hash28, stake: u64)
    requires
        reward_of_pool(e, go, p, stake) == 0,
    ensures
        pool_pays(e, go, p, stake) == 0,
{
    let f = member_fn(e, go, p, stake);
    let zero = |c: Hash32, q: Hash28| 0nat;
    assert forall|c: Hash32| #[trigger] go.delegations.dom().contains(c) implies f(c, go.delegations[c]) * 1nat <= 0nat
        * zero(c, go.delegations[c]) by {
        assert(0 * zero(c, go.delegations[c]) == 0) by (nonlinear_arith);
    }
    lemma_sum_scaled(go.delegations, f, zero, 1, 0);
    let z = map_sum(go.delegations, zero);
    assert(0 * z == 0) by (nonlinear_arith);
}

proof fn lemma_nothing_earned(e: PotModel, go: SnapshotModel)
    requires
        forall|p: Hash28, stake: u64| #[trigger] reward_of_pool(e, go, p, stake) == 0,
    ensures
        distributed_total(e, go) == 0,
        forall|c: Hash32| #[trigger] reward_of(e, go, c) == 0,
{
    let zero = |p: Hash28, st: Lovelace| 0nat;
    let z = map_sum(go.pool_stake, zero);
    assert(0 * z == 0) by (nonlinear_arith);
    let f = pays_fn(e, go);
    assert forall|p: Hash28| #[trigger] go.pool_stake.dom().contains(p) implies f(p, go.pool_stake[p]) * 1nat <= 0nat
        * zero(p, go.pool_stake[p]) by {
        lemma_no_reward_no_pay(e, go, p, go.pool_stake[p].0);
        assert(0 * zero(p, go.pool_stake[p]) == 0) by (nonlinear_arith);
    }
    lemma_sum_scaled(go.pool_stake, f, zero, 1, 0);
    assert forall|c: Hash32| #[trigger] reward_of(e, go, c) == 0 by {
        let g = share_fn(e, go, c);
        assert forall|p: Hash28| #[trigger] go.pool_stake.dom().contains(p) implies g(p, go.pool_stake[p]) * 1nat
            <= 0nat * zero(p, go.pool_stake[p]) by {
            assert(reward_of_pool(e, go, p, go.pool_stake[p].0) == 0);
            assert(0 * zero(p, go.pool_stake[p]) == 0) by (nonlinear_arith);
        }
        lemma_sum_scaled(go.pool_stake, g, zero, 1, 0);
    }
}

/// The expansion of a full epoch: the floor of `rho * reserves`.
proof fn lemma_full_expansion(rho: Rational, reserves: u64)
    requires
        rho.denominator > 0,
        rho.numerator <= rho.denominator,
    ensures
        expansion_of((Rational { numerator: 1, denominator: 1 }), rho, reserves) == (rho.numerator * reserves)
            / rho.denominator as int,
{
    let n = rho.numerator as int;
    let d = rho.denominator as int;
    let c = reserves as int;
    let one = frac(1, 1);
    lemma_frac_value(1, 1);
    let whole = frac(c, 1);
    lemma_frac_value(c, 1);
    let p = param(rho);
    lemma_frac_value(n, d);
    let k = one.d * p.d;
    assert(k > 0) by (nonlinear_arith)
        requires
            one.d > 0,
            p.d > 0,
            k == one.d * p.d,
    ;
    let q = frac_mul(one, p);
    lemma_frac_value(one.n * p.n, k);
    assert(k * (q.n * d) == k * (n * q.d)) by (nonlinear_arith)
        requires
            k == one.d * p.d,
            q.n * k == (one.n * p.n) * q.d,
            one.n == one.d,
            p.n * d == n * p.d,
    ;
    vstd::arithmetic::mul::lemma_mul_equality_converse(k, q.n * d, n * q.d);
    assert((q.n * whole.n) * d == (n * c) * (q.d * whole.d) && q.d * whole.d > 0) by (nonlinear_arith)
        requires
            q.n * d == n * q.d,
            whole.n == c * whole.d,
            q.d > 0,
            whole.d > 0,
    ;
    lemma_frac_same_value(q.n * whole.n, q.d * whole.d, n * c, d);
    assert(0 <= n * c && n * c <= c * d) by (nonlinear_arith)
        requires
            0 <= n <= d,
            0 <= c,
    ;
    law_floor_tight(n * c, d);
    let f = frac_floor(frac(n * c, d)) as int;
    vstd::arithmetic::div_mod::lemma_div_is_ordered(n * c, c * d, d);
    vstd::arithmetic::div_mod::lemma_div_by_multiple(c, d);
    assert(n * c == f * d + (n * c - f * d));
    assert((f + 1) * d == f * d + d) by (nonlinear_arith);
    vstd::arithmetic::div_mod::lemma_fundamental_div_mod_converse(n * c, d, f, n * c - f * d);
}

/// While the chain is federated, the expansion is the floor of
/// `rho * reserves`, and neither it nor the pot nor the treasury cut depends on
/// the snapshot.
pub proof fn law_federated_expansion(
    s: LedgerModel,
    a: SnapshotModel,
    b: SnapshotModel,
    fees: Lovelace,
    pp: ProtocolParameters,
)
    requires
        pp.decentralization.denominator > 0,
        5 * pp.decentralization.numerator >= 4 * pp.decentralization.denominator,
        pp.rho.denominator > 0,
        pp.rho.numerator <= pp.rho.denominator,
    ensures
        ({
            let x = reward_update(s, a, fees, pp);
            let y = reward_update(s, b, fees, pp);
            &&& x.delta_r1 == (pp.rho.numerator * s.reserves.0) / pp.rho.denominator as int
            &&& y.delta_r1 == x.delta_r1
            &&& y.r_pot == x.r_pot
            &&& y.delta_t1 == x.delta_t1
        }),
{
    lemma_full_expansion(pp.rho, s.reserves.0);
}

} // verus!
