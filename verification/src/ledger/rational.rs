//! Exact rational arithmetic for reward calculations.

use vstd::prelude::*;
use crate::bigint::Int;
use crate::sums::clamp;

verus! {

/// The greatest common divisor, by Euclid's algorithm.
pub open spec fn gcd(a: nat, b: nat) -> nat
    decreases b,
{
    if b == 0 {
        a
    } else {
        gcd(b, a % b)
    }
}

pub open spec fn abs(x: int) -> nat {
    if x < 0 {
        (-x) as nat
    } else {
        x as nat
    }
}

/// A fraction.
pub struct Frac {
    pub n: int,
    pub d: int,
}

/// A fraction in lowest terms with a denominator above zero; zero where the
/// given denominator is zero.
pub open spec fn frac(n: int, d: int) -> Frac {
    if d == 0 {
        Frac { n: 0, d: 1 }
    } else {
        let g = gcd(abs(n), abs(d)) as int;
        let an = abs(n) as int / g;
        let ad = abs(d) as int / g;
        Frac { n: if (n < 0) == (d < 0) { an } else { -an }, d: ad }
    }
}

pub open spec fn frac_add(a: Frac, b: Frac) -> Frac {
    frac(a.n * b.d + b.n * a.d, a.d * b.d)
}

pub open spec fn frac_sub(a: Frac, b: Frac) -> Frac {
    frac(a.n * b.d - b.n * a.d, a.d * b.d)
}

pub open spec fn frac_mul(a: Frac, b: Frac) -> Frac {
    frac(a.n * b.n, a.d * b.d)
}

pub open spec fn frac_div(a: Frac, b: Frac) -> Frac {
    if b.n == 0 {
        frac(0, 1)
    } else {
        frac(a.n * b.d, a.d * b.n)
    }
}

pub open spec fn frac_min(a: Frac, b: Frac) -> Frac {
    if a.n * b.d <= b.n * a.d {
        a
    } else {
        b
    }
}

/// The floor of a fraction, kept within `u64`.
pub open spec fn frac_floor(a: Frac) -> u64 {
    if a.d == 0 || a.n <= 0 {
        0
    } else {
        clamp(a.n / a.d)
    }
}

/// A rational number in lowest terms.
///
/// All arithmetic is exact; `floor_u64` is the only rounding step.
#[derive(Clone, Debug)]
pub struct Rat {
    pub n: Int,
    pub d: Int,
}

impl Rat {
    pub open spec fn view(&self) -> Frac {
        Frac { n: self.n@, d: self.d@ }
    }

    /// The denominator is above zero and the terms have no common divisor.
    pub open spec fn wf(&self) -> bool {
        self.d@ > 0 && gcd(abs(self.n@), abs(self.d@)) == 1
    }

    pub fn new(n: Int, d: Int) -> (r: Rat)
        ensures
            r@ == frac(n@, d@),
            r.wf(),
    {
        if d.is_zero() {
            proof {
                reveal_with_fuel(gcd, 3);
            }
            return Rat { n: Int::from_i128(0), d: Int::from_i128(1) };
        }
        let an = n.abs();
        let ad = d.abs();
        let g = Self::bigint_gcd(&an, &ad);
        proof {
            lemma_gcd_divides(abs(n@), abs(d@));
            lemma_gcd_reduced(abs(n@), abs(d@));
        }
        let qn = an.quotient(&g);
        let qd = ad.quotient(&g);
        proof {
            let gg = g@;
            lemma_exact_quotient(an@, gg);
            lemma_exact_quotient(ad@, gg);
        }
        if n.is_negative() == d.is_negative() {
            Rat { n: qn, d: qd }
        } else {
            Rat { n: qn.neg(), d: qd }
        }
    }

    fn bigint_gcd(a: &Int, b: &Int) -> (r: Int)
        requires
            a@ >= 0,
            b@ > 0,
        ensures
            r@ == gcd(a@ as nat, b@ as nat),
            r@ > 0,
    {
        let mut x = a.dup();
        let mut y = b.dup();
        while !y.is_zero()
            invariant
                x@ >= 0,
                y@ >= 0,
                x@ + y@ > 0,
                gcd(x@ as nat, y@ as nat) == gcd(a@ as nat, b@ as nat),
            decreases y@,
        {
            let t = y.dup();
            y = x.remainder(&t);
            x = t;
        }
        x
    }

    pub fn add(&self, other: &Rat) -> (r: Rat)
        ensures
            r@ == frac_add(self@, other@),
            r.wf(),
    {
        let n = self.n.times(&other.d).plus(&other.n.times(&self.d));
        let d = self.d.times(&other.d);
        Rat::new(n, d)
    }

    pub fn sub(&self, other: &Rat) -> (r: Rat)
        ensures
            r@ == frac_sub(self@, other@),
            r.wf(),
    {
        let n = self.n.times(&other.d).minus(&other.n.times(&self.d));
        let d = self.d.times(&other.d);
        Rat::new(n, d)
    }

    pub fn mul(&self, other: &Rat) -> (r: Rat)
        ensures
            r@ == frac_mul(self@, other@),
            r.wf(),
    {
        Rat::new(self.n.times(&other.n), self.d.times(&other.d))
    }

    /// Division; zero where the divisor is zero.
    pub fn div(&self, other: &Rat) -> (r: Rat)
        ensures
            r@ == frac_div(self@, other@),
            r.wf(),
    {
        if other.n.is_zero() {
            return Rat::from_i128(0, 1);
        }
        Rat::new(self.n.times(&other.d), self.d.times(&other.n))
    }

    pub fn min_rat(&self, other: &Rat) -> (r: Rat)
        ensures
            r@ == frac_min(self@, other@),
            self.wf() && other.wf() ==> r.wf(),
    {
        if self.n.times(&other.d).at_most(&other.n.times(&self.d)) {
            Rat { n: self.n.dup(), d: self.d.dup() }
        } else {
            Rat { n: other.n.dup(), d: other.d.dup() }
        }
    }

    /// The floor, zero for a negative number and `u64::MAX` for one beyond it.
    pub fn floor_u64(&self) -> (r: u64)
        requires
            self.d@ >= 0,
        ensures
            r == frac_floor(self@),
    {
        if self.d.is_zero() || self.n.at_most(&Int::from_i128(0)) {
            return 0;
        }
        let q = self.n.quotient(&self.d);
        proof {
            lemma_quotient_not_negative(self.n@, self.d@);
        }
        match q.to_u64() {
            Some(x) => x,
            None => u64::MAX,
        }
    }

    pub fn from_i128(n: i128, d: i128) -> (r: Rat)
        ensures
            r@ == frac(n as int, d as int),
            r.wf(),
    {
        Rat::new(Int::from_i128(n), Int::from_i128(d))
    }
}

proof fn lemma_quotient_not_negative(n: int, d: int)
    requires
        n >= 0,
        d > 0,
    ensures
        n / d >= 0,
{
    vstd::arithmetic::div_mod::lemma_div_pos_is_pos(n, d);
}

proof fn lemma_exact_quotient(a: int, g: int)
    requires
        a >= 0,
        g > 0,
        a % g == 0,
    ensures
        a / g >= 0,
        a == g * (a / g),
        a > 0 ==> a / g > 0,
{
    vstd::arithmetic::div_mod::lemma_fundamental_div_mod(a, g);
    lemma_quotient_not_negative(a, g);
    if a > 0 && a / g == 0 {
        assert(g * (a / g) == 0) by (nonlinear_arith)
            requires
                a / g == 0,
        ;
    }
}

/// The greatest common divisor divides both numbers.
pub proof fn lemma_gcd_divides(a: nat, b: nat)
    requires
        a + b > 0,
    ensures
        gcd(a, b) > 0,
        a as int % gcd(a, b) as int == 0,
        b as int % gcd(a, b) as int == 0,
    decreases b,
{
    if b == 0 {
        vstd::arithmetic::div_mod::lemma_mod_self_0(a as int);
    } else {
        lemma_gcd_divides(b, a % b);
        let g = gcd(a, b) as int;
        let q = a as int / b as int;
        let r = a as int % b as int;
        vstd::arithmetic::div_mod::lemma_fundamental_div_mod(a as int, b as int);
        vstd::arithmetic::div_mod::lemma_fundamental_div_mod(b as int, g);
        vstd::arithmetic::div_mod::lemma_fundamental_div_mod(r, g);
        let k = (b as int / g) * q + r / g;
        assert(a as int == g * k) by (nonlinear_arith)
            requires
                a as int == b as int * q + r,
                b as int == g * (b as int / g),
                r == g * (r / g),
                k == (b as int / g) * q + r / g,
        ;
        vstd::arithmetic::div_mod::lemma_mod_multiples_basic(k, g);
        assert(g * k == k * g) by (nonlinear_arith);
    }
}

/// A common factor comes out of the greatest common divisor.
pub proof fn lemma_gcd_scale(a: nat, b: nat, k: nat)
    requires
        k > 0,
    ensures
        gcd(k * a, k * b) == k * gcd(a, b),
    decreases b,
{
    if b == 0 {
        assert(k * b == 0) by (nonlinear_arith)
            requires
                b == 0,
        ;
    } else {
        assert(k * b > 0) by (nonlinear_arith)
            requires
                k > 0,
                b > 0,
        ;
        vstd::arithmetic::div_mod::lemma_truncate_middle(a as int, k as int, b as int);
        assert((k * a) % (k * b) == k * (a % b));
        lemma_gcd_scale(b, a % b, k);
    }
}

/// Dividing by the greatest common divisor leaves no common divisor.
pub proof fn lemma_gcd_reduced(a: nat, b: nat)
    requires
        a + b > 0,
    ensures
        gcd((a / gcd(a, b)), (b / gcd(a, b))) == 1,
{
    lemma_gcd_divides(a, b);
    let g = gcd(a, b);
    lemma_exact_quotient(a as int, g as int);
    lemma_exact_quotient(b as int, g as int);
    let x = a / g;
    let y = b / g;
    lemma_gcd_scale(x, y, g);
    let h = gcd(x, y);
    assert(g * h == g);
    assert(h == 1) by (nonlinear_arith)
        requires
            g * h == g,
            g > 0,
    ;
}

/// The value of a fraction does not change by putting it in lowest terms.
pub proof fn lemma_frac_value(n: int, d: int)
    requires
        d != 0,
    ensures
        frac(n, d).d > 0,
        frac(n, d).n * d == n * frac(n, d).d,
{
    let g = gcd(abs(n), abs(d)) as int;
    lemma_gcd_divides(abs(n), abs(d));
    lemma_exact_quotient(abs(n) as int, g);
    lemma_exact_quotient(abs(d) as int, g);
    let an = abs(n) as int / g;
    let ad = abs(d) as int / g;
    let s = if n < 0 { -1int } else { 1int };
    let t = if d < 0 { -1int } else { 1int };
    assert(n == s * g * an && d == t * g * ad) by (nonlinear_arith)
        requires
            abs(n) as int == g * an,
            abs(d) as int == g * ad,
            s == 1 || s == -1,
            t == 1 || t == -1,
            n == s * abs(n) as int,
            d == t * abs(d) as int,
    ;
    let r = frac(n, d);
    if n == 0 {
        assert(an == 0) by (nonlinear_arith)
            requires
                0 == g * an,
                g > 0,
        ;
    }
    assert(r.n == s * t * an || an == 0) by (nonlinear_arith)
        requires
            r.n == an || r.n == -an,
            (n < 0) == (d < 0) ==> r.n == an,
            (n < 0) != (d < 0) ==> r.n == -an,
            s == (if n < 0 { -1int } else { 1int }),
            t == (if d < 0 { -1int } else { 1int }),
    ;
    assert(r.n * d == n * r.d) by (nonlinear_arith)
        requires
            r.d == ad,
            n == s * g * an,
            d == t * g * ad,
            r.n == s * t * an || (an == 0 && r.n == 0),
            t == 1 || t == -1,
    ;
}

/// Scaling both terms of a fraction leaves it as it is: `k*n / k*d` is `n / d`.
pub proof fn lemma_frac_scale(n: int, d: int, k: int)
    requires
        d != 0,
        k > 0,
    ensures
        frac(k * n, k * d) == frac(n, d),
{
    assert(k * d != 0 && abs(k * n) == k * abs(n) && abs(k * d) == k * abs(d) && ((k * n < 0) == (n < 0)) && ((k * d
        < 0) == (d < 0))) by (nonlinear_arith)
        requires
            d != 0,
            k > 0,
    ;
    lemma_gcd_scale(abs(n), abs(d), k as nat);
    lemma_gcd_divides(abs(n), abs(d));
    let g = gcd(abs(n), abs(d)) as int;
    vstd::arithmetic::div_mod::lemma_div_multiples_vanish_quotient(k, abs(n) as int, g);
    vstd::arithmetic::div_mod::lemma_div_multiples_vanish_quotient(k, abs(d) as int, g);
}

/// Two fractions of one value have the same lowest terms.
pub proof fn lemma_frac_same_value(n: int, d: int, m: int, e: int)
    requires
        d != 0,
        e != 0,
        n * e == m * d,
    ensures
        frac(n, d) == frac(m, e),
{
    let ae = abs(e) as int;
    let ad = abs(d) as int;
    lemma_frac_scale(n, d, ae);
    lemma_frac_scale(m, e, ad);
    let s = if e < 0 { -1int } else { 1int };
    let t = if d < 0 { -1int } else { 1int };
    assert(ae * n == s * (m * d) && ad * m == t * (m * d) && ae * d == s * (e * d) && ad * e == t * (e * d))
        by (nonlinear_arith)
        requires
            ae == s * e,
            ad == t * d,
            n * e == m * d,
    ;
    // the two scaled fractions differ at most in the sign of both terms
    let x = m * d;
    let y = e * d;
    assert(y != 0) by (nonlinear_arith)
        requires
            y == e * d,
            e != 0,
            d != 0,
    ;
    assert(s * x == (if s == 1 { x } else { -x }) && t * x == (if t == 1 { x } else { -x })) by (nonlinear_arith)
        requires
            s == 1 || s == -1,
            t == 1 || t == -1,
    ;
    assert(s * y == (if s == 1 { y } else { -y }) && t * y == (if t == 1 { y } else { -y })) by (nonlinear_arith)
        requires
            s == 1 || s == -1,
            t == 1 || t == -1,
    ;
    if s != t {
        assert(abs(-x) == abs(x) && abs(-y) == abs(y));
        if x == 0 {
            let h = gcd(abs(0int), abs(y)) as int;
            lemma_gcd_divides(abs(0int), abs(y));
            assert(0int / h == 0) by (nonlinear_arith)
                requires
                    h > 0,
            ;
        }
        assert(frac(-x, -y) == frac(x, y));
        if s == 1 {
            assert(ae * n == x && ae * d == y && ad * m == -x && ad * e == -y);
        } else {
            assert(ae * n == -x && ae * d == -y && ad * m == x && ad * e == y);
        }
    } else if s == 1 {
        assert(ae * n == x && ae * d == y && ad * m == x && ad * e == y);
    } else {
        assert(ae * n == -x && ae * d == -y && ad * m == -x && ad * e == -y);
    }
}

/// Addition does not depend on the order of its arguments.
pub proof fn law_add_commutative(a: Frac, b: Frac)
    ensures
        frac_add(a, b) == frac_add(b, a),
{
    assert(a.d * b.d == b.d * a.d) by (nonlinear_arith);
}

/// Multiplication does not depend on the order of its arguments.
pub proof fn law_mul_commutative(a: Frac, b: Frac)
    ensures
        frac_mul(a, b) == frac_mul(b, a),
{
    assert(a.d * b.d == b.d * a.d && a.n * b.n == b.n * a.n) by (nonlinear_arith);
}

/// The floor does not exceed the value, and the next integer does: `f` with
/// `f * d <= n < (f + 1) * d`, where that fits a `u64`.
pub proof fn law_floor_tight(n: int, d: int)
    requires
        n >= 0,
        d > 0,
    ensures
        n / d <= u64::MAX ==> {
            let f = frac_floor(frac(n, d)) as int;
            f * d <= n < (f + 1) * d
        },
        n / d > u64::MAX ==> frac_floor(frac(n, d)) == u64::MAX,
{
    lemma_frac_value(n, d);
    let r = frac(n, d);
    let g = gcd(abs(n), abs(d)) as int;
    lemma_gcd_divides(abs(n), abs(d));
    lemma_exact_quotient(n, g);
    lemma_exact_quotient(d, g);
    assert(r.n == n / g && r.d == d / g);
    vstd::arithmetic::div_mod::lemma_div_multiples_vanish_quotient(g, r.n, r.d);
    assert(r.n / r.d == n / d);
    vstd::arithmetic::div_mod::lemma_fundamental_div_mod(n, d);
    lemma_quotient_not_negative(n, d);
    let q = n / d;
    assert(q * d <= n < (q + 1) * d) by (nonlinear_arith)
        requires
            n == d * q + n % d,
            0 <= n % d < d,
    ;
    if r.n <= 0 {
        assert(n == 0) by (nonlinear_arith)
            requires
                n == g * r.n,
                r.n <= 0,
                g > 0,
                n >= 0,
        ;
    }
}

/// Multiplying and then dividing by one fraction above zero gives back the
/// first one.
pub proof fn law_mul_div_identity(a: Frac, c: Frac)
    requires
        a.d > 0,
        a == frac(a.n, a.d),
        c.n > 0,
        c.d > 0,
    ensures
        frac_div(frac_mul(a, c), c) == a,
{
    let p = frac_mul(a, c);
    let pn = a.n * c.n;
    let pd = a.d * c.d;
    assert(pd > 0) by (nonlinear_arith)
        requires
            pd == a.d * c.d,
            a.d > 0,
            c.d > 0,
    ;
    lemma_frac_value(pn, pd);
    assert(p.d * c.n > 0) by (nonlinear_arith)
        requires
            p.d > 0,
            c.n > 0,
    ;
    assert((p.n * c.d) * a.d == a.n * (p.d * c.n)) by (nonlinear_arith)
        requires
            p.n * pd == pn * p.d,
            pd == a.d * c.d,
            pn == a.n * c.n,
    ;
    lemma_frac_same_value(p.n * c.d, p.d * c.n, a.n, a.d);
}

/// Normalisation: every fraction is kept in lowest terms over a denominator
/// above zero, and has the value it was made with.
pub proof fn law_lowest_terms(n: int, d: int)
    requires
        d != 0,
    ensures
        frac(n, d).d > 0,
        gcd(abs(frac(n, d).n), abs(frac(n, d).d)) == 1,
        frac(n, d).n * d == n * frac(n, d).d,
        forall|k: int| k > 0 ==> #[trigger] frac(k * n, k * d) == frac(n, d),
{
    lemma_frac_value(n, d);
    lemma_gcd_reduced(abs(n), abs(d));
    lemma_gcd_divides(abs(n), abs(d));
    let g = gcd(abs(n), abs(d)) as int;
    lemma_exact_quotient(abs(n) as int, g);
    assert forall|k: int| k > 0 implies #[trigger] frac(k * n, k * d) == frac(n, d) by {
        lemma_frac_scale(n, d, k);
    }
}

/// The greatest common divisor of two machine integers.
pub fn greatest_divisor(a: u64, b: u64) -> (r: u64)
    ensures
        r == gcd(a as nat, b as nat),
        a + b > 0 ==> r > 0,
{
    let mut x: u64 = a;
    let mut y: u64 = b;
    while y != 0
        invariant
            gcd(x as nat, y as nat) == gcd(a as nat, b as nat),
            a + b > 0 ==> x + y > 0,
        decreases y,
    {
        let t: u64 = y;
        y = x % y;
        x = t;
    }
    x
}

} // verus!
