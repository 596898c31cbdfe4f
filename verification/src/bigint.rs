//! Integers of any size, in sign and magnitude.

use vstd::prelude::*;
use num_bigint::BigUint;

verus! {

/// The number that base 2^32 digits stand for, the lowest digit first.
pub open spec fn magnitude(digits: Seq<u32>) -> nat
    decreases digits.len(),
{
    if digits.len() == 0 {
        0
    } else {
        digits[0] as nat + 0x1_0000_0000 * magnitude(digits.drop_first())
    }
}

/// Calls `BigUint::from` on a `u128`: the digits hold the number.
#[verifier::external_body]
fn digits_of(x: u128) -> (r: Vec<u32>)
    ensures
        magnitude(r@) == x,
{
    BigUint::from(x).to_u32_digits()
}

/// Calls `u64::try_from` on a `BigUint`: it succeeds when the number is at most
/// `u64::MAX`, and gives that number.
#[verifier::external_body]
fn digits_to_u64(a: &Vec<u32>) -> (r: Option<u64>)
    ensures
        match r {
            Some(x) => magnitude(a@) == x,
            None => magnitude(a@) > u64::MAX,
        },
{
    u64::try_from(BigUint::from_slice(a)).ok()
}

/// Calls `+` on two `BigUint`s: their sum.
#[verifier::external_body]
fn digits_add(a: &Vec<u32>, b: &Vec<u32>) -> (r: Vec<u32>)
    ensures
        magnitude(r@) == magnitude(a@) + magnitude(b@),
{
    (BigUint::from_slice(a) + BigUint::from_slice(b)).to_u32_digits()
}

/// Calls `-` on two `BigUint`s: their difference, where the second is not the
/// larger one (the call panics where it is).
#[verifier::external_body]
fn digits_sub(a: &Vec<u32>, b: &Vec<u32>) -> (r: Vec<u32>)
    requires
        magnitude(b@) <= magnitude(a@),
    ensures
        magnitude(r@) == magnitude(a@) - magnitude(b@),
{
    (BigUint::from_slice(a) - BigUint::from_slice(b)).to_u32_digits()
}

/// Calls `*` on two `BigUint`s: their product.
#[verifier::external_body]
fn digits_mul(a: &Vec<u32>, b: &Vec<u32>) -> (r: Vec<u32>)
    ensures
        magnitude(r@) == magnitude(a@) * magnitude(b@),
{
    (BigUint::from_slice(a) * BigUint::from_slice(b)).to_u32_digits()
}

/// Calls `/` on two `BigUint`s: the quotient, rounded down (the call panics on a
/// divisor of zero).
#[verifier::external_body]
fn digits_div(a: &Vec<u32>, b: &Vec<u32>) -> (r: Vec<u32>)
    requires
        magnitude(b@) > 0,
    ensures
        magnitude(r@) == magnitude(a@) / magnitude(b@),
{
    (BigUint::from_slice(a) / BigUint::from_slice(b)).to_u32_digits()
}

/// Calls `%` on two `BigUint`s: the remainder (the call panics on a divisor of
/// zero).
#[verifier::external_body]
fn digits_rem(a: &Vec<u32>, b: &Vec<u32>) -> (r: Vec<u32>)
    requires
        magnitude(b@) > 0,
    ensures
        magnitude(r@) == magnitude(a@) % magnitude(b@),
{
    (BigUint::from_slice(a) % BigUint::from_slice(b)).to_u32_digits()
}

/// Calls `<=` on two `BigUint`s: whether the first number is not the larger one.
#[verifier::external_body]
fn digits_le(a: &Vec<u32>, b: &Vec<u32>) -> (r: bool)
    ensures
        r == (magnitude(a@) <= magnitude(b@)),
{
    BigUint::from_slice(a) <= BigUint::from_slice(b)
}

/// An integer of any size.
#[derive(Clone, Debug)]
pub struct Int {
    negative: bool,
    digits: Vec<u32>,
}

impl Int {
    pub closed spec fn view(&self) -> int {
        if self.negative {
            -(magnitude(self.digits@) as int)
        } else {
            magnitude(self.digits@) as int
        }
    }

    pub fn from_i128(x: i128) -> (r: Int)
        ensures
            r@ == x,
    {
        if x == i128::MIN {
            Int { negative: true, digits: digits_of(0x8000_0000_0000_0000_0000_0000_0000_0000u128) }
        } else if x < 0 {
            Int { negative: true, digits: digits_of((-x) as u128) }
        } else {
            Int { negative: false, digits: digits_of(x as u128) }
        }
    }

    pub fn from_u64(x: u64) -> (r: Int)
        ensures
            r@ == x,
    {
        Int { negative: false, digits: digits_of(x as u128) }
    }

    fn copy_digits(&self) -> (r: Vec<u32>)
        ensures
            r@ == self.digits@,
    {
        let r: Vec<u32> = self.digits.clone();
        assert(r@ =~= self.digits@);
        r
    }

    pub fn dup(&self) -> (r: Int)
        ensures
            r@ == self@,
    {
        Int { negative: self.negative, digits: self.copy_digits() }
    }

    pub fn is_zero(&self) -> (r: bool)
        ensures
            r == (self@ == 0),
    {
        match digits_to_u64(&self.digits) {
            Some(x) => x == 0,
            None => false,
        }
    }

    pub fn is_negative(&self) -> (r: bool)
        ensures
            r == (self@ < 0),
    {
        self.negative && !self.is_zero()
    }

    pub fn neg(&self) -> (r: Int)
        ensures
            r@ == -self@,
    {
        Int { negative: !self.negative, digits: self.copy_digits() }
    }

    pub fn abs(&self) -> (r: Int)
        ensures
            r@ == if self@ < 0 { -self@ } else { self@ },
    {
        Int { negative: false, digits: self.copy_digits() }
    }

    pub fn plus(&self, other: &Int) -> (r: Int)
        ensures
            r@ == self@ + other@,
    {
        if self.negative == other.negative {
            Int { negative: self.negative, digits: digits_add(&self.digits, &other.digits) }
        } else if digits_le(&other.digits, &self.digits) {
            Int { negative: self.negative, digits: digits_sub(&self.digits, &other.digits) }
        } else {
            Int { negative: other.negative, digits: digits_sub(&other.digits, &self.digits) }
        }
    }

    pub fn minus(&self, other: &Int) -> (r: Int)
        ensures
            r@ == self@ - other@,
    {
        self.plus(&other.neg())
    }

    pub fn times(&self, other: &Int) -> (r: Int)
        ensures
            r@ == self@ * other@,
    {
        proof {
            let a = magnitude(self.digits@) as int;
            let b = magnitude(other.digits@) as int;
            assert((-a) * b == -(a * b) && a * (-b) == -(a * b) && (-a) * (-b) == a * b) by (nonlinear_arith);
        }
        Int { negative: self.negative != other.negative, digits: digits_mul(&self.digits, &other.digits) }
    }

    /// The quotient of two integers that are not negative, rounded down.
    pub fn quotient(&self, other: &Int) -> (r: Int)
        requires
            self@ >= 0,
            other@ > 0,
        ensures
            r@ == self@ / other@,
    {
        Int { negative: false, digits: digits_div(&self.digits, &other.digits) }
    }

    /// The remainder of two integers that are not negative.
    pub fn remainder(&self, other: &Int) -> (r: Int)
        requires
            self@ >= 0,
            other@ > 0,
        ensures
            r@ == self@ % other@,
    {
        Int { negative: false, digits: digits_rem(&self.digits, &other.digits) }
    }

    pub fn at_most(&self, other: &Int) -> (r: bool)
        ensures
            r == (self@ <= other@),
    {
        !other.minus(self).is_negative()
    }

    pub fn equals(&self, other: &Int) -> (r: bool)
        ensures
            r == (self@ == other@),
    {
        self.minus(other).is_zero()
    }

    /// The number as a `u64`, where it is one.
    pub fn to_u64(&self) -> (r: Option<u64>)
        ensures
            match r {
                Some(x) => self@ == x,
                None => self@ < 0 || self@ > u64::MAX,
            },
    {
        if self.is_negative() {
            None
        } else {
            digits_to_u64(&self.digits)
        }
    }
}

impl PartialEq for Int {
    fn eq(&self, other: &Int) -> (r: bool) {
        self.equals(other)
    }
}

impl vstd::std_specs::cmp::PartialEqSpecImpl for Int {
    open spec fn obeys_eq_spec() -> bool {
        true
    }

    open spec fn eq_spec(&self, other: &Int) -> bool {
        self@ == other@
    }
}

} // verus!
