use hayate::bigint::Int;
use hayate::ledger::rational::Rat;

fn is(x: &Int, n: i128) -> bool {
    x.equals(&Int::from_i128(n))
}

#[test]
fn test_rat_basic_arithmetic() {
    let a = Rat::from_i128(1, 2);
    let b = Rat::from_i128(1, 3);

    let sum = a.add(&b);
    assert!(is(&sum.n, 5));
    assert!(is(&sum.d, 6));

    let product = a.mul(&b);
    assert!(is(&product.n, 1));
    assert!(is(&product.d, 6));
}

#[test]
fn test_rat_floor() {
    let r = Rat::from_i128(7, 3);
    assert_eq!(r.floor_u64(), 2);

    let r2 = Rat::from_i128(-5, 2);
    assert_eq!(r2.floor_u64(), 0);
}

#[test]
fn test_rat_normalization() {
    let r = Rat::from_i128(6, 9);
    assert!(is(&r.n, 2));
    assert!(is(&r.d, 3));
}

#[test]
fn subtraction_may_go_below_zero() {
    let d = Rat::from_i128(1, 3).sub(&Rat::from_i128(1, 2));
    assert!(is(&d.n, -1));
    assert!(is(&d.d, 6));
    assert_eq!(d.floor_u64(), 0);
}

#[test]
fn division_by_zero_gives_zero() {
    let d = Rat::from_i128(1, 3).div(&Rat::from_i128(0, 5));
    assert!(is(&d.n, 0));
    assert!(is(&d.d, 1));
    let z = Rat::from_i128(4, 0);
    assert!(is(&z.n, 0));
    assert!(is(&z.d, 1));
}

#[test]
fn signs_move_to_the_numerator() {
    let r = Rat::from_i128(4, -6);
    assert!(is(&r.n, -2));
    assert!(is(&r.d, 3));
    let s = Rat::from_i128(-4, -6);
    assert!(is(&s.n, 2));
    assert!(is(&s.d, 3));
}

#[test]
fn the_smaller_fraction_is_the_minimum() {
    let a = Rat::from_i128(2, 5);
    let b = Rat::from_i128(3, 7);
    let m = a.min_rat(&b);
    assert!(is(&m.n, 2));
    assert!(is(&m.d, 5));
    let m = b.min_rat(&a);
    assert!(is(&m.n, 2));
    assert!(is(&m.d, 5));
}

#[test]
fn arithmetic_does_not_depend_on_the_order() {
    let a = Rat::from_i128(17, 12);
    let b = Rat::from_i128(5, 9);
    let (x, y) = (a.add(&b), b.add(&a));
    assert!(x.n.equals(&y.n) && x.d.equals(&y.d));
    let (x, y) = (a.mul(&b), b.mul(&a));
    assert!(x.n.equals(&y.n) && x.d.equals(&y.d));
}

#[test]
fn multiplying_and_dividing_is_a_round_trip() {
    let r = Rat::from_i128(22, 7);
    let back = r.mul(&Rat::from_i128(13, 1)).div(&Rat::from_i128(13, 1));
    assert!(back.n.equals(&r.n) && back.d.equals(&r.d));
    assert_eq!(back.floor_u64(), 3);
}

#[test]
fn floors_are_tight() {
    for (a, b) in [(0i128, 1i128), (9, 10), (10, 10), (1_000_000_000_000, 7), (44, 4)] {
        let f = Rat::from_i128(a, b).floor_u64() as i128;
        assert!(f * b <= a);
        assert!((f + 1) * b > a);
    }
}

#[test]
fn large_products_are_exact() {
    let big = Rat::from_i128(i128::MAX, 3);
    let p = big.mul(&big).mul(&Rat::from_i128(9, i128::MAX)).mul(&Rat::from_i128(1, i128::MAX));
    assert!(is(&p.n, 1));
    assert!(is(&p.d, 1));
    // a floor beyond 64 bits stays at the largest number
    assert_eq!(big.floor_u64(), u64::MAX);
}

#[test]
fn integers_behave_as_numbers() {
    let a = Int::from_i128(-7);
    let b = Int::from_u64(u64::MAX);
    assert!(a.is_negative() && !b.is_negative());
    assert!(!a.is_zero() && Int::from_u64(0).is_zero());
    assert!(a.neg().equals(&Int::from_i128(7)));
    assert!(a.abs().equals(&Int::from_i128(7)));
    assert!(b.plus(&Int::from_u64(1)).to_u64().is_none());
    assert_eq!(b.to_u64(), Some(u64::MAX));
    assert_eq!(a.to_u64(), None);
    assert!(b.times(&b).minus(&b.times(&b)).is_zero());
    assert_eq!(Int::from_u64(17).quotient(&Int::from_u64(5)).to_u64(), Some(3));
    assert_eq!(Int::from_u64(17).remainder(&Int::from_u64(5)).to_u64(), Some(2));
    assert!(a.at_most(&b) && !b.at_most(&a));
    assert!(a.dup().equals(&a));
}
