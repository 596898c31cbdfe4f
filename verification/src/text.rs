//! Texts: numbers in decimal, and parts of texts.

use vstd::prelude::*;
use vstd::utf8::{char_is_scalar, encode_scalar, encode_utf8};
use crate::ledger::primitives::Rational;
use crate::ledger::rational::{gcd, greatest_divisor, lemma_gcd_divides};

verus! {

/// The decimal digits of a number.
pub open spec fn decimal_chars(n: nat) -> Seq<char>
    decreases n,
{
    if n < 10 {
        seq![(48 + n) as char]
    } else {
        decimal_chars(n / 10).push((48 + n % 10) as char)
    }
}

/// One decimal digit.
fn digit_text(d: u64) -> (r: &'static str)
    requires
        d < 10,
    ensures
        r@ == seq![(48 + d) as char],
{
    proof {
        reveal_strlit("0");
        reveal_strlit("1");
        reveal_strlit("2");
        reveal_strlit("3");
        reveal_strlit("4");
        reveal_strlit("5");
        reveal_strlit("6");
        reveal_strlit("7");
        reveal_strlit("8");
        reveal_strlit("9");
    }
    let r: &'static str = match d {
        0 => "0",
        1 => "1",
        2 => "2",
        3 => "3",
        4 => "4",
        5 => "5",
        6 => "6",
        7 => "7",
        8 => "8",
        _ => "9",
    };
    assert(r@ =~= seq![(48 + d) as char]);
    r
}

/// A number in decimal.
pub fn decimal(n: u64) -> (r: String)
    ensures
        r@ == decimal_chars(n as nat),
    decreases n,
{
    let mut s: String = if n < 10 { String::new() } else { decimal(n / 10) };
    s.append(digit_text(n % 10));
    assert(s@ =~= decimal_chars(n as nat));
    s
}

// ---- reading numbers ----

pub open spec fn is_digit(c: char) -> bool {
    '0' <= c <= '9'
}

pub open spec fn all_digits(s: Seq<char>) -> bool {
    forall|i: int| #![trigger s[i]] 0 <= i < s.len() ==> is_digit(s[i])
}

/// The number that digits stand for.
pub open spec fn number_of(s: Seq<char>) -> nat
    decreases s.len(),
{
    if s.len() == 0 {
        0
    } else {
        number_of(s.drop_last()) * 10 + (s.last() as nat - 48) as nat
    }
}

/// What digits stand for, where there are any and the number fits.
pub open spec fn digits_parsed(s: Seq<char>) -> Option<u64> {
    if s.len() > 0 && all_digits(s) && number_of(s) <= u64::MAX {
        Some(number_of(s) as u64)
    } else {
        None
    }
}

/// An unsigned number in decimal, with or without a plus sign.
pub open spec fn parsed(s: Seq<char>) -> Option<u64> {
    if s.len() > 0 && s[0] == '+' {
        digits_parsed(s.skip(1))
    } else {
        digits_parsed(s)
    }
}

pub open spec fn parsed_or_zero(s: Seq<char>) -> u64 {
    match parsed(s) {
        Some(n) => n,
        None => 0,
    }
}

proof fn lemma_number_prefix(s: Seq<char>, i: int)
    requires
        0 <= i <= s.len(),
        all_digits(s),
    ensures
        number_of(s.take(i)) <= number_of(s),
    decreases s.len(),
{
    if i == s.len() {
        assert(s.take(i) =~= s);
    } else {
        let t = s.drop_last();
        assert(all_digits(t)) by {
            assert forall|j: int| #![trigger t[j]] 0 <= j < t.len() implies is_digit(t[j]) by {
                assert(t[j] == s[j]);
            }
        }
        assert(s.take(i) =~= t.take(i));
        lemma_number_prefix(t, i);
        assert(is_digit(s[s.len() - 1]));
    }
}

/// The characters of a text.
pub fn chars_of(s: &str) -> (r: Vec<char>)
    ensures
        r@ == s@,
{
    let n: usize = s.unicode_len();
    let mut r: Vec<char> = Vec::new();
    let mut i: usize = 0;
    while i < n
        invariant
            i <= n,
            n == s@.len(),
            r@ == s@.take(i as int),
        decreases n - i,
    {
        r.push(s.get_char(i));
        assert(s@.take(i + 1) =~= s@.take(i as int).push(s@[i as int]));
        i += 1;
    }
    assert(s@.take(i as int) =~= s@);
    r
}

fn parse_digits(v: &Vec<char>, from: usize, to: usize) -> (r: Option<u64>)
    requires
        from <= to <= v@.len(),
    ensures
        r == digits_parsed(v@.subrange(from as int, to as int)),
{
    let ghost s = v@.subrange(from as int, to as int);
    if from == to {
        return None;
    }
    let mut n: u64 = 0;
    let mut i: usize = from;
    while i < to
        invariant
            from <= i <= to <= v@.len(),
            s == v@.subrange(from as int, to as int),
            forall|j: int| #![trigger s[j]] 0 <= j < i - from ==> is_digit(s[j]),
            n == number_of(s.take(i - from)),
        decreases to - i,
    {
        let c: char = v[i];
        assert(s[i - from] == c);
        if !('0' <= c && c <= '9') {
            return None;
        }
        let d: u64 = (c as u32 - 48) as u64;
        proof {
            assert(s.take(i - from + 1).drop_last() =~= s.take(i - from));
            assert(number_of(s.take(i - from + 1)) == n as nat * 10 + d);
            if all_digits(s) {
                lemma_number_prefix(s, i - from + 1);
            }
        }
        if n > (u64::MAX - d) / 10 {
            proof {
                assert(n * 10 + d > u64::MAX);
            }
            return None;
        }
        n = n * 10 + d;
        i += 1;
    }
    assert(s.take(i - from) =~= s);
    Some(n)
}

/// Reads part of a text as an unsigned number.
pub fn parse_part(v: &Vec<char>, from: usize, to: usize) -> (r: Option<u64>)
    requires
        from <= to <= v@.len(),
    ensures
        r == parsed(v@.subrange(from as int, to as int)),
{
    let ghost s = v@.subrange(from as int, to as int);
    if from < to && v[from] == '+' {
        assert(s.skip(1) =~= v@.subrange(from + 1, to as int));
        assert(s[0] == '+');
        parse_digits(v, from + 1, to)
    } else {
        parse_digits(v, from, to)
    }
}

/// Reads a text as an unsigned number.
pub fn parse_u64(s: &str) -> (r: Option<u64>)
    ensures
        r == parsed(s@),
{
    let v = chars_of(s);
    let n: usize = v.len();
    assert(v@.subrange(0, n as int) =~= v@);
    parse_part(&v, 0, n)
}

/// The digits of a number stand for it.
pub proof fn lemma_decimal_digits(n: nat)
    ensures
        decimal_chars(n).len() > 0,
        all_digits(decimal_chars(n)),
        number_of(decimal_chars(n)) == n,
    decreases n,
{
    let s = decimal_chars(n);
    if n < 10 {
        assert(s.drop_last() =~= Seq::empty());
        assert(number_of(s.drop_last()) == 0);
        assert(s.last() == (48 + n) as char);
    } else {
        lemma_decimal_digits(n / 10);
        assert(s.drop_last() =~= decimal_chars(n / 10));
        assert(s.last() == (48 + n % 10) as char);
        assert forall|i: int| #![trigger s[i]] 0 <= i < s.len() implies is_digit(s[i]) by {
            if i < s.len() - 1 {
                assert(s[i] == decimal_chars(n / 10)[i]);
            }
        }
    }
}

/// Reading a number that was written in decimal gives it back.
pub proof fn law_decimal_read_back(n: u64)
    ensures
        parsed(decimal_chars(n as nat)) == Some(n),
        all_digits(decimal_chars(n as nat)),
{
    lemma_decimal_digits(n as nat);
    assert(is_digit(decimal_chars(n as nat)[0]));
}

/// Zeros before a number do not change it.
pub proof fn lemma_zeros_before(zeros: Seq<char>, s: Seq<char>)
    requires
        forall|i: int| #![trigger zeros[i]] 0 <= i < zeros.len() ==> zeros[i] == '0',
    ensures
        number_of(zeros + s) == number_of(s),
        all_digits(s) ==> all_digits(zeros + s),
    decreases zeros.len() + s.len(),
{
    let t = zeros + s;
    if s.len() > 0 {
        assert(t.drop_last() =~= zeros + s.drop_last());
        lemma_zeros_before(zeros, s.drop_last());
        assert(t.last() == s.last());
    } else if zeros.len() > 0 {
        assert(t =~= zeros);
        let z = zeros.drop_last();
        assert forall|i: int| #![trigger z[i]] 0 <= i < z.len() implies z[i] == '0' by {
            assert(z[i] == zeros[i]);
        }
        lemma_zeros_before(z, s);
        assert(z + s =~= z);
        assert(t.drop_last() =~= z);
        assert(zeros[zeros.len() - 1] == '0');
        assert(number_of(z) == 0);
    } else {
        assert(t =~= s);
    }
    if all_digits(s) {
        assert forall|i: int| #![trigger t[i]] 0 <= i < t.len() implies is_digit(t[i]) by {
            if i < zeros.len() {
                assert(t[i] == zeros[i]);
            } else {
                assert(t[i] == s[i - zeros.len()]);
            }
        }
    }
}

// ---- decimal fractions ----

/// Where the first point stands.
pub open spec fn point_at(s: Seq<char>) -> Option<int>
    decreases s.len(),
{
    if s.len() == 0 {
        None
    } else {
        match point_at(s.drop_last()) {
            Some(i) => Some(i),
            None => if s.last() == '.' {
                Some(s.len() - 1)
            } else {
                None
            },
        }
    }
}

/// Digits without the zeros at their end.
pub open spec fn trimmed(s: Seq<char>) -> Seq<char>
    decreases s.len(),
{
    if s.len() > 0 && s.last() == '0' {
        trimmed(s.drop_last())
    } else {
        s
    }
}

/// A power of ten.
pub open spec fn ten_to(n: nat) -> nat
    decreases n,
{
    if n == 0 {
        1
    } else {
        10 * ten_to((n - 1) as nat)
    }
}

/// A decimal fraction before it is reduced.
pub open spec fn fraction_of(s: Seq<char>) -> (nat, nat) {
    match point_at(s) {
        None => (parsed_or_zero(s) as nat, 1),
        Some(i) => {
            let whole = parsed_or_zero(s.take(i)) as nat;
            let digits = trimmed(s.skip(i + 1));
            if digits.len() == 0 {
                (whole, 1)
            } else {
                (whole * ten_to(digits.len()) + parsed_or_zero(digits) as nat, ten_to(digits.len()))
            }
        },
    }
}

/// A decimal fraction in lowest terms. A part that is no number counts as
/// zero.
pub open spec fn decimal_ratio(s: Seq<char>) -> Rational {
    let (n, d) = fraction_of(s);
    let g = gcd(n, d);
    Rational { numerator: (n / g) as u64, denominator: (d / g) as u64 }
}

proof fn lemma_point_range(s: Seq<char>)
    ensures
        point_at(s) matches Some(i) ==> 0 <= i < s.len(),
    decreases s.len(),
{
    if s.len() > 0 {
        lemma_point_range(s.drop_last());
    }
}

proof fn lemma_point_prefix(s: Seq<char>, i: int)
    requires
        0 <= i <= s.len(),
        point_at(s.take(i)) is Some,
    ensures
        point_at(s) == point_at(s.take(i)),
    decreases s.len() - i,
{
    if i == s.len() {
        assert(s.take(i) =~= s);
    } else {
        assert(s.take(i + 1).drop_last() =~= s.take(i));
        lemma_point_prefix(s, i + 1);
    }
}

fn find_point(v: &Vec<char>) -> (r: Option<usize>)
    ensures
        match r {
            Some(i) => point_at(v@) == Some(i as int) && i < v@.len(),
            None => point_at(v@) is None,
        },
{
    let mut i: usize = 0;
    while i < v.len()
        invariant
            i <= v@.len(),
            point_at(v@.take(i as int)) is None,
        decreases v@.len() - i,
    {
        assert(v@.take(i + 1).drop_last() =~= v@.take(i as int));
        if v[i] == '.' {
            proof {
                lemma_point_prefix(v@, i + 1);
            }
            return Some(i);
        }
        i += 1;
    }
    assert(v@.take(i as int) =~= v@);
    None
}

proof fn lemma_trimmed_step(s: Seq<char>, n: int)
    requires
        0 < n <= s.len(),
        s[n - 1] == '0',
    ensures
        trimmed(s.take(n)) == trimmed(s.take(n - 1)),
{
    assert(s.take(n).drop_last() =~= s.take(n - 1));
}

fn power_of_ten(n: usize) -> (r: u64)
    requires
        n <= 19,
    ensures
        r == ten_to(n as nat),
{
    assert(ten_to(18) == 1_000_000_000_000_000_000) by {
        reveal_with_fuel(ten_to, 20);
    }
    let mut r: u64 = 1;
    let mut i: usize = 0;
    while i < n
        invariant
            i <= n <= 19,
            r == ten_to(i as nat),
            ten_to(18) == 1_000_000_000_000_000_000,
        decreases n - i,
    {
        proof {
            lemma_ten_grows(i as nat, 18);
        }
        r = r * 10;
        i += 1;
    }
    r
}

/// A decimal fraction such as `0.05` in lowest terms.
pub fn decimal_to_rational(s: &str) -> (r: Rational)
    requires
        fraction_of(s@).0 <= u64::MAX,
        fraction_of(s@).1 <= u64::MAX,
    ensures
        r == decimal_ratio(s@),
{
    let v = chars_of(s);
    let n: usize = v.len();
    match find_point(&v) {
        None => {
            assert(v@.subrange(0, n as int) =~= v@);
            let whole: u64 = match parse_part(&v, 0, n) {
                Some(x) => x,
                None => 0,
            };
            reduced(whole, 1)
        },
        Some(p) => {
            assert(v@.subrange(0, p as int) =~= v@.take(p as int));
            let whole: u64 = match parse_part(&v, 0, p) {
                Some(x) => x,
                None => 0,
            };
            let ghost f = v@.skip(p + 1);
            let mut end: usize = n;
            assert(f.take(end - p - 1) =~= f);
            while end > p + 1 && v[end - 1] == '0'
                invariant
                    p < end <= n,
                    n == v@.len(),
                    f == v@.skip(p + 1),
                    trimmed(f) == trimmed(f.take(end - p - 1)),
                decreases end,
            {
                assert(f[end - p - 2] == v@[end - 1]);
                proof {
                    lemma_trimmed_step(f, end - p - 1);
                }
                end -= 1;
            }
            let ghost digits = f.take(end - p - 1);
            assert(trimmed(f) == digits) by {
                if digits.len() > 0 {
                    assert(digits.last() == v@[end - 1]);
                }
            }
            if end == p + 1 {
                return reduced(whole, 1);
            }
            let count: usize = end - p - 1;
            assert(v@.subrange(p + 1, end as int) =~= digits);
            let part: u64 = match parse_part(&v, p + 1, end) {
                Some(x) => x,
                None => 0,
            };
            proof {
                if count > 19 {
                    lemma_ten_grows(20, count as nat);
                    reveal_with_fuel(ten_to, 21);
                    assert(ten_to(20) == 100_000_000_000_000_000_000);
                }
            }
            let den: u64 = power_of_ten(count);
            proof {
                lemma_ten_grows(0, count as nat);
                assert(whole * den >= 0) by (nonlinear_arith)
                    requires
                        whole >= 0,
                        den >= 0,
                ;
            }
            reduced(whole * den + part, den)
        },
    }
}

proof fn lemma_ten_grows(a: nat, b: nat)
    requires
        a <= b,
    ensures
        ten_to(a) <= ten_to(b),
    decreases b,
{
    if a < b {
        lemma_ten_grows(a, (b - 1) as nat);
    }
}

fn reduced(n: u64, d: u64) -> (r: Rational)
    requires
        d > 0,
    ensures
        r == (Rational {
            numerator: (n as nat / gcd(n as nat, d as nat)) as u64,
            denominator: (d as nat / gcd(n as nat, d as nat)) as u64,
        }),
{
    let g: u64 = greatest_divisor(n, d);
    Rational { numerator: n / g, denominator: d / g }
}

/// A decimal fraction that is written out stands for its value: what stands
/// before the point, and the digits behind it over a power of ten.
pub proof fn law_decimal_fraction(w: Seq<char>, f: Seq<char>)
    requires
        w.len() > 0,
        f.len() > 0,
        all_digits(w),
        all_digits(f),
        number_of(w) <= u64::MAX,
        number_of(f) <= u64::MAX,
        (fraction_of(w + seq!['.'] + f)).0 <= u64::MAX,
        (fraction_of(w + seq!['.'] + f)).1 <= u64::MAX,
    ensures
        ({
            let r = decimal_ratio(w + seq!['.'] + f);
            let p = ten_to(f.len());
            &&& r.denominator > 0
            &&& r.numerator * p == (number_of(w) * p + number_of(f)) * r.denominator
        }),
{
    let s = w + seq!['.'] + f;
    lemma_point_behind(w, f);
    let i = w.len() as int;
    assert(s.take(i) =~= w);
    assert(s.skip(i + 1) =~= f);
    assert(is_digit(w[0]));
    assert(parsed_or_zero(w) == number_of(w));
    let t = trimmed(f);
    lemma_trimmed(f);
    let k = (f.len() - t.len()) as nat;
    lemma_ten_sum(t.len(), k);
    lemma_ten_positive(t.len());
    lemma_ten_positive(f.len());
    let p = ten_to(f.len());
    let (n, d) = fraction_of(s);
    let (a, b, c, x, y) = (number_of(w) as int, number_of(t) as int, number_of(f) as int, ten_to(t.len()) as int, ten_to(k) as int);
    assert(c == b * y);
    assert(p == x * y);
    assert(n * p == (a * p + c) * d) by {
        if t.len() == 0 {
            assert(b == 0);
            assert(x == 1);
            assert(n == a && d == 1);
            assert(c == 0) by (nonlinear_arith)
                requires
                    c == b * y,
                    b == 0,
            ;
            assert(a * p == (a * p + c) * 1) by (nonlinear_arith)
                requires
                    c == 0,
            ;
        } else {
            assert(is_digit(t[0]));
            assert(parsed_or_zero(t) == b) by {
                assert(b <= c) by (nonlinear_arith)
                    requires
                        c == b * y,
                        y >= 1,
                        b >= 0,
                ;
            }
            assert(n == a * x + b && d == x);
            assert((a * x + b) * (x * y) == (a * (x * y) + b * y) * x) by (nonlinear_arith);
        }
    }
    assert(d > 0);
    lemma_gcd_divides(n, d);
    let g = gcd(n, d) as int;
    vstd::arithmetic::div_mod::lemma_fundamental_div_mod(n as int, g);
    vstd::arithmetic::div_mod::lemma_fundamental_div_mod(d as int, g);
    let (u, v) = (n as int / g, d as int / g);
    assert(v > 0 && u >= 0) by (nonlinear_arith)
        requires
            d == g * v,
            n == g * u,
            d > 0,
            n >= 0,
            g > 0,
    ;
    assert(u <= n && v <= d) by (nonlinear_arith)
        requires
            d == g * v,
            n == g * u,
            v > 0,
            u >= 0,
            g >= 1,
    ;
    let q = a * p + c;
    assert(u * p == q * v) by (nonlinear_arith)
        requires
            n * p == q * d,
            n == g * u,
            d == g * v,
            g > 0,
    ;
}

proof fn lemma_point_behind(w: Seq<char>, f: Seq<char>)
    requires
        all_digits(w),
    ensures
        point_at(w + seq!['.'] + f) == Some(w.len() as int),
    decreases f.len(),
{
    let s = w + seq!['.'] + f;
    if f.len() > 0 {
        assert(s.drop_last() =~= w + seq!['.'] + f.drop_last());
        lemma_point_behind(w, f.drop_last());
    } else {
        assert(s.drop_last() =~= w);
        assert(s.last() == '.');
        lemma_no_point(w);
    }
}

proof fn lemma_no_point(w: Seq<char>)
    requires
        all_digits(w),
    ensures
        point_at(w) is None,
    decreases w.len(),
{
    if w.len() > 0 {
        let t = w.drop_last();
        assert(all_digits(t)) by {
            assert forall|i: int| #![trigger t[i]] 0 <= i < t.len() implies is_digit(t[i]) by {
                assert(t[i] == w[i]);
            }
        }
        lemma_no_point(t);
        assert(is_digit(w[w.len() - 1]));
    }
}

proof fn lemma_ten_positive(n: nat)
    ensures
        ten_to(n) >= 1,
    decreases n,
{
    if n > 0 {
        lemma_ten_positive((n - 1) as nat);
    }
}

proof fn lemma_ten_sum(a: nat, b: nat)
    ensures
        ten_to(a + b) == ten_to(a) * ten_to(b),
        ten_to(b) >= 1,
    decreases b,
{
    lemma_ten_positive(b);
    let (x, y) = (ten_to(a) as int, ten_to(b) as int);
    if b > 0 {
        let c = (b - 1) as nat;
        lemma_ten_sum(a, c);
        let z = ten_to(c) as int;
        assert(ten_to(a + b) == 10 * ten_to(a + c));
        assert(10 * (x * z) == x * (10 * z)) by (nonlinear_arith);
    } else {
        assert(x * 1 == x) by (nonlinear_arith);
    }
}

proof fn lemma_trimmed(f: Seq<char>)
    requires
        all_digits(f),
    ensures
        trimmed(f).len() <= f.len(),
        all_digits(trimmed(f)),
        number_of(f) == number_of(trimmed(f)) * ten_to((f.len() - trimmed(f).len()) as nat),
    decreases f.len(),
{
    if f.len() > 0 && f.last() == '0' {
        let t = f.drop_last();
        assert(all_digits(t)) by {
            assert forall|i: int| #![trigger t[i]] 0 <= i < t.len() implies is_digit(t[i]) by {
                assert(t[i] == f[i]);
            }
        }
        lemma_trimmed(t);
        let k = (t.len() - trimmed(t).len()) as nat;
        let (x, y) = (number_of(trimmed(t)) as int, ten_to(k) as int);
        assert(ten_to((k + 1) as nat) == 10 * ten_to(k));
        assert(number_of(f) == number_of(t) * 10);
        assert((x * y) * 10 == x * (10 * y)) by (nonlinear_arith);
    } else {
        let x = number_of(f) as int;
        assert(x * 1 == x) by (nonlinear_arith);
    }
}

// ---- parts of texts ----

/// Whether a text starts with another.
pub open spec fn has_prefix(s: Seq<char>, p: Seq<char>) -> bool {
    s.len() >= p.len() && s.take(p.len() as int) == p
}

pub fn starts_with(s: &str, p: &str) -> (r: bool)
    ensures
        r == has_prefix(s@, p@),
{
    let n: usize = s.unicode_len();
    let k: usize = p.unicode_len();
    if n < k {
        return false;
    }
    let mut i: usize = 0;
    while i < k
        invariant
            i <= k <= n,
            n == s@.len(),
            k == p@.len(),
            forall|j: int| 0 <= j < i ==> s@[j] == p@[j],
        decreases k - i,
    {
        if s.get_char(i) != p.get_char(i) {
            assert(s@.take(k as int)[i as int] != p@[i as int]);
            return false;
        }
        i += 1;
    }
    assert(s@.take(k as int) =~= p@);
    true
}

/// Whether a text ends with another.
pub open spec fn has_suffix(s: Seq<char>, p: Seq<char>) -> bool {
    s.len() >= p.len() && s.skip(s.len() - p.len()) == p
}

pub fn ends_with(s: &str, p: &str) -> (r: bool)
    ensures
        r == has_suffix(s@, p@),
{
    let n: usize = s.unicode_len();
    let k: usize = p.unicode_len();
    if n < k {
        return false;
    }
    let mut i: usize = 0;
    while i < k
        invariant
            i <= k <= n,
            n == s@.len(),
            k == p@.len(),
            forall|j: int| 0 <= j < i ==> s@[n - k + j] == p@[j],
        decreases k - i,
    {
        if s.get_char(n - k + i) != p.get_char(i) {
            assert(s@.skip(n - k)[i as int] != p@[i as int]);
            return false;
        }
        i += 1;
    }
    assert(s@.skip(n - k) =~= p@);
    true
}

// ---- texts by their bytes ----

/// How many bytes a character takes in UTF-8.
pub open spec fn char_width(c: char) -> nat {
    if c as u32 <= 0x7f {
        1
    } else if c as u32 <= 0x7ff {
        2
    } else if c as u32 <= 0xffff {
        3
    } else {
        4
    }
}

/// How many bytes a text takes.
pub open spec fn byte_len(s: Seq<char>) -> nat
    decreases s.len(),
{
    if s.len() == 0 {
        0
    } else {
        byte_len(s.drop_last()) + char_width(s.last())
    }
}

/// The whole characters among the first bytes of a text.
pub open spec fn first_bytes(s: Seq<char>, n: nat) -> Seq<char>
    decreases s.len(),
{
    if byte_len(s) <= n {
        s
    } else if s.len() == 0 {
        s
    } else {
        first_bytes(s.drop_last(), n)
    }
}

/// Whether a text can be cut behind its first bytes: no character stands
/// across the cut.
pub open spec fn cuts(s: Seq<char>, n: nat) -> bool {
    byte_len(s) <= n || byte_len(first_bytes(s, n)) == n
}

proof fn lemma_encoded(s: Seq<char>)
    ensures
        byte_len(s) == encode_utf8(s).len(),
        s.len() > 0 ==> encode_utf8(s) == encode_utf8(s.drop_last()) + encode_scalar(s.last() as u32),
    decreases s.len(),
{
    if s.len() > 0 {
        char_is_scalar(s.last());
        assert(encode_scalar(s.last() as u32).len() == char_width(s.last()));
    }
    if s.len() == 1 {
        assert(s.drop_last() =~= Seq::empty());
        assert(s.drop_first() =~= Seq::empty());
        assert(encode_utf8(s.drop_first()) =~= Seq::empty());
        assert(encode_utf8(s.drop_last()) =~= Seq::empty());
        assert(encode_utf8(s) =~= encode_utf8(s.drop_last()) + encode_scalar(s.last() as u32));
    } else if s.len() > 1 {
        let t = s.drop_first();
        lemma_encoded(t);
        lemma_encoded(s.drop_last());
        assert(t.drop_last() =~= s.drop_last().drop_first());
        assert(t.last() == s.last());
        assert(encode_utf8(s) =~= encode_utf8(s.drop_last()) + encode_scalar(s.last() as u32));
    }
}

/// A text that can be cut has in its first part just the first bytes of its
/// encoding in UTF-8.
pub proof fn law_first_bytes(s: Seq<char>, n: nat)
    requires
        cuts(s, n),
    ensures
        byte_len(s) == encode_utf8(s).len(),
        encode_utf8(first_bytes(s, n)) == if encode_utf8(s).len() <= n {
            encode_utf8(s)
        } else {
            encode_utf8(s).take(n as int)
        },
    decreases s.len(),
{
    lemma_encoded(s);
    if byte_len(s) > n {
        let t = s.drop_last();
        if byte_len(t) <= n {
            assert(first_bytes(t, n) == t);
        }
        law_first_bytes(t, n);
        assert(encode_utf8(s).take(n as int) =~= encode_utf8(t).take(n as int));
        if byte_len(t) <= n {
            assert(encode_utf8(t).take(n as int) =~= encode_utf8(t));
        }
    }
}

pub proof fn lemma_first_fits(s: Seq<char>, n: nat)
    ensures
        byte_len(first_bytes(s, n)) <= n,
        first_bytes(first_bytes(s, n), n) == first_bytes(s, n),
    decreases s.len(),
{
    if byte_len(s) > n {
        lemma_first_fits(s.drop_last(), n);
    }
}

proof fn lemma_first_bytes(s: Seq<char>, n: nat, i: int)
    requires
        0 <= i < s.len(),
        byte_len(s.take(i)) <= n,
        byte_len(s.take(i + 1)) > n,
    ensures
        byte_len(s) > n,
        first_bytes(s, n) == s.take(i),
    decreases s.len(),
{
    let t = s.drop_last();
    if i + 1 == s.len() {
        assert(s.take(i + 1) =~= s);
        assert(s.take(i) =~= t);
        assert(first_bytes(t, n) == t);
    } else {
        assert(t.take(i) =~= s.take(i));
        assert(t.take(i + 1) =~= s.take(i + 1));
        lemma_first_bytes(t, n, i);
    }
}

fn width_of(c: char) -> (r: usize)
    ensures
        r == char_width(c),
{
    let n: u32 = c as u32;
    if n <= 0x7f {
        1
    } else if n <= 0x7ff {
        2
    } else if n <= 0xffff {
        3
    } else {
        4
    }
}

/// How many characters stand whole in the first bytes of a text, and how many
/// bytes they take.
fn whole_chars(s: &str, n: usize) -> (r: (usize, usize))
    ensures
        r.0 <= s@.len(),
        s@.take(r.0 as int) == first_bytes(s@, n as nat),
        r.1 == byte_len(s@.take(r.0 as int)),
        r.0 == s@.len() <==> byte_len(s@) <= n,
{
    let v = chars_of(s);
    let mut i: usize = 0;
    let mut bytes: usize = 0;
    while i < v.len()
        invariant
            v@ == s@,
            i <= v@.len(),
            bytes <= n,
            bytes == byte_len(s@.take(i as int)),
        decreases v@.len() - i,
    {
        let w: usize = width_of(v[i]);
        proof {
            assert(s@.take(i + 1).drop_last() =~= s@.take(i as int));
            assert(s@.take(i + 1).last() == s@[i as int]);
        }
        if w > n - bytes {
            proof {
                lemma_first_bytes(s@, n as nat, i as int);
            }
            return (i, bytes);
        }
        bytes += w;
        i += 1;
    }
    assert(s@.take(i as int) =~= s@);
    (i, bytes)
}

/// Whether a text can be cut behind its first bytes.
pub fn can_cut(s: &str, n: usize) -> (r: bool)
    ensures
        r == cuts(s@, n as nat),
{
    let (count, bytes) = whole_chars(s, n);
    count == s.unicode_len() || bytes == n
}

/// The first bytes of a text, or all of it where it has no more.
pub fn cut(s: &str, n: usize) -> (r: String)
    requires
        cuts(s@, n as nat),
    ensures
        r@ == first_bytes(s@, n as nat),
{
    let (count, _) = whole_chars(s, n);
    assert(s@.subrange(0, count as int) =~= s@.take(count as int));
    s.substring_char(0, count).to_string()
}

} // verus!
