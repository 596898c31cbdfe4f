//! Findings of a comparison, and the text that they are written in.

use vstd::prelude::*;
use crate::text::{byte_len, cut, cuts, decimal, decimal_chars, first_bytes, law_first_bytes};

verus! {

// ---- text ----

pub open spec fn digit_char(n: nat) -> char {
    (48 + n % 10) as char
}

/// A number in decimal with a comma before every three digits.
pub open spec fn thousands_chars(n: nat) -> Seq<char>
    decreases n,
{
    if n < 1000 {
        decimal_chars(n)
    } else {
        thousands_chars(n / 1000) + ","@ + seq![digit_char(n / 100), digit_char(n / 10), digit_char(n)]
    }
}

/// A number in decimal with a comma before every three digits.
pub fn fmt_u64(n: u64) -> (r: String)
    ensures
        r@ == thousands_chars(n as nat),
    decreases n,
{
    if n < 1000 {
        decimal(n)
    } else {
        let mut r = fmt_u64(n / 1000);
        r.append(",");
        r.append(decimal((n / 100) % 10).as_str());
        r.append(decimal((n / 10) % 10).as_str());
        r.append(decimal(n % 10).as_str());
        assert(r@ =~= thousands_chars(n as nat));
        r
    }
}

/// A text without the commas in it.
pub open spec fn without_commas(s: Seq<char>) -> Seq<char>
    decreases s.len(),
{
    if s.len() == 0 {
        s
    } else if s.last() == ',' {
        without_commas(s.drop_last())
    } else {
        without_commas(s.drop_last()).push(s.last())
    }
}

proof fn lemma_decimal_plain(n: nat)
    ensures
        without_commas(decimal_chars(n)) == decimal_chars(n),
    decreases n,
{
    let s = decimal_chars(n);
    if n < 10 {
        assert(s.drop_last() =~= Seq::empty());
        assert(without_commas(s.drop_last()) =~= Seq::empty());
        assert(s.last() == (48 + n) as char);
        assert(without_commas(s) =~= s);
    } else {
        lemma_decimal_plain(n / 10);
        assert(s.drop_last() =~= decimal_chars(n / 10));
        assert(s.last() == (48 + n % 10) as char);
    }
}

/// Grouping only adds commas: without them the digits are those of the
/// number.
pub proof fn law_grouping_keeps_digits(n: nat)
    ensures
        without_commas(thousands_chars(n)) == decimal_chars(n),
    decreases n,
{
    if n < 1000 {
        lemma_decimal_plain(n);
    } else {
        reveal_strlit(",");
        law_grouping_keeps_digits(n / 1000);
        let head = thousands_chars(n / 1000);
        let s = thousands_chars(n);
        let (a, b, c) = (digit_char(n / 100), digit_char(n / 10), digit_char(n));
        assert(s =~= head.push(',').push(a).push(b).push(c));
        let s1 = head.push(',').push(a).push(b);
        let s2 = head.push(',').push(a);
        let s3 = head.push(',');
        assert(s.drop_last() =~= s1);
        assert(s1.drop_last() =~= s2);
        assert(s2.drop_last() =~= s3);
        assert(s3.drop_last() =~= head);
        assert(without_commas(s3) == decimal_chars(n / 1000));
        assert(without_commas(s2) == decimal_chars(n / 1000).push(a));
        assert(without_commas(s1) == decimal_chars(n / 1000).push(a).push(b));
        assert((n / 100) / 10 == n / 1000);
        assert((n / 10) / 10 == n / 100);
        assert(decimal_chars(n / 100) == decimal_chars(n / 1000).push(a));
        assert(decimal_chars(n / 10) == decimal_chars(n / 100).push(b));
        assert(decimal_chars(n) == decimal_chars(n / 10).push(c));
    }
}

/// A whole number in decimal, with a sign where it is negative.
pub open spec fn signed_chars(x: int) -> Seq<char> {
    if x < 0 {
        "-"@ + decimal_chars((-x) as nat)
    } else {
        decimal_chars(x as nat)
    }
}

/// The difference of two numbers in decimal.
pub fn difference_text(from: u64, to: u64) -> (r: String)
    ensures
        r@ == signed_chars(to - from),
{
    if to < from {
        let mut r = "-".to_string();
        r.append(decimal(from - to).as_str());
        r
    } else {
        decimal(to - from)
    }
}

/// A number that may be missing, as debug output writes it.
pub open spec fn optional_chars(x: Option<u64>) -> Seq<char> {
    match x {
        Some(n) => "Some("@ + decimal_chars(n as nat) + ")"@,
        None => "None"@,
    }
}

pub fn optional_text(x: Option<u64>) -> (r: String)
    ensures
        r@ == optional_chars(x),
{
    match x {
        Some(n) => {
            let mut r = "Some(".to_string();
            r.append(decimal(n).as_str());
            r.append(")");
            r
        },
        None => "None".to_string(),
    }
}

/// The first bytes of a text, with a mark where some are left out.
pub open spec fn abbreviated(s: Seq<char>, max: nat) -> Seq<char> {
    if byte_len(s) <= max {
        s
    } else {
        first_bytes(s, max) + "…"@
    }
}

/// Shortens a text to a number of bytes. No character may stand across the
/// cut.
pub fn abbrev(s: &str, max: usize) -> (r: String)
    requires
        cuts(s@, max as nat),
    ensures
        r@ == abbreviated(s@, max as nat),
{
    if s.as_bytes().len() <= max {
        proof {
            law_first_bytes(s@, max as nat);
        }
        return s.to_string();
    }
    let mut r = cut(s, max);
    r.append("…");
    proof {
        law_first_bytes(s@, max as nat);
    }
    r
}

/// The mark of a check.
pub fn chk(ok: bool) -> (r: &'static str)
    ensures
        r@ == if ok {
            "✓"@
        } else {
            "✗ MISMATCH"@
        },
{
    if ok {
        "✓"
    } else {
        "✗ MISMATCH"
    }
}

/// The mark of a check, with the number that stands there where it fails.
pub fn chk_with_actual(ok: bool, actual: u64) -> (r: String)
    ensures
        r@ == if ok {
            "✓"@
        } else {
            "✗  actual: "@ + thousands_chars(actual as nat)
        },
{
    if ok {
        "✓".to_string()
    } else {
        let mut r = "✗  actual: ".to_string();
        r.append(fmt_u64(actual).as_str());
        r
    }
}

// ---- findings ----

/// One difference between two dumps.
pub struct Finding {
    pub text: String,
    /// By how many lovelace the dumps differ, where the amount is to be shown
    /// in ADA as well.
    pub lovelace: Option<i128>,
}

#[verifier::ext_equal]
pub struct FindingModel {
    pub text: Seq<char>,
    pub lovelace: Option<int>,
}

impl Finding {
    pub open spec fn model(&self) -> FindingModel {
        FindingModel {
            text: self.text@,
            lovelace: match self.lovelace {
                Some(x) => Some(x as int),
                None => None,
            },
        }
    }
}

pub open spec fn found(s: Seq<Finding>) -> Seq<FindingModel> {
    Seq::new(s.len(), |i: int| s[i].model())
}

/// Findings with one more, which is text alone.
pub open spec fn noted(l: Seq<FindingModel>, text: Seq<char>) -> Seq<FindingModel> {
    l.push(FindingModel { text, lovelace: None })
}

/// Findings with one more, on an amount.
pub open spec fn noted_amount(l: Seq<FindingModel>, text: Seq<char>, lovelace: int) -> Seq<FindingModel> {
    l.push(FindingModel { text, lovelace: Some(lovelace) })
}

pub fn note(out: &mut Vec<Finding>, text: String)
    ensures
        found(final(out)@) == noted(found(old(out)@), text@),
{
    let ghost l = found(out@);
    let ghost t = text@;
    out.push(Finding { text, lovelace: None });
    assert(found(out@) =~= noted(l, t));
}

pub fn note_amount(out: &mut Vec<Finding>, text: String, from: u64, to: u64)
    ensures
        found(final(out)@) == noted_amount(found(old(out)@), text@, to - from),
{
    let ghost l = found(out@);
    let ghost t = text@;
    out.push(Finding { text, lovelace: Some(to as i128 - from as i128) });
    assert(found(out@) =~= noted_amount(l, t, to - from));
}

/// A place and two values.
pub open spec fn sides(place: Seq<char>, haskell: Seq<char>, hayate: Seq<char>) -> Seq<char> {
    place + ": haskell="@ + haskell + " hayate="@ + hayate
}

pub fn sides_text(place: &str, haskell: &str, hayate: &str) -> (r: String)
    ensures
        r@ == sides(place@, haskell@, hayate@),
{
    let mut r = place.to_string();
    r.append(": haskell=");
    r.append(haskell);
    r.append(" hayate=");
    r.append(hayate);
    r
}

/// A place, two numbers and their difference.
pub open spec fn numbers_differ(place: Seq<char>, haskell: u64, hayate: u64) -> Seq<char> {
    sides(place, decimal_chars(haskell as nat), decimal_chars(hayate as nat)) + " diff="@ + signed_chars(
        hayate - haskell,
    )
}

pub fn differ_text(place: &str, haskell: u64, hayate: u64) -> (r: String)
    ensures
        r@ == numbers_differ(place@, haskell, hayate),
{
    let mut r = sides_text(place, decimal(haskell).as_str(), decimal(hayate).as_str());
    r.append(" diff=");
    r.append(difference_text(haskell, hayate).as_str());
    r
}

/// A place and something to say about it.
pub fn remark(place: &str, words: &str) -> (r: String)
    ensures
        r@ == place@ + words@,
{
    let mut r = place.to_string();
    r.append(words);
    r
}

/// Commas stand before every third digit from the end, and nowhere else.
pub proof fn law_commas_placed(n: nat, i: int)
    requires
        0 <= i < thousands_chars(n).len(),
    ensures
        thousands_chars(n)[thousands_chars(n).len() - 1 - i] == ',' <==> i % 4 == 3,
        thousands_chars(n)[0] != ',',
    decreases n,
{
    let s = thousands_chars(n);
    if n < 1000 {
        lemma_short(n);
        lemma_no_comma(n, s.len() - 1 - i);
        lemma_no_comma(n, 0);
    } else {
        reveal_strlit(",");
        let head = thousands_chars(n / 1000);
        let (a, b, c) = (digit_char(n / 100), digit_char(n / 10), digit_char(n));
        assert(s =~= head.push(',').push(a).push(b).push(c));
        lemma_some_digit(n / 1000);
        law_commas_placed(n / 1000, 0);
        if i >= 4 {
            law_commas_placed(n / 1000, i - 4);
            assert(s[s.len() - 1 - i] == head[head.len() - 1 - (i - 4)]);
        }
    }
}

proof fn lemma_short(n: nat)
    requires
        n < 1000,
    ensures
        1 <= decimal_chars(n).len() <= 3,
{
    reveal_with_fuel(decimal_chars, 4);
}

proof fn lemma_some_digit(n: nat)
    ensures
        thousands_chars(n).len() > 0,
{
    if n < 1000 {
        lemma_short(n);
    } else {
        reveal_strlit(",");
    }
}

proof fn lemma_no_comma(n: nat, i: int)
    requires
        0 <= i < decimal_chars(n).len(),
    ensures
        decimal_chars(n)[i] != ',',
    decreases n,
{
    if n >= 10 && i < decimal_chars(n).len() - 1 {
        lemma_no_comma(n / 10, i);
    }
}

} // verus!
