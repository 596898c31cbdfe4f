//! What genesis files hand out.

use vstd::prelude::*;
use crate::genesis::{
    amount_sum, base58_bytes, base58_digit, base58_number, base64_byte, base64_digit, base64_digits, genesis_outputs, is_base58,
    leading_ones, bytes_of_number, network_tag, number_bytes, redeem_address_of, unpadded, voucher_key, voucher_outputs,
};
use crate::text::parsed;

verus! {

/// A balance with an address that can be read and an amount above zero gives an
/// output of that amount there; any other gives none.
pub proof fn law_balance(l: Seq<(Seq<char>, Seq<char>)>, x: (Seq<char>, Seq<char>))
    ensures
        genesis_outputs(Seq::empty()).len() == 0,
        parsed(x.1) is None || parsed(x.1) == Some(0u64) || !is_base58(x.0) ==> genesis_outputs(l.push(x))
            == genesis_outputs(l),
        parsed(x.1) matches Some(n) ==> (n > 0 && is_base58(x.0) ==> genesis_outputs(l.push(x)) == genesis_outputs(
            l,
        ).push((base58_bytes(x.0), n))),
{
    assert(l.push(x).drop_last() =~= l);
}

/// A voucher with a key and an amount above zero gives an output of that amount
/// at the address where the key redeems it; any other gives none.
pub proof fn law_voucher(l: Seq<(Seq<char>, Seq<char>)>, x: (Seq<char>, Seq<char>), magic: u64)
    ensures
        voucher_outputs(Seq::empty(), magic).len() == 0,
        parsed(x.1) is None || parsed(x.1) == Some(0u64) || voucher_key(x.0) is None ==> voucher_outputs(
            l.push(x),
            magic,
        ) == voucher_outputs(l, magic),
        parsed(x.1) matches Some(n) ==> (voucher_key(x.0) matches Some(k) ==> (n > 0 ==> voucher_outputs(l.push(x), magic)
            == voucher_outputs(l, magic).push((redeem_address_of(k, network_tag(magic)), n)))),
{
    assert(l.push(x).drop_last() =~= l);
}

/// Amounts add up; what is no number counts for nothing.
pub proof fn law_amounts(l: Seq<(Seq<char>, Seq<char>)>, x: (Seq<char>, Seq<char>))
    ensures
        amount_sum(Seq::empty()) == 0,
        amount_sum(l.push(x)) == amount_sum(l) + if parsed(x.1) is Some { parsed(x.1)->0 as nat } else { 0 },
{
    assert(l.push(x).drop_last() =~= l);
}

/// Mainnet has no tag in its addresses; any other network has its magic.
pub proof fn law_network_tag(magic: u64)
    ensures
        magic == 764_824_073 ==> network_tag(magic) is None,
        magic != 764_824_073 ==> network_tag(magic) == Some(number_bytes(magic)),
{
}

/// The number that bytes stand for, the most significant one first.
pub open spec fn big_endian(b: Seq<u8>) -> nat
    decreases b.len(),
{
    if b.len() == 0 {
        0
    } else {
        big_endian(b.drop_last()) * 256 + b.last() as nat
    }
}

proof fn lemma_big_endian(b: Seq<u8>, x: u8)
    ensures
        big_endian(b.push(x)) == big_endian(b) * 256 + x,
{
    assert(b.push(x).drop_last() =~= b);
}

/// A number in an address stands by itself below 24; otherwise it is behind a
/// byte that tells whether it has one, two, four or eight bytes.
pub proof fn law_number_bytes(n: u64)
    ensures
        ({
            let b = number_bytes(n);
            &&& n < 24 ==> b == seq![n as u8]
            &&& 24 <= n < 0x100 ==> b.len() == 2 && b[0] == 0x18
            &&& 0x100 <= n < 0x1_0000 ==> b.len() == 3 && b[0] == 0x19
            &&& 0x1_0000 <= n < 0x1_0000_0000 ==> b.len() == 5 && b[0] == 0x1a
            &&& n >= 0x1_0000_0000 ==> b.len() == 9 && b[0] == 0x1b
            &&& n >= 24 ==> big_endian(b.skip(1)) == n
        }),
{
    if n >= 0x1_0000_0000 {
        lemma_eight_bytes(n);
    } else if n >= 24 {
        let s = number_bytes(n).skip(1);
        let e = Seq::<u8>::empty();
        assert(big_endian(e) == 0);
        lemma_big_endian(e, s[0]);
        let s1 = e.push(s[0]);
        if n < 0x100 {
            assert(s =~= s1);
        } else {
            lemma_big_endian(s1, s[1]);
            let s2 = s1.push(s[1]);
            if n < 0x1_0000 {
                assert(s =~= s2);
            } else {
                lemma_big_endian(s2, s[2]);
                let s3 = s2.push(s[2]);
                lemma_big_endian(s3, s[3]);
                assert(s =~= s3.push(s[3]));
                assert(big_endian(s2) == n / 0x1_0000);
                assert(big_endian(s3) == n / 0x100);
            }
        }
    }
}

proof fn lemma_shift(n: int, small: int, large: int)
    requires
        n >= 0,
        small > 0,
        large == small * 256,
    ensures
        n / small == (n / large) * 256 + (n / small) % 256,
{
    vstd::arithmetic::div_mod::lemma_div_denominator(n, small, 256);
    vstd::arithmetic::div_mod::lemma_fundamental_div_mod(n / small, 256);
}

proof fn lemma_eight_bytes(n: u64)
    requires
        n >= 0x1_0000_0000,
    ensures
        big_endian(number_bytes(n).skip(1)) == n,
{
    let s = number_bytes(n).skip(1);
    let e = Seq::<u8>::empty();
    let m = n as int;
    assert(big_endian(e) == 0);
    let s1 = e.push(s[0]);
    let s2 = s1.push(s[1]);
    let s3 = s2.push(s[2]);
    let s4 = s3.push(s[3]);
    let s5 = s4.push(s[4]);
    let s6 = s5.push(s[5]);
    let s7 = s6.push(s[6]);
    assert(s =~= s7.push(s[7]));
    lemma_big_endian(e, s[0]);
    assert(big_endian(s1) == m / 0x100_0000_0000_0000);
    lemma_big_endian(s1, s[1]);
    lemma_shift(m, 0x1_0000_0000_0000, 0x100_0000_0000_0000);
    assert(big_endian(s2) == m / 0x1_0000_0000_0000);
    lemma_big_endian(s2, s[2]);
    lemma_shift(m, 0x100_0000_0000, 0x1_0000_0000_0000);
    assert(big_endian(s3) == m / 0x100_0000_0000);
    lemma_big_endian(s3, s[3]);
    lemma_shift(m, 0x1_0000_0000, 0x100_0000_0000);
    assert(big_endian(s4) == m / 0x1_0000_0000);
    lemma_big_endian(s4, s[4]);
    lemma_shift(m, 0x100_0000, 0x1_0000_0000);
    assert(big_endian(s5) == m / 0x100_0000);
    lemma_big_endian(s5, s[5]);
    lemma_shift(m, 0x1_0000, 0x100_0000);
    assert(big_endian(s6) == m / 0x1_0000);
    lemma_big_endian(s6, s[6]);
    lemma_shift(m, 0x100, 0x1_0000);
    assert(big_endian(s7) == m / 0x100);
    lemma_big_endian(s7, s[7]);
    lemma_shift(m, 1, 0x100);
}

/// The bytes of a number stand for it, without a zero before them.
pub proof fn law_bytes_of_number(n: nat)
    ensures
        big_endian(bytes_of_number(n)) == n,
        n > 0 ==> bytes_of_number(n).len() > 0 && bytes_of_number(n)[0] != 0,
    decreases n,
{
    if n > 0 {
        law_bytes_of_number(n / 256);
        lemma_big_endian(bytes_of_number(n / 256), (n % 256) as u8);
        if n / 256 == 0 {
            assert(bytes_of_number(0).len() == 0);
        }
    }
}

/// Base58 text stands for its number in base 58, behind a zero for each one
/// that it starts with.
pub proof fn law_base58(s: Seq<char>, c: char)
    ensures
        base58_number(Seq::empty()) == 0,
        base58_digit(c) matches Some(d) ==> base58_number(s.push(c)) == base58_number(s) * 58 + d,
        base58_bytes(s).len() >= leading_ones(s),
        big_endian(base58_bytes(s).skip(leading_ones(s) as int)) == base58_number(s),
        s.len() > 0 && s[0] == '1' ==> leading_ones(s) == leading_ones(s.skip(1)) + 1,
        s.len() == 0 || s[0] != '1' ==> leading_ones(s) == 0,
{
    assert(s.push(c).drop_last() =~= s);
    law_bytes_of_number(base58_number(s));
    assert(base58_bytes(s).skip(leading_ones(s) as int) =~= bytes_of_number(base58_number(s)));
}

/// The key of a voucher: four base64 digits make three bytes, and the last
/// three make two.
pub proof fn law_voucher_key(text: Seq<char>, g: int)
    requires
        voucher_key(text) is Some,
        0 <= g < 10,
    ensures
        ({
            let k = voucher_key(text)->0;
            let s = if text.len() == 44 { text.take(43) } else { text };
            let d = |i: int| base64_digit(s[i])->0 as int;
            &&& k.len() == 32
            &&& k[3 * g] * 0x1_0000 + k[3 * g + 1] * 0x100 + k[3 * g + 2] == d(4 * g) * 0x4_0000 + d(4 * g + 1) * 0x1000
                + d(4 * g + 2) * 0x40 + d(4 * g + 3)
            &&& 4 * (k[30] * 0x100 + k[31]) == d(40) * 0x1000 + d(41) * 0x40 + d(42)
        }),
{
    let s = unpadded(text);
    let ds = base64_digits(s);
    let k = voucher_key(text)->0;
    assert forall|i: int| 0 <= i < 43 implies (#[trigger] ds[i]) < 64 by {
        assert(base64_digit(s[i]) is Some);
    }
    assert((3 * g) / 3 == g && (3 * g) % 3 == 0 && (3 * g + 1) / 3 == g && (3 * g + 1) % 3 == 1 && (3 * g + 2) / 3 == g
        && (3 * g + 2) % 3 == 2);
    assert(k[3 * g] == base64_byte(ds, 3 * g));
    assert(k[3 * g + 1] == base64_byte(ds, 3 * g + 1));
    assert(k[3 * g + 2] == base64_byte(ds, 3 * g + 2));
    assert(k[30] == base64_byte(ds, 30));
    assert(k[31] == base64_byte(ds, 31));
    assert(ds[4 * g] < 64 && ds[4 * g + 1] < 64 && ds[4 * g + 2] < 64 && ds[4 * g + 3] < 64);
    assert(ds[40] < 64 && ds[41] < 64 && ds[42] < 64);
}

/// The digits of both base64 alphabets in order.
pub proof fn law_base64_digits(c: char)
    ensures
        'A' <= c <= 'Z' ==> base64_digit(c) == Some((c as int - 'A' as int) as u8),
        'a' <= c <= 'z' ==> base64_digit(c) == Some((26 + c as int - 'a' as int) as u8),
        '0' <= c <= '9' ==> base64_digit(c) == Some((52 + c as int - '0' as int) as u8),
        c == '+' || c == '-' ==> base64_digit(c) == Some(62u8),
        c == '/' || c == '_' ==> base64_digit(c) == Some(63u8),
{
}

} // verus!
