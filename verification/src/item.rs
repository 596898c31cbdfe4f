//! Values with a mathematical model, and keys with a total order.

use vstd::prelude::*;
use crate::text::chars_of;

verus! {

/// A value that contracts speak of through its model. Two values with equal
/// models are interchangeable; `dup` makes a second one.
pub trait Item: Sized {
    type M;

    spec fn model(&self) -> Self::M;

    fn dup(&self) -> (r: Self)
        ensures
            r.model() == self.model(),
    ;
}

/// How one key stands to another.
#[derive(Clone, Copy, PartialEq, Eq, Structural)]
pub enum Rank {
    Before,
    Same,
    After,
}

/// Lexicographic order on sequences of integers; a proper prefix comes first.
pub open spec fn lex_lt(a: Seq<int>, b: Seq<int>) -> bool
    decreases a.len(),
{
    if b.len() == 0 {
        false
    } else if a.len() == 0 {
        true
    } else {
        a[0] < b[0] || (a[0] == b[0] && lex_lt(a.drop_first(), b.drop_first()))
    }
}

pub proof fn lemma_lex_irreflexive(a: Seq<int>)
    ensures
        !lex_lt(a, a),
    decreases a.len(),
{
    if a.len() > 0 {
        lemma_lex_irreflexive(a.drop_first());
    }
}

pub proof fn lemma_lex_transitive(a: Seq<int>, b: Seq<int>, c: Seq<int>)
    requires
        lex_lt(a, b),
        lex_lt(b, c),
    ensures
        lex_lt(a, c),
    decreases a.len(),
{
    if a.len() > 0 && a[0] == b[0] && b[0] == c[0] {
        lemma_lex_transitive(a.drop_first(), b.drop_first(), c.drop_first());
    }
}

pub proof fn lemma_lex_total(a: Seq<int>, b: Seq<int>)
    ensures
        a == b || lex_lt(a, b) || lex_lt(b, a),
    decreases a.len(),
{
    if a.len() == 0 || b.len() == 0 {
        if a.len() == 0 && b.len() == 0 {
            assert(a =~= b);
        }
    } else if a[0] == b[0] {
        lemma_lex_total(a.drop_first(), b.drop_first());
        if a.drop_first() == b.drop_first() {
            assert(a =~= seq![a[0]] + a.drop_first());
            assert(b =~= seq![b[0]] + b.drop_first());
        }
    }
}

/// A common prefix does not change the order.
pub proof fn lemma_lex_skip(a: Seq<int>, b: Seq<int>, n: int)
    requires
        0 <= n <= a.len(),
        n <= b.len(),
        a.take(n) == b.take(n),
    ensures
        lex_lt(a, b) == lex_lt(a.skip(n), b.skip(n)),
    decreases n,
{
    if n == 0 {
        assert(a.skip(0) =~= a);
        assert(b.skip(0) =~= b);
    } else {
        assert(a[0] == a.take(n)[0]);
        assert(b[0] == b.take(n)[0]);
        assert(a.drop_first().take(n - 1) =~= a.take(n).drop_first());
        assert(b.drop_first().take(n - 1) =~= b.take(n).drop_first());
        lemma_lex_skip(a.drop_first(), b.drop_first(), n - 1);
        assert(a.drop_first().skip(n - 1) =~= a.skip(n));
        assert(b.drop_first().skip(n - 1) =~= b.skip(n));
    }
}

/// Where two sequences first differ decides their order.
pub proof fn lemma_lex_differ(a: Seq<int>, b: Seq<int>, n: int)
    requires
        0 <= n < a.len(),
        n < b.len(),
        a.take(n) == b.take(n),
        a[n] != b[n],
    ensures
        lex_lt(a, b) == (a[n] < b[n]),
        lex_lt(b, a) == (b[n] < a[n]),
{
    lemma_lex_skip(a, b, n);
    lemma_lex_skip(b, a, n);
}

/// An item that can be a key: its model has a code that tells it apart from
/// every other model, and codes are ordered lexicographically.
pub trait Key: Item {
    spec fn code(m: Self::M) -> Seq<int>;

    proof fn code_injective(a: Self::M, b: Self::M)
        requires
            Self::code(a) == Self::code(b),
        ensures
            a == b,
    ;

    fn rank(&self, other: &Self) -> (r: Rank)
        ensures
            r == Rank::Same <==> self.model() == other.model(),
            r == Rank::Before <==> lex_lt(Self::code(self.model()), Self::code(other.model())),
            r == Rank::After <==> lex_lt(Self::code(other.model()), Self::code(self.model())),
    ;
}

/// The numbers that a sequence of bytes holds.
pub open spec fn byte_code(s: Seq<u8>) -> Seq<int> {
    Seq::new(s.len(), |i: int| s[i] as int)
}

pub proof fn lemma_byte_code_injective(a: Seq<u8>, b: Seq<u8>)
    requires
        byte_code(a) == byte_code(b),
    ensures
        a == b,
{
    assert(a.len() == byte_code(a).len());
    assert(b.len() == byte_code(b).len());
    assert forall|i: int| 0 <= i < a.len() implies a[i] == b[i] by {
        assert(byte_code(a)[i] == a[i] as int);
        assert(byte_code(b)[i] == b[i] as int);
    }
    assert(a =~= b);
}

/// Compares two byte strings lexicographically.
pub fn rank_bytes(a: &[u8], b: &[u8]) -> (r: Rank)
    ensures
        r == Rank::Same <==> a@ == b@,
        r == Rank::Before <==> lex_lt(byte_code(a@), byte_code(b@)),
        r == Rank::After <==> lex_lt(byte_code(b@), byte_code(a@)),
{
    let mut i: usize = 0;
    let ghost ca = byte_code(a@);
    let ghost cb = byte_code(b@);
    while i < a.len() && i < b.len()
        invariant
            i <= a.len(),
            i <= b.len(),
            ca == byte_code(a@),
            cb == byte_code(b@),
            forall|j: int| 0 <= j < i ==> a@[j] == b@[j],
        decreases a.len() - i,
    {
        if a[i] != b[i] {
            proof {
                assert(ca.take(i as int) =~= cb.take(i as int));
                lemma_lex_differ(ca, cb, i as int);
                assert(a@ != b@);
            }
            if a[i] < b[i] {
                return Rank::Before;
            }
            return Rank::After;
        }
        i += 1;
    }
    proof {
        assert(ca.take(i as int) =~= cb.take(i as int));
        lemma_lex_skip(ca, cb, i as int);
        lemma_lex_skip(cb, ca, i as int);
        lemma_lex_irreflexive(ca);
    }
    if a.len() == b.len() {
        assert(a@ =~= b@);
        Rank::Same
    } else if i == a.len() {
        Rank::Before
    } else {
        Rank::After
    }
}

/// Whether two byte strings hold the same bytes.
pub fn same_bytes(a: &[u8], b: &[u8]) -> (r: bool)
    ensures
        r == (a@ == b@),
{
    match rank_bytes(a, b) {
        Rank::Same => true,
        _ => false,
    }
}

impl Item for () {
    type M = ();

    open spec fn model(&self) -> () {
        ()
    }

    fn dup(&self) -> (r: Self) {
        ()
    }
}

impl Item for u64 {
    type M = u64;

    open spec fn model(&self) -> u64 {
        *self
    }

    fn dup(&self) -> (r: Self) {
        *self
    }
}

impl<const N: usize> Item for [u8; N] {
    type M = [u8; N];

    open spec fn model(&self) -> [u8; N] {
        *self
    }

    fn dup(&self) -> (r: Self) {
        *self
    }
}

impl<const N: usize> Key for [u8; N] {
    open spec fn code(m: [u8; N]) -> Seq<int> {
        byte_code(m@)
    }

    proof fn code_injective(a: [u8; N], b: [u8; N]) {
        lemma_byte_code_injective(a@, b@);
        assert(a =~= b);
    }

    fn rank(&self, other: &Self) -> (r: Rank) {
        proof {
            if self@ == other@ {
                assert(*self =~= *other);
            }
        }
        rank_bytes(self.as_slice(), other.as_slice())
    }
}

impl Item for Vec<u8> {
    type M = Seq<u8>;

    open spec fn model(&self) -> Seq<u8> {
        self@
    }

    fn dup(&self) -> (r: Self) {
        let r = self.clone();
        assert(r@ =~= self@);
        assert(r.model() == self.model());
        r
    }
}

impl Item for Vec<i64> {
    type M = Seq<i64>;

    open spec fn model(&self) -> Seq<i64> {
        self@
    }

    fn dup(&self) -> (r: Self) {
        let r = self.clone();
        assert(r@ =~= self@);
        assert(r.model() == self.model());
        r
    }
}

impl Key for Vec<u8> {
    open spec fn code(m: Seq<u8>) -> Seq<int> {
        byte_code(m)
    }

    proof fn code_injective(a: Seq<u8>, b: Seq<u8>) {
        lemma_byte_code_injective(a, b);
    }

    fn rank(&self, other: &Self) -> (r: Rank) {
        rank_bytes(self.as_slice(), other.as_slice())
    }
}

/// The numbers that a text holds.
pub open spec fn char_code(s: Seq<char>) -> Seq<int> {
    Seq::new(s.len(), |i: int| s[i] as int)
}

/// Compares two texts by their characters.
fn rank_chars(a: &Vec<char>, b: &Vec<char>) -> (r: Rank)
    ensures
        r == Rank::Same <==> a@ == b@,
        r == Rank::Before <==> lex_lt(char_code(a@), char_code(b@)),
        r == Rank::After <==> lex_lt(char_code(b@), char_code(a@)),
{
    let mut i: usize = 0;
    let ghost ca = char_code(a@);
    let ghost cb = char_code(b@);
    while i < a.len() && i < b.len()
        invariant
            i <= a.len(),
            i <= b.len(),
            ca == char_code(a@),
            cb == char_code(b@),
            forall|j: int| 0 <= j < i ==> a@[j] == b@[j],
        decreases a.len() - i,
    {
        if a[i] != b[i] {
            proof {
                assert(ca.take(i as int) =~= cb.take(i as int));
                lemma_lex_differ(ca, cb, i as int);
                assert(a@ != b@);
            }
            if a[i] < b[i] {
                return Rank::Before;
            }
            return Rank::After;
        }
        i += 1;
    }
    proof {
        assert(ca.take(i as int) =~= cb.take(i as int));
        lemma_lex_skip(ca, cb, i as int);
        lemma_lex_skip(cb, ca, i as int);
        lemma_lex_irreflexive(ca);
    }
    if a.len() == b.len() {
        assert(a@ =~= b@);
        Rank::Same
    } else if i == a.len() {
        Rank::Before
    } else {
        Rank::After
    }
}

impl Item for String {
    type M = Seq<char>;

    open spec fn model(&self) -> Seq<char> {
        self@
    }

    fn dup(&self) -> (r: Self) {
        let r = self.as_str().to_string();
        assert(r.model() == self.model());
        r
    }
}

impl Key for String {
    open spec fn code(m: Seq<char>) -> Seq<int> {
        char_code(m)
    }

    proof fn code_injective(a: Seq<char>, b: Seq<char>) {
        assert(a.len() == char_code(a).len());
        assert(b.len() == char_code(b).len());
        assert forall|i: int| 0 <= i < a.len() implies a[i] == b[i] by {
            assert(char_code(a)[i] == a[i] as int);
            assert(char_code(b)[i] == b[i] as int);
        }
        assert(a =~= b);
    }

    fn rank(&self, other: &Self) -> (r: Rank) {
        rank_chars(&chars_of(self.as_str()), &chars_of(other.as_str()))
    }
}

} // verus!
