//! Sums over finite maps and sequences.

use vstd::prelude::*;

verus! {

/// What is the smaller of an amount and the largest `u64`.
pub open spec fn clamp(x: int) -> u64 {
    if x < 0 {
        0u64
    } else if x > u64::MAX {
        u64::MAX
    } else {
        x as u64
    }
}

/// The sum of `f` over the entries of a finite map.
pub open spec fn map_sum<K, V>(m: Map<K, V>, f: spec_fn(K, V) -> nat) -> nat
    decreases m.dom().len(),
{
    if m.dom().finite() && m.dom().len() > 0 {
        let k = m.dom().choose();
        if m.dom().contains(k) {
            f(k, m[k]) + map_sum(m.remove(k), f)
        } else {
            0
        }
    } else {
        0
    }
}

/// The sum of `f` over a sequence of pairs.
pub open spec fn seq_sum<K, V>(s: Seq<(K, V)>, f: spec_fn(K, V) -> nat) -> nat
    decreases s.len(),
{
    if s.len() == 0 {
        0
    } else {
        seq_sum(s.drop_last(), f) + f(s.last().0, s.last().1)
    }
}

/// The map that a sequence of pairs with distinct keys stands for.
pub open spec fn pairs_map<K, V>(s: Seq<(K, V)>) -> Map<K, V>
    decreases s.len(),
{
    if s.len() == 0 {
        Map::empty()
    } else {
        pairs_map(s.drop_last()).insert(s.last().0, s.last().1)
    }
}

pub open spec fn distinct_keys<K, V>(s: Seq<(K, V)>) -> bool {
    forall|i: int, j: int| #![trigger s[i], s[j]] 0 <= i < j < s.len() ==> s[i].0 != s[j].0
}

/// A sum may be taken apart at any key of the map.
pub proof fn lemma_sum_remove<K, V>(m: Map<K, V>, f: spec_fn(K, V) -> nat, k: K)
    requires
        m.dom().finite(),
        m.dom().contains(k),
    ensures
        map_sum(m, f) == f(k, m[k]) + map_sum(m.remove(k), f),
    decreases m.dom().len(),
{
    let c = m.dom().choose();
    assert(m.dom().len() > 0) by {
        if m.dom().len() == 0 {
            assert(m.dom() =~= Set::empty());
        }
    }
    assert(m.dom().contains(c));
    if c != k {
        assert(m.remove(c).dom() =~= m.dom().remove(c));
        assert(m.remove(k).dom() =~= m.dom().remove(k));
        lemma_sum_remove(m.remove(c), f, k);
        lemma_sum_remove(m.remove(k), f, c);
        assert(m.remove(c).remove(k) =~= m.remove(k).remove(c));
    }
}

pub proof fn lemma_sum_empty<K, V>(f: spec_fn(K, V) -> nat)
    ensures
        map_sum(Map::<K, V>::empty(), f) == 0,
{
    assert(Map::<K, V>::empty().dom() =~= Set::<K>::empty());
}

/// Inserting an entry adds its amount and takes away what the key had before.
pub proof fn lemma_sum_insert<K, V>(m: Map<K, V>, f: spec_fn(K, V) -> nat, k: K, v: V)
    requires
        m.dom().finite(),
    ensures
        map_sum(m.insert(k, v), f) == f(k, v) + map_sum(m.remove(k), f),
        !m.dom().contains(k) ==> map_sum(m.insert(k, v), f) == f(k, v) + map_sum(m, f),
        m.dom().contains(k) ==> map_sum(m.insert(k, v), f) + f(k, m[k]) == f(k, v) + map_sum(m, f),
{
    assert(m.insert(k, v).dom() =~= m.dom().insert(k));
    lemma_sum_remove(m.insert(k, v), f, k);
    assert(m.insert(k, v).remove(k) =~= m.remove(k));
    if m.dom().contains(k) {
        lemma_sum_remove(m, f, k);
    } else {
        assert(m.remove(k) =~= m);
    }
}

pub proof fn lemma_sum_same<K, V>(m: Map<K, V>, f: spec_fn(K, V) -> nat, g: spec_fn(K, V) -> nat)
    requires
        forall|k: K| #[trigger] m.dom().contains(k) ==> f(k, m[k]) == g(k, m[k]),
    ensures
        map_sum(m, f) == map_sum(m, g),
    decreases m.dom().len(),
{
    if m.dom().finite() && m.dom().len() > 0 {
        let c = m.dom().choose();
        if m.dom().contains(c) {
            assert(m.remove(c).dom() =~= m.dom().remove(c));
            assert forall|k: K| #[trigger] m.remove(c).dom().contains(k) implies f(k, m.remove(c)[k]) == g(
                k,
                m.remove(c)[k],
            ) by {
                assert(m.dom().contains(k));
            }
            lemma_sum_same(m.remove(c), f, g);
        }
    }
}

pub proof fn lemma_sum_le<K, V>(m: Map<K, V>, f: spec_fn(K, V) -> nat, g: spec_fn(K, V) -> nat)
    requires
        forall|k: K| #[trigger] m.dom().contains(k) ==> f(k, m[k]) <= g(k, m[k]),
    ensures
        map_sum(m, f) <= map_sum(m, g),
    decreases m.dom().len(),
{
    if m.dom().finite() && m.dom().len() > 0 {
        let c = m.dom().choose();
        if m.dom().contains(c) {
            assert(m.remove(c).dom() =~= m.dom().remove(c));
            assert forall|k: K| #[trigger] m.remove(c).dom().contains(k) implies f(k, m.remove(c)[k]) <= g(
                k,
                m.remove(c)[k],
            ) by {
                assert(m.dom().contains(k));
            }
            lemma_sum_le(m.remove(c), f, g);
        }
    }
}

pub proof fn lemma_sum_add<K, V>(m: Map<K, V>, f: spec_fn(K, V) -> nat, g: spec_fn(K, V) -> nat)
    ensures
        map_sum(m, |k: K, v: V| f(k, v) + g(k, v)) == map_sum(m, f) + map_sum(m, g),
    decreases m.dom().len(),
{
    if m.dom().finite() && m.dom().len() > 0 {
        let c = m.dom().choose();
        if m.dom().contains(c) {
            assert(m.remove(c).dom() =~= m.dom().remove(c));
            lemma_sum_add(m.remove(c), f, g);
        }
    }
}

/// Terms that are bounded when scaled have a sum that is bounded so.
pub proof fn lemma_sum_scaled<K, V>(m: Map<K, V>, f: spec_fn(K, V) -> nat, g: spec_fn(K, V) -> nat, c: nat, d: nat)
    requires
        forall|k: K| #[trigger] m.dom().contains(k) ==> f(k, m[k]) * c <= d * g(k, m[k]),
    ensures
        map_sum(m, f) * c <= d * map_sum(m, g),
    decreases m.dom().len(),
{
    if m.dom().finite() && m.dom().len() > 0 {
        let k0 = m.dom().choose();
        if m.dom().contains(k0) {
            let r = m.remove(k0);
            assert(r.dom() =~= m.dom().remove(k0));
            assert forall|k: K| #[trigger] r.dom().contains(k) implies f(k, r[k]) * c <= d * g(k, r[k]) by {
                assert(m.dom().contains(k));
            }
            lemma_sum_scaled(r, f, g, c, d);
            let (x, y, u, v) = (f(k0, m[k0]), g(k0, m[k0]), map_sum(r, f), map_sum(r, g));
            assert((x + u) * c == x * c + u * c && d * (y + v) == d * y + d * v) by (nonlinear_arith);
        } else {
            assert(0 * c <= d * 0) by (nonlinear_arith);
        }
    } else {
        assert(0 * c <= d * 0) by (nonlinear_arith);
    }
}

/// Sums over two maps are equal where the terms of common keys are, and the
/// terms of other keys are zero.
pub proof fn lemma_sum_across<K, V, W>(a: Map<K, V>, b: Map<K, W>, f: spec_fn(K, V) -> nat, g: spec_fn(K, W) -> nat)
    requires
        a.dom().finite(),
        b.dom().finite(),
        forall|k: K| a.dom().contains(k) && #[trigger] b.dom().contains(k) ==> f(k, a[k]) == g(k, b[k]),
        forall|k: K| #[trigger] a.dom().contains(k) && !b.dom().contains(k) ==> f(k, a[k]) == 0,
        forall|k: K| #[trigger] b.dom().contains(k) && !a.dom().contains(k) ==> g(k, b[k]) == 0,
    ensures
        map_sum(a, f) == map_sum(b, g),
    decreases a.dom().len() + b.dom().len(),
{
    if a.dom().len() > 0 {
        let k = a.dom().choose();
        assert(a.dom().contains(k)) by {
            if !a.dom().contains(k) {
                assert(a.dom() =~= Set::empty());
            }
        }
        let x = a.remove(k);
        assert(x.dom() =~= a.dom().remove(k));
        lemma_sum_remove(a, f, k);
        let y = b.remove(k);
        assert(y.dom() =~= b.dom().remove(k));
        if b.dom().contains(k) {
            lemma_sum_remove(b, g, k);
        } else {
            assert(y =~= b);
        }
        assert forall|q: K| x.dom().contains(q) && #[trigger] y.dom().contains(q) implies f(q, x[q]) == g(q, y[q]) by {
            assert(a.dom().contains(q) && b.dom().contains(q));
        }
        assert forall|q: K| #[trigger] x.dom().contains(q) && !y.dom().contains(q) implies f(q, x[q]) == 0 by {
            assert(a.dom().contains(q) && !b.dom().contains(q));
        }
        assert forall|q: K| #[trigger] y.dom().contains(q) && !x.dom().contains(q) implies g(q, y[q]) == 0 by {
            assert(b.dom().contains(q) && !a.dom().contains(q));
        }
        lemma_sum_across(x, y, f, g);
    } else if b.dom().len() > 0 {
        assert(a.dom() =~= Set::empty());
        let k = b.dom().choose();
        assert(b.dom().contains(k)) by {
            if !b.dom().contains(k) {
                assert(b.dom() =~= Set::empty());
            }
        }
        let y = b.remove(k);
        assert(y.dom() =~= b.dom().remove(k));
        lemma_sum_remove(b, g, k);
        assert forall|q: K| #[trigger] y.dom().contains(q) && !a.dom().contains(q) implies g(q, y[q]) == 0 by {
            assert(b.dom().contains(q) && !a.dom().contains(q));
        }
        lemma_sum_across(a, y, f, g);
    }
}

pub proof fn lemma_pairs_map<K, V>(s: Seq<(K, V)>)
    requires
        distinct_keys(s),
    ensures
        pairs_map(s).dom().finite(),
        pairs_map(s).dom().len() == s.len(),
        forall|i: int| #![trigger s[i]] 0 <= i < s.len() ==> pairs_map(s).dom().contains(s[i].0) && pairs_map(s)[s[i].0] == s[i].1,
        forall|k: K| #[trigger] pairs_map(s).dom().contains(k) ==> exists|i: int| #![trigger s[i]] 0 <= i < s.len() && s[i].0 == k,
    decreases s.len(),
{
    if s.len() == 0 {
        assert(pairs_map(s).dom() =~= Set::<K>::empty());
    } else {
        let t = s.drop_last();
        assert(distinct_keys(t)) by {
            assert forall|i: int, j: int| #![trigger t[i], t[j]] 0 <= i < j < t.len() implies t[i].0 != t[j].0 by {
                assert(s[i] == t[i] && s[j] == t[j]);
            }
        }
        lemma_pairs_map(t);
        assert(pairs_map(s).dom() =~= pairs_map(t).dom().insert(s.last().0));
        assert(!pairs_map(t).dom().contains(s.last().0)) by {
            if pairs_map(t).dom().contains(s.last().0) {
                let i = choose|i: int| #![trigger t[i]] 0 <= i < t.len() && t[i].0 == s.last().0;
                assert(s[i] == t[i]);
                assert(s[s.len() - 1] == s.last());
            }
        }
        assert forall|i: int| #![trigger s[i]] 0 <= i < s.len() implies pairs_map(s).dom().contains(s[i].0) && pairs_map(s)[s[i].0] == s[i].1 by {
            if i < t.len() {
                assert(t[i] == s[i]);
                assert(s[s.len() - 1] == s.last());
            }
        }
        assert forall|k: K| #[trigger] pairs_map(s).dom().contains(k) implies exists|i: int| #![trigger s[i]] 0 <= i < s.len() && s[i].0 == k by {
            if k == s.last().0 {
                assert(s[s.len() - 1].0 == k);
            } else {
                let i = choose|i: int| #![trigger t[i]] 0 <= i < t.len() && t[i].0 == k;
                assert(s[i] == t[i]);
            }
        }
    }
}

/// Adding up the entries one by one gives the sum over the map.
pub proof fn lemma_pairs_sum<K, V>(s: Seq<(K, V)>, f: spec_fn(K, V) -> nat)
    requires
        distinct_keys(s),
    ensures
        map_sum(pairs_map(s), f) == seq_sum(s, f),
    decreases s.len(),
{
    if s.len() == 0 {
        lemma_sum_empty::<K, V>(f);
    } else {
        let t = s.drop_last();
        assert(distinct_keys(t)) by {
            assert forall|i: int, j: int| #![trigger t[i], t[j]] 0 <= i < j < t.len() implies t[i].0 != t[j].0 by {
                assert(s[i] == t[i] && s[j] == t[j]);
            }
        }
        lemma_pairs_sum(t, f);
        lemma_pairs_map(t);
        assert(!pairs_map(t).dom().contains(s.last().0)) by {
            if pairs_map(t).dom().contains(s.last().0) {
                let i = choose|i: int| #![trigger t[i]] 0 <= i < t.len() && t[i].0 == s.last().0;
                assert(s[i] == t[i]);
                assert(s[s.len() - 1] == s.last());
            }
        }
        lemma_sum_insert(pairs_map(t), f, s.last().0, s.last().1);
    }
}

/// The sum over a prefix never exceeds the whole, and grows by one entry at a time.
pub proof fn lemma_seq_sum_step<K, V>(s: Seq<(K, V)>, f: spec_fn(K, V) -> nat, i: int)
    requires
        0 <= i < s.len(),
    ensures
        seq_sum(s.take(i + 1), f) == seq_sum(s.take(i), f) + f(s[i].0, s[i].1),
{
    assert(s.take(i + 1).drop_last() =~= s.take(i));
}

pub proof fn lemma_seq_sum_prefix<K, V>(s: Seq<(K, V)>, f: spec_fn(K, V) -> nat, i: int)
    requires
        0 <= i <= s.len(),
    ensures
        seq_sum(s.take(i), f) <= seq_sum(s, f),
    decreases s.len() - i,
{
    if i == s.len() {
        assert(s.take(i) =~= s);
    } else {
        lemma_seq_sum_step(s, f, i);
        lemma_seq_sum_prefix(s, f, i + 1);
    }
}

/// The map of a prefix grows by one entry at a time, with a new key.
pub proof fn lemma_pairs_step<K, V>(s: Seq<(K, V)>, i: int)
    requires
        0 <= i < s.len(),
        distinct_keys(s),
    ensures
        pairs_map(s.take(i + 1)) == pairs_map(s.take(i)).insert(s[i].0, s[i].1),
        !pairs_map(s.take(i)).dom().contains(s[i].0),
{
    let t = s.take(i);
    assert(s.take(i + 1).drop_last() =~= t);
    assert(distinct_keys(t)) by {
        assert forall|a: int, b: int| #![trigger t[a], t[b]] 0 <= a < b < t.len() implies t[a].0 != t[b].0 by {
            assert(s[a] == t[a] && s[b] == t[b]);
        }
    }
    lemma_pairs_map(t);
    if pairs_map(t).dom().contains(s[i].0) {
        let j = choose|j: int| #![trigger t[j]] 0 <= j < t.len() && t[j].0 == s[i].0;
        assert(s[j] == t[j]);
    }
}

} // verus!
