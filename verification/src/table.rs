//! Ordered maps and sets, kept as a vector that is sorted by key.

use vstd::prelude::*;
use crate::item::{lemma_lex_irreflexive, lemma_lex_total, lemma_lex_transitive, lex_lt, Item, Key, Rank};
use crate::sums::{distinct_keys, lemma_pairs_map, lemma_pairs_sum, map_sum, pairs_map, seq_sum};

verus! {

/// The models of a vector of pairs.
pub open spec fn pair_models<K: Item, V: Item>(s: Seq<(K, V)>) -> Seq<(K::M, V::M)> {
    Seq::new(s.len(), |i: int| (s[i].0.model(), s[i].1.model()))
}

/// The keys stand in strictly ascending order.
pub open spec fn ascending<K: Key, V>(s: Seq<(K::M, V)>) -> bool {
    forall|i: int, j: int|
        #![trigger s[i], s[j]]
        0 <= i < j < s.len() ==> lex_lt(K::code(s[i].0), K::code(s[j].0))
}

pub proof fn lemma_ascending_distinct<K: Key, V>(s: Seq<(K::M, V)>)
    requires
        ascending::<K, V>(s),
    ensures
        distinct_keys(s),
{
    assert forall|i: int, j: int| #![trigger s[i], s[j]] 0 <= i < j < s.len() implies s[i].0 != s[j].0 by {
        lemma_lex_irreflexive(K::code(s[i].0));
    }
}

/// A map has one listing in ascending order.
pub proof fn lemma_listing_unique<K: Key, V>(s: Seq<(K::M, V)>, t: Seq<(K::M, V)>)
    requires
        ascending::<K, V>(s),
        ascending::<K, V>(t),
        pairs_map(s) == pairs_map(t),
    ensures
        s == t,
    decreases s.len(),
{
    lemma_ascending_distinct::<K, V>(s);
    lemma_ascending_distinct::<K, V>(t);
    lemma_pairs_map(s);
    lemma_pairs_map(t);
    if s.len() == 0 {
        assert(s =~= t);
    } else {
        let a = s.last();
        let b = t.last();
        assert(s[s.len() - 1] == a);
        assert(t[t.len() - 1] == b);
        // the last key of each listing occurs in the other one
        assert(pairs_map(t).dom().contains(a.0));
        assert(pairs_map(s).dom().contains(b.0));
        let j = choose|j: int| #![trigger t[j]] 0 <= j < t.len() && t[j].0 == a.0;
        let i = choose|i: int| #![trigger s[i]] 0 <= i < s.len() && s[i].0 == b.0;
        if a.0 != b.0 {
            assert(lex_lt(K::code(t[j].0), K::code(b.0)));
            assert(lex_lt(K::code(s[i].0), K::code(a.0)));
            lemma_lex_transitive(K::code(a.0), K::code(b.0), K::code(a.0));
            lemma_lex_irreflexive(K::code(a.0));
        }
        assert(a.1 == pairs_map(s)[a.0]);
        assert(b.1 == pairs_map(t)[b.0]);
        let s1 = s.drop_last();
        let t1 = t.drop_last();
        assert(ascending::<K, V>(s1)) by {
            assert forall|x: int, y: int| #![trigger s1[x], s1[y]] 0 <= x < y < s1.len() implies lex_lt(
                K::code(s1[x].0),
                K::code(s1[y].0),
            ) by {
                assert(s1[x] == s[x] && s1[y] == s[y]);
            }
        }
        assert(ascending::<K, V>(t1)) by {
            assert forall|x: int, y: int| #![trigger t1[x], t1[y]] 0 <= x < y < t1.len() implies lex_lt(
                K::code(t1[x].0),
                K::code(t1[y].0),
            ) by {
                assert(t1[x] == t[x] && t1[y] == t[y]);
            }
        }
        lemma_ascending_distinct::<K, V>(s1);
        lemma_ascending_distinct::<K, V>(t1);
        lemma_pairs_map(s1);
        lemma_pairs_map(t1);
        assert(!pairs_map(s1).dom().contains(a.0)) by {
            if pairs_map(s1).dom().contains(a.0) {
                let x = choose|x: int| #![trigger s1[x]] 0 <= x < s1.len() && s1[x].0 == a.0;
                assert(s[x] == s1[x]);
            }
        }
        assert(!pairs_map(t1).dom().contains(a.0)) by {
            if pairs_map(t1).dom().contains(a.0) {
                let x = choose|x: int| #![trigger t1[x]] 0 <= x < t1.len() && t1[x].0 == a.0;
                assert(t[x] == t1[x]);
            }
        }
        assert(pairs_map(s1) =~= pairs_map(s).remove(a.0));
        assert(pairs_map(t1) =~= pairs_map(t).remove(a.0));
        lemma_listing_unique::<K, V>(s1, t1);
        assert(s =~= s1.push(a));
        assert(t =~= t1.push(b));
    }
}

/// The entries of a map in ascending order of their keys.
pub open spec fn listing<K: Key, V>(m: Map<K::M, V>) -> Seq<(K::M, V)> {
    choose|s: Seq<(K::M, V)>| ascending::<K, V>(s) && #[trigger] pairs_map(s) == m
}

proof fn lemma_place_for<K: Key, V>(s: Seq<(K::M, V)>, k: K::M, v: V) -> (t: Seq<(K::M, V)>)
    requires
        ascending::<K, V>(s),
        !pairs_map(s).dom().contains(k),
    ensures
        ascending::<K, V>(t),
        pairs_map(t) == pairs_map(s).insert(k, v),
    decreases s.len(),
{
    lemma_ascending_distinct::<K, V>(s);
    lemma_pairs_map(s);
    if s.len() == 0 {
        let t = seq![(k, v)];
        assert(t.drop_last() =~= s);
        t
    } else {
        let e = s.last();
        let s1 = s.drop_last();
        assert(s[s.len() - 1] == e);
        assert(ascending::<K, V>(s1)) by {
            assert forall|x: int, y: int| #![trigger s1[x], s1[y]] 0 <= x < y < s1.len() implies lex_lt(
                K::code(s1[x].0),
                K::code(s1[y].0),
            ) by {
                assert(s1[x] == s[x] && s1[y] == s[y]);
            }
        }
        lemma_ascending_distinct::<K, V>(s1);
        lemma_pairs_map(s1);
        assert(pairs_map(s) == pairs_map(s1).insert(e.0, e.1));
        lemma_lex_total(K::code(e.0), K::code(k));
        if K::code(e.0) == K::code(k) {
            K::code_injective(e.0, k);
        }
        if lex_lt(K::code(e.0), K::code(k)) {
            let t = s.push((k, v));
            assert(t.drop_last() =~= s);
            assert(ascending::<K, V>(t)) by {
                assert forall|x: int, y: int| #![trigger t[x], t[y]] 0 <= x < y < t.len() implies lex_lt(
                    K::code(t[x].0),
                    K::code(t[y].0),
                ) by {
                    if y < s.len() {
                        assert(t[x] == s[x] && t[y] == s[y]);
                    } else {
                        assert(t[x] == s[x]);
                        if x < s.len() - 1 {
                            assert(lex_lt(K::code(s[x].0), K::code(s[s.len() - 1].0)));
                            lemma_lex_transitive(K::code(s[x].0), K::code(e.0), K::code(k));
                        }
                    }
                }
            }
            t
        } else {
            let t1 = lemma_place_for::<K, V>(s1, k, v);
            let t = t1.push(e);
            assert(t.drop_last() =~= t1);
            lemma_ascending_distinct::<K, V>(t1);
            lemma_pairs_map(t1);
            assert(ascending::<K, V>(t)) by {
                assert forall|x: int, y: int| #![trigger t[x], t[y]] 0 <= x < y < t.len() implies lex_lt(
                    K::code(t[x].0),
                    K::code(t[y].0),
                ) by {
                    if y < t1.len() {
                        assert(t[x] == t1[x] && t[y] == t1[y]);
                    } else {
                        assert(t[x] == t1[x]);
                        assert(pairs_map(t1).dom().contains(t1[x].0));
                        if t1[x].0 != k {
                            assert(pairs_map(s1).dom().contains(t1[x].0));
                            let j = choose|j: int| #![trigger s1[j]] 0 <= j < s1.len() && s1[j].0 == t1[x].0;
                            assert(s[j] == s1[j]);
                            assert(lex_lt(K::code(s[j].0), K::code(s[s.len() - 1].0)));
                        }
                    }
                }
            }
            assert(pairs_map(t) =~= pairs_map(s).insert(k, v));
            t
        }
    }
}

proof fn lemma_some_listing<K: Key, V>(m: Map<K::M, V>) -> (s: Seq<(K::M, V)>)
    requires
        m.dom().finite(),
    ensures
        ascending::<K, V>(s),
        pairs_map(s) == m,
    decreases m.dom().len(),
{
    if m.dom().len() == 0 {
        let s = Seq::<(K::M, V)>::empty();
        assert(m.dom() =~= Set::empty());
        assert(pairs_map(s) =~= m);
        s
    } else {
        let k = m.dom().choose();
        assert(m.dom().contains(k)) by {
            if !m.dom().contains(k) {
                assert(m.dom() =~= Set::empty());
            }
        }
        let rest = m.remove(k);
        assert(rest.dom() =~= m.dom().remove(k));
        let before = lemma_some_listing::<K, V>(rest);
        let s = lemma_place_for::<K, V>(before, k, m[k]);
        assert(rest.insert(k, m[k]) =~= m);
        s
    }
}

/// Every finite map has a listing.
pub proof fn lemma_listing<K: Key, V>(m: Map<K::M, V>)
    requires
        m.dom().finite(),
    ensures
        ascending::<K, V>(listing::<K, V>(m)),
        pairs_map(listing::<K, V>(m)) == m,
        distinct_keys(listing::<K, V>(m)),
        forall|i: int|
            #![trigger listing::<K, V>(m)[i]]
            0 <= i < listing::<K, V>(m).len() ==> m.dom().contains(listing::<K, V>(m)[i].0)
                && m[listing::<K, V>(m)[i].0] == listing::<K, V>(m)[i].1,
        forall|k: K::M| #[trigger]
            m.dom().contains(k) ==> exists|i: int|
                #![trigger listing::<K, V>(m)[i]]
                0 <= i < listing::<K, V>(m).len() && listing::<K, V>(m)[i].0 == k,
{
    let s = lemma_some_listing::<K, V>(m);
    assert(ascending::<K, V>(s) && pairs_map(s) == m);
    let l = listing::<K, V>(m);
    lemma_ascending_distinct::<K, V>(l);
    lemma_pairs_map(l);
}

/// A map from keys to values.
pub struct Table<K: Key, V: Item> {
    pairs: Vec<(K, V)>,
}

impl<K: Key, V: Item> Table<K, V> {
    /// The entries, in ascending order of their keys.
    pub closed spec fn entries(&self) -> Seq<(K::M, V::M)> {
        pair_models(self.pairs@)
    }

    #[verifier::type_invariant]
    pub closed spec fn wf(&self) -> bool {
        ascending::<K, V::M>(self.entries())
    }

    /// What the map holds.
    pub open spec fn view(&self) -> Map<K::M, V::M> {
        pairs_map(self.entries())
    }

    /// What is known of the entries of a map.
    pub proof fn lemma_entries(&self)
        requires
            self.wf(),
        ensures
            ascending::<K, V::M>(self.entries()),
            distinct_keys(self.entries()),
            self@.dom().finite(),
            self@.dom().len() == self.entries().len(),
            self.entries() == listing::<K, V::M>(self@),
            forall|i: int|
                #![trigger self.entries()[i]]
                0 <= i < self.entries().len() ==> self@.dom().contains(self.entries()[i].0)
                    && self@[self.entries()[i].0] == self.entries()[i].1,
            forall|k: K::M| #[trigger]
                self@.dom().contains(k) ==> exists|i: int|
                    #![trigger self.entries()[i]]
                    0 <= i < self.entries().len() && self.entries()[i].0 == k,
    {
        let s = self.entries();
        lemma_ascending_distinct::<K, V::M>(s);
        lemma_pairs_map(s);
        assert(ascending::<K, V::M>(s) && pairs_map(s) == self@);
        lemma_listing_unique::<K, V::M>(s, listing::<K, V::M>(self@));
    }

    /// Adding up the entries one by one gives the sum over the map.
    pub proof fn lemma_sum(&self, f: spec_fn(K::M, V::M) -> nat)
        requires
            self.wf(),
        ensures
            map_sum(self@, f) == seq_sum(self.entries(), f),
    {
        self.lemma_entries();
        lemma_pairs_sum(self.entries(), f);
    }

    pub fn new() -> (r: Self)
        ensures
            r@ == Map::<K::M, V::M>::empty(),
            r.entries().len() == 0,
    {
        let r = Table { pairs: Vec::new() };
        assert(r.entries() =~= Seq::empty());
        r
    }

    pub fn len(&self) -> (n: usize)
        ensures
            n == self@.dom().len(),
            n == self.entries().len(),
            self@.dom().finite(),
            self.wf(),
    {
        proof {
            use_type_invariant(self);
            self.lemma_entries();
        }
        self.pairs.len()
    }

    pub fn is_empty(&self) -> (r: bool)
        ensures
            r == (self@ == Map::<K::M, V::M>::empty()),
    {
        proof {
            use_type_invariant(self);
            self.lemma_entries();
            assert(self.entries().len() == 0 ==> self@ =~= Map::empty());
        }
        self.pairs.len() == 0
    }

    pub fn key_at(&self, i: usize) -> (k: &K)
        requires
            i < self.entries().len(),
        ensures
            k.model() == self.entries()[i as int].0,
            self@.dom().contains(k.model()),
    {
        proof {
            use_type_invariant(self);
            self.lemma_entries();
        }
        &self.pairs[i].0
    }

    pub fn value_at(&self, i: usize) -> (v: &V)
        requires
            i < self.entries().len(),
        ensures
            v.model() == self.entries()[i as int].1,
            self@[self.entries()[i as int].0] == v.model(),
    {
        proof {
            use_type_invariant(self);
            self.lemma_entries();
        }
        &self.pairs[i].1
    }

    /// The first place whose key is not before `k`.
    fn place(&self, k: &K) -> (r: usize)
        ensures
            r <= self.entries().len(),
            forall|i: int|
                #![trigger self.entries()[i]]
                0 <= i < r ==> lex_lt(K::code(self.entries()[i].0), K::code(k.model())),
            forall|i: int|
                #![trigger self.entries()[i]]
                r <= i < self.entries().len() ==> !lex_lt(K::code(self.entries()[i].0), K::code(k.model())),
    {
        proof {
            use_type_invariant(self);
        }
        let mut lo: usize = 0;
        let mut hi: usize = self.pairs.len();
        while lo < hi
            invariant
                lo <= hi <= self.pairs.len(),
                self.wf(),
                forall|i: int|
                    #![trigger self.entries()[i]]
                    0 <= i < lo ==> lex_lt(K::code(self.entries()[i].0), K::code(k.model())),
                forall|i: int|
                    #![trigger self.entries()[i]]
                    hi <= i < self.entries().len() ==> !lex_lt(
                        K::code(self.entries()[i].0),
                        K::code(k.model()),
                    ),
            decreases hi - lo,
        {
            let mid: usize = lo + (hi - lo) / 2;
            let ghost s = self.entries();
            assert(s[mid as int].0 == self.pairs@[mid as int].0.model());
            match self.pairs[mid].0.rank(k) {
                Rank::Before => {
                    assert forall|i: int| #![trigger s[i]] 0 <= i < mid + 1 implies lex_lt(
                        K::code(s[i].0),
                        K::code(k.model()),
                    ) by {
                        if i < mid {
                            assert(lex_lt(K::code(s[i].0), K::code(s[mid as int].0)));
                            lemma_lex_transitive(K::code(s[i].0), K::code(s[mid as int].0), K::code(k.model()));
                        }
                    }
                    lo = mid + 1;
                },
                _ => {
                    assert forall|i: int| #![trigger s[i]] mid <= i < s.len() implies !lex_lt(
                        K::code(s[i].0),
                        K::code(k.model()),
                    ) by {
                        if i > mid {
                            assert(lex_lt(K::code(s[mid as int].0), K::code(s[i].0)));
                            if lex_lt(K::code(s[i].0), K::code(k.model())) {
                                lemma_lex_transitive(K::code(s[mid as int].0), K::code(s[i].0), K::code(k.model()));
                            }
                        }
                    }
                    hi = mid;
                },
            }
        }
        lo
    }

    /// Where a key stands, if the map holds it.
    fn find(&self, k: &K) -> (r: Option<usize>)
        ensures
            match r {
                Some(i) => i < self.entries().len() && self.entries()[i as int].0 == k.model(),
                None => !self@.dom().contains(k.model()),
            },
    {
        let i: usize = self.place(k);
        proof {
            use_type_invariant(self);
            self.lemma_entries();
        }
        let ghost s = self.entries();
        if i < self.pairs.len() {
            assert(s[i as int].0 == self.pairs@[i as int].0.model());
            match self.pairs[i].0.rank(k) {
                Rank::Same => {
                    return Some(i);
                },
                _ => {},
            }
        }
        proof {
            if self@.dom().contains(k.model()) {
                let j = choose|j: int| #![trigger s[j]] 0 <= j < s.len() && s[j].0 == k.model();
                lemma_lex_irreflexive(K::code(k.model()));
                if j > i {
                    assert(lex_lt(K::code(s[i as int].0), K::code(s[j].0)));
                }
            }
        }
        None
    }

    pub fn contains_key(&self, k: &K) -> (r: bool)
        ensures
            r == self@.dom().contains(k.model()),
    {
        proof {
            use_type_invariant(self);
            self.lemma_entries();
        }
        match self.find(k) {
            Some(_) => true,
            None => false,
        }
    }

    pub fn get(&self, k: &K) -> (r: Option<&V>)
        ensures
            match r {
                Some(v) => self@.dom().contains(k.model()) && self@[k.model()] == v.model(),
                None => !self@.dom().contains(k.model()),
            },
    {
        proof {
            use_type_invariant(self);
            self.lemma_entries();
        }
        match self.find(k) {
            Some(i) => Some(&self.pairs[i].1),
            None => None,
        }
    }

    /// Sets the value of a key and hands back the one it had.
    pub fn insert(&mut self, k: K, v: V) -> (r: Option<V>)
        ensures
            final(self)@ == old(self)@.insert(k.model(), v.model()),
            match r {
                Some(x) => old(self)@.dom().contains(k.model()) && old(self)@[k.model()] == x.model(),
                None => !old(self)@.dom().contains(k.model()),
            },
    {
        let i: usize = self.place(&k);
        proof {
            use_type_invariant(&*self);
            self.lemma_entries();
        }
        let ghost s = self.entries();
        let ghost m = self@;
        let mut pairs: Vec<(K, V)> = Vec::new();
        std::mem::swap(&mut pairs, &mut self.pairs);
        assert(pair_models(pairs@) == s);
        let mut held: bool = false;
        if i < pairs.len() {
            assert(s[i as int].0 == pairs@[i as int].0.model());
            match pairs[i].0.rank(&k) {
                Rank::Same => {
                    held = true;
                },
                _ => {},
            }
        }
        if held {
            let before: (K, V) = pairs.remove(i);
            let ghost km = k.model();
            let ghost vm = v.model();
            pairs.insert(i, (k, v));
            let ghost t = pair_models(pairs@);
            proof {
                assert(t =~= s.update(i as int, (km, vm)));
                assert(ascending::<K, V::M>(t)) by {
                    assert forall|x: int, y: int| #![trigger t[x], t[y]] 0 <= x < y < t.len() implies lex_lt(
                        K::code(t[x].0),
                        K::code(t[y].0),
                    ) by {
                        assert(lex_lt(K::code(s[x].0), K::code(s[y].0)));
                    }
                }
                lemma_ascending_distinct::<K, V::M>(t);
                lemma_pairs_map(t);
                assert forall|q: K::M| m.insert(km, vm).dom().contains(q) implies pairs_map(t).dom().contains(q) by {
                    if q != km {
                        let j = choose|j: int| #![trigger s[j]] 0 <= j < s.len() && s[j].0 == q;
                        assert(t[j].0 == q);
                    } else {
                        assert(t[i as int].0 == q);
                    }
                }
                assert forall|q: K::M| pairs_map(t).dom().contains(q) implies m.insert(km, vm).dom().contains(q)
                    && m.insert(km, vm)[q] == pairs_map(t)[q] by {
                    let j = choose|j: int| #![trigger t[j]] 0 <= j < t.len() && t[j].0 == q;
                    if j != i {
                        assert(s[j] == t[j]);
                        assert(s[i as int].0 == km);
                    }
                }
                assert(pairs_map(t) =~= m.insert(km, vm));
            }
            self.pairs = pairs;
            assert(before.1.model() == s[i as int].1);
            Some(before.1)
        } else {
            let ghost km = k.model();
            let ghost vm = v.model();
            proof {
                if m.dom().contains(km) {
                    let j = choose|j: int| #![trigger s[j]] 0 <= j < s.len() && s[j].0 == km;
                    lemma_lex_irreflexive(K::code(km));
                    if j > i {
                        assert(lex_lt(K::code(s[i as int].0), K::code(s[j].0)));
                    }
                }
            }
            pairs.insert(i, (k, v));
            let ghost t = pair_models(pairs@);
            proof {
                assert(t =~= s.insert(i as int, (km, vm)));
                assert(ascending::<K, V::M>(t)) by {
                    assert forall|x: int, y: int| #![trigger t[x], t[y]] 0 <= x < y < t.len() implies lex_lt(
                        K::code(t[x].0),
                        K::code(t[y].0),
                    ) by {
                        if y < i {
                            assert(t[x] == s[x] && t[y] == s[y]);
                        } else if x > i {
                            assert(t[x] == s[x - 1] && t[y] == s[y - 1]);
                        } else if y == i {
                            assert(t[x] == s[x]);
                        } else {
                            // y is beyond the new entry, which is before it
                            assert(t[y] == s[y - 1]);
                            lemma_lex_total(K::code(s[y - 1].0), K::code(km));
                            if K::code(s[y - 1].0) == K::code(km) {
                                K::code_injective(s[y - 1].0, km);
                                assert(m.dom().contains(km));
                            }
                            if x < i {
                                assert(t[x] == s[x]);
                                lemma_lex_transitive(K::code(s[x].0), K::code(km), K::code(s[y - 1].0));
                            }
                        }
                    }
                }
                lemma_ascending_distinct::<K, V::M>(t);
                lemma_pairs_map(t);
                assert forall|q: K::M| m.insert(km, vm).dom().contains(q) implies pairs_map(t).dom().contains(q) by {
                    if q != km {
                        let j = choose|j: int| #![trigger s[j]] 0 <= j < s.len() && s[j].0 == q;
                        if j < i {
                            assert(t[j].0 == q);
                        } else {
                            assert(t[j + 1].0 == q);
                        }
                    } else {
                        assert(t[i as int].0 == q);
                    }
                }
                assert forall|q: K::M| pairs_map(t).dom().contains(q) implies m.insert(km, vm).dom().contains(q)
                    && m.insert(km, vm)[q] == pairs_map(t)[q] by {
                    let j = choose|j: int| #![trigger t[j]] 0 <= j < t.len() && t[j].0 == q;
                    if j < i {
                        assert(s[j] == t[j]);
                    } else if j > i {
                        assert(s[j - 1] == t[j]);
                    }
                }
                assert(pairs_map(t) =~= m.insert(km, vm));
            }
            self.pairs = pairs;
            None
        }
    }

    /// Takes a key out and hands back the value it had.
    pub fn remove(&mut self, k: &K) -> (r: Option<V>)
        ensures
            final(self)@ == old(self)@.remove(k.model()),
            match r {
                Some(x) => old(self)@.dom().contains(k.model()) && old(self)@[k.model()] == x.model(),
                None => !old(self)@.dom().contains(k.model()),
            },
    {
        proof {
            use_type_invariant(&*self);
            self.lemma_entries();
        }
        let ghost s = self.entries();
        let ghost m = self@;
        match self.find(k) {
            None => {
                assert(m.remove(k.model()) =~= m);
                None
            },
            Some(i) => {
                let mut pairs: Vec<(K, V)> = Vec::new();
                std::mem::swap(&mut pairs, &mut self.pairs);
                assert(pair_models(pairs@) == s);
                assert(s[i as int].0 == pairs@[i as int].0.model());
                let before: (K, V) = pairs.remove(i);
                let ghost km = k.model();
                let ghost t = pair_models(pairs@);
                proof {
                    assert(t =~= s.remove(i as int));
                    assert(ascending::<K, V::M>(t)) by {
                        assert forall|x: int, y: int| #![trigger t[x], t[y]] 0 <= x < y < t.len() implies lex_lt(
                            K::code(t[x].0),
                            K::code(t[y].0),
                        ) by {
                            let x1 = if x < i { x } else { x + 1 };
                            let y1 = if y < i { y } else { y + 1 };
                            assert(t[x] == s[x1] && t[y] == s[y1]);
                        }
                    }
                    lemma_ascending_distinct::<K, V::M>(t);
                    lemma_pairs_map(t);
                    assert forall|q: K::M| m.remove(km).dom().contains(q) implies pairs_map(t).dom().contains(q) by {
                        let j = choose|j: int| #![trigger s[j]] 0 <= j < s.len() && s[j].0 == q;
                        if j < i {
                            assert(t[j].0 == q);
                        } else {
                            assert(t[j - 1].0 == q);
                        }
                    }
                    assert forall|q: K::M| pairs_map(t).dom().contains(q) implies m.remove(km).dom().contains(q)
                        && m.remove(km)[q] == pairs_map(t)[q] by {
                        let j = choose|j: int| #![trigger t[j]] 0 <= j < t.len() && t[j].0 == q;
                        let j1 = if j < i { j } else { j + 1 };
                        assert(t[j] == s[j1]);
                        assert(s[i as int].0 == km);
                    }
                    assert(pairs_map(t) =~= m.remove(km));
                }
                self.pairs = pairs;
                Some(before.1)
            },
        }
    }

    /// Takes everything out.
    pub fn clear(&mut self)
        ensures
            final(self)@ == Map::<K::M, V::M>::empty(),
    {
        *self = Table::new();
    }
}

impl<K: Key, V: Item> Item for Table<K, V> {
    type M = Map<K::M, V::M>;

    open spec fn model(&self) -> Map<K::M, V::M> {
        self@
    }

    fn dup(&self) -> (r: Self) {
        proof {
            use_type_invariant(self);
        }
        let mut pairs: Vec<(K, V)> = Vec::new();
        let mut i: usize = 0;
        while i < self.pairs.len()
            invariant
                i <= self.pairs.len(),
                pairs@.len() == i,
                forall|j: int|
                    #![trigger pairs@[j]]
                    0 <= j < i ==> pairs@[j].0.model() == self.pairs@[j].0.model() && pairs@[j].1.model()
                        == self.pairs@[j].1.model(),
            decreases self.pairs.len() - i,
        {
            pairs.push((self.pairs[i].0.dup(), self.pairs[i].1.dup()));
            i += 1;
        }
        assert(pair_models(pairs@) =~= pair_models(self.pairs@));
        let r = Table { pairs };
        assert(r.model() == self.model());
        r
    }
}

/// A set of keys.
pub struct KeySet<K: Key> {
    table: Table<K, ()>,
}

impl<K: Key> KeySet<K> {
    pub closed spec fn table_map(&self) -> Map<K::M, ()> {
        self.table@
    }

    /// What the set holds.
    pub open spec fn view(&self) -> Set<K::M> {
        self.table_map().dom()
    }

    pub closed spec fn wf(&self) -> bool {
        self.table.wf()
    }

    /// The members, in ascending order.
    pub closed spec fn members(&self) -> Seq<(K::M, ())> {
        self.table.entries()
    }

    pub fn new() -> (r: Self)
        ensures
            r@ == Set::<K::M>::empty(),
    {
        let r = KeySet { table: Table::new() };
        assert(r@ =~= Set::empty());
        r
    }

    pub fn len(&self) -> (n: usize)
        ensures
            n == self@.len(),
            n == self.members().len(),
            self@.finite(),
            self.wf(),
    {
        self.table.len()
    }

    pub fn contains(&self, k: &K) -> (r: bool)
        ensures
            r == self@.contains(k.model()),
    {
        self.table.contains_key(k)
    }

    /// Puts a key in; tells whether it is new.
    pub fn insert(&mut self, k: K) -> (r: bool)
        ensures
            final(self)@ == old(self)@.insert(k.model()),
            r == !old(self)@.contains(k.model()),
    {
        let ghost m = self.table@;
        let ghost km = k.model();
        let before: Option<()> = self.table.insert(k, ());
        assert(self.table@.dom() =~= m.dom().insert(km));
        before.is_none()
    }

    /// Takes a key out; tells whether it was there.
    pub fn remove(&mut self, k: &K) -> (r: bool)
        ensures
            final(self)@ == old(self)@.remove(k.model()),
            r == old(self)@.contains(k.model()),
    {
        let ghost m = self.table@;
        let before: Option<()> = self.table.remove(k);
        assert(self.table@.dom() =~= m.dom().remove(k.model()));
        before.is_some()
    }

    pub fn at(&self, i: usize) -> (k: &K)
        requires
            i < self.members().len(),
        ensures
            k.model() == self.members()[i as int].0,
            self@.contains(k.model()),
    {
        self.table.key_at(i)
    }

    /// What is known of the members of a set.
    pub proof fn lemma_members(&self)
        requires
            self.wf(),
        ensures
            self@.finite(),
            self@.len() == self.members().len(),
            distinct_keys(self.members()),
            forall|i: int|
                #![trigger self.members()[i]]
                0 <= i < self.members().len() ==> self@.contains(self.members()[i].0),
            forall|k: K::M| #[trigger]
                self@.contains(k) ==> exists|i: int|
                    #![trigger self.members()[i]]
                    0 <= i < self.members().len() && self.members()[i].0 == k,
    {
        self.table.lemma_entries();
    }
}

impl<K: Key> Item for KeySet<K> {
    type M = Set<K::M>;

    open spec fn model(&self) -> Set<K::M> {
        self@
    }

    fn dup(&self) -> (r: Self) {
        let r = KeySet { table: self.table.dup() };
        assert(r.model() == self.model());
        r
    }
}

} // verus!
