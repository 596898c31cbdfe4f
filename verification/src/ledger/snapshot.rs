//! How the snapshot of an epoch boundary is laid out in key-value trees.

use vstd::prelude::*;
use crate::hexa::{encode_hex, hex_chars};
use crate::ledger::primitives::{Hash28, Hash32, Lovelace};
use crate::ledger::state::StakeSnapshot;
use crate::item::Item;
use crate::text::{decimal, decimal_chars};

verus! {

/// A key: a kind, an epoch and a hash in hexadecimal, with colons between them.
pub open spec fn row_key(kind: Seq<char>, epoch: u64, hash: Seq<u8>) -> Seq<char> {
    kind + ":"@ + decimal_chars(epoch as nat) + ":"@ + hex_chars(hash)
}

fn make_key(kind: &str, epoch: u64, hash: &[u8]) -> (r: String)
    ensures
        r@ == row_key(kind@, epoch, hash@),
{
    let mut r = kind.to_string();
    r.append(":");
    r.append(decimal(epoch).as_str());
    r.append(":");
    r.append(encode_hex(hash).as_str());
    r
}

/// Key of a credential's stake.
pub fn stake_key(epoch: u64, cred: &Hash32) -> (r: String)
    ensures
        r@ == row_key("stake"@, epoch, cred@),
{
    make_key("stake", epoch, cred.as_slice())
}

/// Key of a pool's parameters.
pub fn pool_key(epoch: u64, pool: &Hash28) -> (r: String)
    ensures
        r@ == row_key("pool"@, epoch, pool@),
{
    make_key("pool", epoch, pool.as_slice())
}

/// Key of a pool's stake.
pub fn pool_stake_key(epoch: u64, pool: &Hash28) -> (r: String)
    ensures
        r@ == row_key("pool_stake"@, epoch, pool@),
{
    make_key("pool_stake", epoch, pool.as_slice())
}

/// Key of a credential's delegation.
pub fn delegation_key(epoch: u64, cred: &Hash32) -> (r: String)
    ensures
        r@ == row_key("delegation"@, epoch, cred@),
{
    make_key("delegation", epoch, cred.as_slice())
}

/// Rows of text keys, as sequences of characters.
pub open spec fn rows<V>(s: Seq<(String, V)>) -> Seq<(Seq<char>, V)> {
    Seq::new(s.len(), |i: int| (s[i].0@, s[i].1))
}

pub open spec fn stake_rows_of(epoch: u64, l: Seq<(Hash32, Lovelace)>) -> Seq<(Seq<char>, u64)> {
    Seq::new(l.len(), |i: int| (row_key("stake"@, epoch, l[i].0@), l[i].1.0))
}

pub open spec fn pool_stake_rows_of(epoch: u64, l: Seq<(Hash28, Lovelace)>) -> Seq<(Seq<char>, u64)> {
    Seq::new(l.len(), |i: int| (row_key("pool_stake"@, epoch, l[i].0@), l[i].1.0))
}

pub open spec fn delegation_rows_of(epoch: u64, l: Seq<(Hash32, Hash28)>) -> Seq<(Seq<char>, Hash28)> {
    Seq::new(l.len(), |i: int| (row_key("delegation"@, epoch, l[i].0@), l[i].1))
}

/// The rows of the stake tree, in order of the credentials.
pub fn stake_rows(epoch: u64, snapshot: &StakeSnapshot) -> (r: Vec<(String, u64)>)
    ensures
        rows(r@) == stake_rows_of(
            epoch,
            crate::table::listing::<Hash32, Lovelace>(snapshot.model().stake_distribution),
        ),
{
    let t = &snapshot.stake_distribution;
    let ghost l = t.entries();
    let n: usize = t.len();
    let mut r: Vec<(String, u64)> = Vec::new();
    let mut i: usize = 0;
    while i < n
        invariant
            i <= n,
            n == l.len(),
            l == t.entries(),
            r@.len() == i,
            forall|j: int|
                #![trigger r@[j]]
                0 <= j < i ==> r@[j].0@ == row_key("stake"@, epoch, l[j].0@) && r@[j].1 == l[j].1.0,
        decreases n - i,
    {
        r.push((stake_key(epoch, t.key_at(i)), t.value_at(i).0));
        i += 1;
    }
    proof {
        t.lemma_entries();
        assert(rows(r@) =~= stake_rows_of(epoch, l));
    }
    r
}

/// The rows of the pool stake tree, in order of the pools.
pub fn pool_stake_rows(epoch: u64, snapshot: &StakeSnapshot) -> (r: Vec<(String, u64)>)
    ensures
        rows(r@) == pool_stake_rows_of(
            epoch,
            crate::table::listing::<Hash28, Lovelace>(snapshot.model().pool_stake),
        ),
{
    let t = &snapshot.pool_stake;
    let ghost l = t.entries();
    let n: usize = t.len();
    let mut r: Vec<(String, u64)> = Vec::new();
    let mut i: usize = 0;
    while i < n
        invariant
            i <= n,
            n == l.len(),
            l == t.entries(),
            r@.len() == i,
            forall|j: int|
                #![trigger r@[j]]
                0 <= j < i ==> r@[j].0@ == row_key("pool_stake"@, epoch, l[j].0@) && r@[j].1 == l[j].1.0,
        decreases n - i,
    {
        r.push((pool_stake_key(epoch, t.key_at(i)), t.value_at(i).0));
        i += 1;
    }
    proof {
        t.lemma_entries();
        assert(rows(r@) =~= pool_stake_rows_of(epoch, l));
    }
    r
}

/// The rows of the delegation tree, in order of the credentials.
pub fn delegation_rows(epoch: u64, snapshot: &StakeSnapshot) -> (r: Vec<(String, Hash28)>)
    ensures
        rows(r@) == delegation_rows_of(
            epoch,
            crate::table::listing::<Hash32, Hash28>(snapshot.model().delegations),
        ),
{
    let t = &snapshot.delegations;
    let ghost l = t.entries();
    let n: usize = t.len();
    let mut r: Vec<(String, Hash28)> = Vec::new();
    let mut i: usize = 0;
    while i < n
        invariant
            i <= n,
            n == l.len(),
            l == t.entries(),
            r@.len() == i,
            forall|j: int|
                #![trigger r@[j]]
                0 <= j < i ==> r@[j].0@ == row_key("delegation"@, epoch, l[j].0@) && r@[j].1 == l[j].1,
        decreases n - i,
    {
        r.push((delegation_key(epoch, t.key_at(i)), *t.value_at(i)));
        i += 1;
    }
    proof {
        t.lemma_entries();
        assert(rows(r@) =~= delegation_rows_of(epoch, l));
    }
    r
}

/// The rows of a snapshot: one for each entry, under its kind, its epoch and
/// its hash in hexadecimal, with what the entry holds.
pub proof fn law_rows(
    epoch: u64,
    a: Seq<(Hash32, Lovelace)>,
    b: Seq<(Hash28, Lovelace)>,
    c: Seq<(Hash32, Hash28)>,
    i: int,
)
    ensures
        stake_rows_of(epoch, a).len() == a.len(),
        pool_stake_rows_of(epoch, b).len() == b.len(),
        delegation_rows_of(epoch, c).len() == c.len(),
        0 <= i < a.len() ==> stake_rows_of(epoch, a)[i] == (
            "stake"@ + ":"@ + decimal_chars(epoch as nat) + ":"@ + hex_chars(a[i].0@),
            a[i].1.0,
        ),
        0 <= i < b.len() ==> pool_stake_rows_of(epoch, b)[i] == (
            "pool_stake"@ + ":"@ + decimal_chars(epoch as nat) + ":"@ + hex_chars(b[i].0@),
            b[i].1.0,
        ),
        0 <= i < c.len() ==> delegation_rows_of(epoch, c)[i] == (
            "delegation"@ + ":"@ + decimal_chars(epoch as nat) + ":"@ + hex_chars(c[i].0@),
            c[i].1,
        ),
{
}

} // verus!
