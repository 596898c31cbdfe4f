//! Stake of credentials, recomputed from unspent outputs.

use vstd::prelude::*;
use crate::item::Item;
use crate::ledger::enact::{paid, pay_account};
use crate::ledger::primitives::{
    hash32_tagged, lemma_hash_exists, pad_key, padded, padded_key, sat_sub, ChainPointer, Hash32, Lovelace,
};
use crate::ledger::rewards::lovelace_of;
use crate::ledger::state::{LedgerModel, LedgerState, MAX_LOVELACE_SUPPLY};
use crate::node::storage::{entry_views, EntryModel, UtxoEntry};
use crate::sums::clamp;
use crate::table::{listing, Table};

verus! {

/// An output, as far as stake is concerned.
#[derive(Debug, Clone)]
pub struct UtxoOutput {
    pub address: Vec<u8>,
    pub coin: u64,
}

pub open spec fn output_views(l: Seq<UtxoOutput>) -> Seq<(Seq<u8>, u64)> {
    Seq::new(l.len(), |i: int| (l[i].address@, l[i].coin))
}

// ---- addresses ----

/// 28 bytes, a tag and zeros as a hash.
pub open spec fn tagged_key(bytes: Seq<u8>, tag: u8) -> Hash32 {
    choose|h: Hash32| h@ == padded(bytes).update(28, tag)
}

/// Part of some bytes and a tag as a hash.
pub(crate) fn tag_key(bytes: &[u8], from: usize, tag: u8) -> (r: Hash32)
    requires
        from + 28 <= bytes@.len(),
    ensures
        r == tagged_key(bytes@.subrange(from as int, from + 28), tag),
{
    let r = hash32_tagged(bytes, from, tag);
    proof {
        let b = bytes@.subrange(from as int, from + 28);
        let k = tagged_key(b, tag);
        assert(k@ == padded(b).update(28, tag));
        assert(r =~= k);
    }
    r
}

/// A number in groups of seven bits, the most significant one first; a set top
/// bit says that more follow. Nothing, if it ends too early or does not fit.
/// With the number comes the place behind it.
pub open spec fn varuint_from(b: Seq<u8>, i: int, before: nat) -> Option<(u64, int)>
    decreases b.len() - i,
{
    if i < 0 || i >= b.len() {
        None
    } else {
        let v = before * 128 + (b[i] % 128) as nat;
        if v > u64::MAX {
            None
        } else if b[i] < 128 {
            Some((v as u64, i + 1))
        } else {
            varuint_from(b, i + 1, v)
        }
    }
}

/// Reads a number that starts at `from`; gives the place behind it too.
pub fn decode_varuint(bytes: &[u8], from: usize) -> (r: Option<(u64, usize)>)
    ensures
        match r {
            Some((v, next)) => varuint_from(bytes@, from as int, 0) == Some((v, next as int)) && from < next
                <= bytes@.len(),
            None => varuint_from(bytes@, from as int, 0) is None,
        },
{
    let n: usize = bytes.len();
    let mut value: u64 = 0;
    let mut i: usize = from;
    while i < n
        invariant
            from <= i,
            i <= n || i == from,
            n == bytes@.len(),
            varuint_from(bytes@, from as int, 0) == varuint_from(bytes@, i as int, value as nat),
        decreases n - i,
    {
        let b: u8 = bytes[i];
        let wide: u128 = (value as u128) * 128 + ((b % 128) as u128);
        if wide > u64::MAX as u128 {
            return None;
        }
        value = wide as u64;
        i += 1;
        if b < 128 {
            return Some((value, i));
        }
    }
    None
}

/// The pointer behind the payment part of an address. There is none where an
/// index exceeds 32 bits.
pub open spec fn pointer_of(address: Seq<u8>) -> Option<ChainPointer> {
    match varuint_from(address, 29, 0) {
        None => None,
        Some((slot, a)) => match varuint_from(address, a, 0) {
            None => None,
            Some((tx, b)) => match varuint_from(address, b, 0) {
                None => None,
                Some((cert, _)) => if tx <= u32::MAX && cert <= u32::MAX {
                    Some(ChainPointer { slot, tx_index: tx as u32, cert_index: cert as u32 })
                } else {
                    None
                },
            },
        },
    }
}

/// The stake credential of an address: of base addresses (types 0 to 3) the
/// second 28 bytes, of pointer addresses (types 4 and 5) what the pointer
/// stands for, of reward addresses (types 14 and 15) the only 28 bytes. Byte
/// 28 of the result tells a script (types 2, 3 and 15) from a key.
pub open spec fn address_credential(address: Seq<u8>, pointers: Map<ChainPointer, [u8; 29]>) -> Option<Hash32> {
    if address.len() == 0 {
        None
    } else {
        let kind = address[0] / 16;
        if kind <= 3 {
            if address.len() >= 57 {
                Some(tagged_key(address.subrange(29, 57), if kind >= 2 { 1u8 } else { 0u8 }))
            } else {
                None
            }
        } else if kind == 4 || kind == 5 {
            if address.len() < 30 {
                None
            } else {
                match pointer_of(address) {
                    Some(p) => if pointers.dom().contains(p) {
                        Some(tagged_key(pointers[p]@.subrange(0, 28), pointers[p]@[28]))
                    } else {
                        None
                    },
                    None => None,
                }
            }
        } else if kind == 14 || kind == 15 {
            if address.len() >= 29 {
                Some(tagged_key(address.subrange(1, 29), if kind == 15 { 1u8 } else { 0u8 }))
            } else {
                None
            }
        } else {
            None
        }
    }
}

fn read_pointer(address: &[u8]) -> (r: Option<ChainPointer>)
    ensures
        r == pointer_of(address@),
{
    let (slot, a): (u64, usize) = match decode_varuint(address, 29) {
        Some(x) => x,
        None => {
            return None;
        },
    };
    let (tx, b): (u64, usize) = match decode_varuint(address, a) {
        Some(x) => x,
        None => {
            return None;
        },
    };
    match decode_varuint(address, b) {
        Some((cert, _)) => if tx <= u32::MAX as u64 && cert <= u32::MAX as u64 {
            Some(ChainPointer { slot, tx_index: tx as u32, cert_index: cert as u32 })
        } else {
            None
        },
        None => None,
    }
}

/// The stake credential of an address; pointers are looked up in `ptr_map`.
pub fn extract_stake_credential(address: &[u8], ptr_map: &Table<ChainPointer, [u8; 29]>) -> (r: Option<Hash32>)
    ensures
        r == address_credential(address@, ptr_map@),
{
    let n: usize = address.len();
    if n == 0 {
        return None;
    }
    let kind: u8 = address[0] / 16;
    if kind <= 3 {
        if n < 57 {
            return None;
        }
        Some(tag_key(address, 29, if kind >= 2 { 1 } else { 0 }))
    } else if kind == 4 || kind == 5 {
        if n < 30 {
            return None;
        }
        match read_pointer(address) {
            Some(p) => match ptr_map.get(&p) {
                Some(cred) => Some(tag_key(cred.as_slice(), 0, cred[28])),
                None => None,
            },
            None => None,
        }
    } else if kind == 14 || kind == 15 {
        if n < 29 {
            return None;
        }
        Some(tag_key(address, 1, if kind == 15 { 1 } else { 0 }))
    } else {
        None
    }
}

// ---- stake ----

/// Stake of each credential in outputs.
pub open spec fn outputs_stake(l: Seq<(Seq<u8>, u64)>, pointers: Map<ChainPointer, [u8; 29]>) -> Map<Hash32, Lovelace>
    decreases l.len(),
{
    if l.len() == 0 {
        Map::empty()
    } else {
        let before = outputs_stake(l.drop_last(), pointers);
        match address_credential(l.last().0, pointers) {
            Some(c) => paid(before, c, l.last().1),
            None => before,
        }
    }
}

/// The key of a stake credential: 28 bytes of hash and, where there is one, a
/// tag.
pub open spec fn stake_key(c: Seq<u8>) -> Option<Hash32> {
    if c.len() >= 29 {
        Some(tagged_key(c.subrange(0, 28), c[28]))
    } else if c.len() == 28 {
        Some(padded_key(c.subrange(0, 28)))
    } else {
        None
    }
}

/// Stake of each credential, from what a stake tracker lists.
pub open spec fn listed_stake(l: Seq<(Seq<u8>, u64)>) -> Map<Hash32, Lovelace>
    decreases l.len(),
{
    if l.len() == 0 {
        Map::empty()
    } else {
        let before = listed_stake(l.drop_last());
        match stake_key(l.last().0) {
            Some(c) => paid(before, c, l.last().1),
            None => before,
        }
    }
}

/// Stake with an entry for everyone who delegates or has a reward account.
pub open spec fn with_everyone(stake: Map<Hash32, Lovelace>, s: LedgerModel) -> Map<Hash32, Lovelace> {
    Map::new(
        |c: Hash32|
            stake.dom().contains(c) || s.delegations.dom().contains(c) || s.reward_accounts.dom().contains(c),
        |c: Hash32| Lovelace(lovelace_of(stake, c)),
    )
}

/// The outputs that a rebuild from stored outputs takes: those with a stake
/// credential of 28 or 32 bytes.
pub open spec fn staked_outputs(l: Seq<EntryModel>) -> Seq<(Seq<u8>, u64)>
    decreases l.len(),
{
    if l.len() == 0 {
        Seq::empty()
    } else {
        let before = staked_outputs(l.drop_last());
        match l.last().stake_credential {
            Some(c) => if c.len() == 28 || c.len() == 32 {
                before.push((l.last().address, l.last().amount))
            } else {
                before
            },
            None => before,
        }
    }
}

pub open spec fn amounts_total(l: Seq<EntryModel>) -> nat
    decreases l.len(),
{
    if l.len() == 0 {
        0
    } else {
        amounts_total(l.drop_last()) + l.last().amount as nat
    }
}

impl LedgerState {
    fn set_stake(&mut self, stake: Table<Hash32, Lovelace>)
        ensures
            final(self)@ == (LedgerModel { stake_map: with_everyone(stake@, old(self)@), ..old(self)@ }),
    {
        let ghost s = self@;
        let ghost base = stake@;
        let mut map: Table<Hash32, Lovelace> = stake;
        let ghost d = self.delegations.entries();
        let dn: usize = self.delegations.len();
        proof {
            self.delegations.lemma_entries();
        }
        let mut i: usize = 0;
        while i < dn
            invariant
                i <= dn,
                dn == d.len(),
                d == self.delegations.entries(),
                self@ == s,
                forall|c: Hash32|
                    #![trigger map@.dom().contains(c)]
                    map@.dom().contains(c) == (base.dom().contains(c) || exists|j: int|
                        #![trigger d[j]]
                        0 <= j < i && d[j].0 == c),
                forall|c: Hash32| #[trigger] map@.dom().contains(c) ==> map@[c].0 == lovelace_of(base, c),
            decreases dn - i,
        {
            let key: Hash32 = *self.delegations.key_at(i);
            assert(d[i as int].0 == key);
            if !map.contains_key(&key) {
                map.insert(key, Lovelace(0));
            }
            i += 1;
        }
        let ghost mid = map@;
        let ghost a = self.reward_accounts.entries();
        let an: usize = self.reward_accounts.len();
        let mut k: usize = 0;
        while k < an
            invariant
                k <= an,
                an == a.len(),
                a == self.reward_accounts.entries(),
                self@ == s,
                forall|c: Hash32| #[trigger] mid.dom().contains(c) ==> mid[c].0 == lovelace_of(base, c),
                forall|c: Hash32| base.dom().contains(c) ==> #[trigger] mid.dom().contains(c),
                forall|c: Hash32|
                    #![trigger map@.dom().contains(c)]
                    map@.dom().contains(c) == (mid.dom().contains(c) || exists|j: int|
                        #![trigger a[j]]
                        0 <= j < k && a[j].0 == c),
                forall|c: Hash32| #[trigger] map@.dom().contains(c) ==> map@[c].0 == lovelace_of(base, c),
            decreases an - k,
        {
            let key: Hash32 = *self.reward_accounts.key_at(k);
            assert(a[k as int].0 == key);
            if !map.contains_key(&key) {
                map.insert(key, Lovelace(0));
            }
            k += 1;
        }
        proof {
            self.delegations.lemma_entries();
            self.reward_accounts.lemma_entries();
            crate::sums::lemma_pairs_map(d);
            crate::sums::lemma_pairs_map(a);
            let target = with_everyone(base, s);
            assert forall|c: Hash32| map@.dom().contains(c) == #[trigger] target.dom().contains(c) by {
                if s.delegations.dom().contains(c) {
                    let j = choose|j: int| #![trigger d[j]] 0 <= j < d.len() && d[j].0 == c;
                    assert(d[j].0 == c);
                    assert(mid.dom().contains(c));
                }
                if s.reward_accounts.dom().contains(c) {
                    let j = choose|j: int| #![trigger a[j]] 0 <= j < a.len() && a[j].0 == c;
                    assert(a[j].0 == c);
                }
                if map@.dom().contains(c) && !mid.dom().contains(c) {
                    let j = choose|j: int| #![trigger a[j]] 0 <= j < an && a[j].0 == c;
                    assert(s.reward_accounts.dom().contains(a[j].0));
                }
                if mid.dom().contains(c) && !base.dom().contains(c) {
                    let j = choose|j: int| #![trigger d[j]] 0 <= j < dn && d[j].0 == c;
                    assert(s.delegations.dom().contains(d[j].0));
                }
            }
            assert(map@ =~= target);
        }
        self.stake_distribution.stake_map = map;
        assert(self@ =~= (LedgerModel { stake_map: with_everyone(base, s), ..s }));
    }

    /// Recomputes the stake of all credentials from unspent outputs. Everyone
    /// who delegates or has a reward account has an entry, if only of zero.
    pub fn rebuild_stake_distribution(&mut self, utxos: &Vec<UtxoOutput>)
        ensures
            final(self)@ == (LedgerModel {
                stake_map: with_everyone(
                    outputs_stake(output_views(utxos@), old(self)@.ptr_map),
                    old(self)@,
                ),
                ..old(self)@
            }),
    {
        let ghost l = output_views(utxos@);
        let mut map: Table<Hash32, Lovelace> = Table::new();
        let mut i: usize = 0;
        while i < utxos.len()
            invariant
                i <= utxos.len(),
                l == output_views(utxos@),
                map@ == outputs_stake(l.take(i as int), self@.ptr_map),
            decreases utxos.len() - i,
        {
            proof {
                assert(l.take(i + 1).drop_last() =~= l.take(i as int));
                assert(l.take(i + 1).last() == l[i as int]);
            }
            if let Some(cred) = extract_stake_credential(utxos[i].address.as_slice(), &self.ptr_map) {
                pay_account(&mut map, &cred, utxos[i].coin);
            }
            i += 1;
        }
        assert(l.take(i as int) =~= l);
        self.set_stake(map);
    }

    /// Takes the stake of all credentials from a stake tracker. Keys of 29
    /// bytes carry a tag behind the hash; shorter ones are key hashes.
    pub fn rebuild_stake_from_current_stake(&mut self, utxo_stake: &Table<Vec<u8>, u64>)
        ensures
            final(self)@ == (LedgerModel {
                stake_map: with_everyone(
                    listed_stake(listing::<Vec<u8>, u64>(utxo_stake@)),
                    old(self)@,
                ),
                ..old(self)@
            }),
    {
        let ghost l = utxo_stake.entries();
        let n: usize = utxo_stake.len();
        let mut map: Table<Hash32, Lovelace> = Table::new();
        let mut i: usize = 0;
        while i < n
            invariant
                i <= n,
                n == l.len(),
                l == utxo_stake.entries(),
                map@ == listed_stake(l.take(i as int)),
            decreases n - i,
        {
            proof {
                assert(l.take(i + 1).drop_last() =~= l.take(i as int));
                assert(l.take(i + 1).last() == l[i as int]);
            }
            let cred: &Vec<u8> = utxo_stake.key_at(i);
            let amount: u64 = *utxo_stake.value_at(i);
            if cred.len() >= 29 {
                pay_account(&mut map, &tag_key(cred.as_slice(), 0, cred[28]), amount);
            } else if cred.len() == 28 {
                pay_account(&mut map, &pad_key(cred.as_slice(), 0), amount);
            }
            i += 1;
        }
        proof {
            assert(l.take(i as int) =~= l);
            utxo_stake.lemma_entries();
        }
        self.set_stake(map);
    }

    /// Recomputes the stake of all credentials from all stored outputs.
    pub fn rebuild_from_utxo_tree(&mut self, outputs: &Vec<UtxoEntry>)
        ensures
            final(self)@ == (LedgerModel {
                stake_map: with_everyone(
                    outputs_stake(staked_outputs(entry_views(outputs@)), old(self)@.ptr_map),
                    old(self)@,
                ),
                ..old(self)@
            }),
    {
        let ghost l = entry_views(outputs@);
        let mut staked: Vec<UtxoOutput> = Vec::new();
        assert(output_views(staked@) =~= Seq::empty());
        let mut i: usize = 0;
        while i < outputs.len()
            invariant
                i <= outputs.len(),
                l == entry_views(outputs@),
                output_views(staked@) == staked_outputs(l.take(i as int)),
            decreases outputs.len() - i,
        {
            proof {
                assert(l.take(i + 1).drop_last() =~= l.take(i as int));
                assert(l.take(i + 1).last() == l[i as int]);
            }
            let e: &UtxoEntry = &outputs[i];
            if let Some(cred) = &e.stake_credential {
                if cred.len() == 28 || cred.len() == 32 {
                    let ghost before = staked@;
                    staked.push(UtxoOutput { address: e.address.dup(), coin: e.amount });
                    assert(output_views(staked@) =~= output_views(before).push((e.address@, e.amount)));
                }
            }
            i += 1;
        }
        assert(l.take(i as int) =~= l);
        self.rebuild_stake_distribution(&staked);
    }

    /// At the end of the Byron era the reserves become what is not in stored
    /// outputs.
    pub fn recalibrate_reserves_from_utxo_tree(&mut self, outputs: &Vec<UtxoEntry>)
        ensures
            final(self)@ == (LedgerModel {
                reserves: Lovelace(
                    sat_sub(MAX_LOVELACE_SUPPLY, clamp(amounts_total(entry_views(outputs@)) as int)),
                ),
                ..old(self)@
            }),
    {
        let ghost l = entry_views(outputs@);
        let mut total: u64 = 0;
        let mut i: usize = 0;
        while i < outputs.len()
            invariant
                i <= outputs.len(),
                l == entry_views(outputs@),
                total == clamp(amounts_total(l.take(i as int)) as int),
            decreases outputs.len() - i,
        {
            proof {
                assert(l.take(i + 1).drop_last() =~= l.take(i as int));
                assert(l.take(i + 1).last() == l[i as int]);
            }
            total = total.saturating_add(outputs[i].amount);
            i += 1;
        }
        assert(l.take(i as int) =~= l);
        self.reserves = Lovelace(MAX_LOVELACE_SUPPLY.saturating_sub(total));
    }
}

// ---- laws ----

/// What of the outputs belongs to a credential.
pub open spec fn stake_of_credential(l: Seq<(Seq<u8>, u64)>, pointers: Map<ChainPointer, [u8; 29]>, c: Hash32) -> nat
    decreases l.len(),
{
    if l.len() == 0 {
        0
    } else {
        stake_of_credential(l.drop_last(), pointers, c) + if address_credential(l.last().0, pointers) == Some(c) {
            l.last().1 as nat
        } else {
            0
        }
    }
}

/// The stake of a credential is what the outputs at its addresses hold
/// together.
pub proof fn law_stake_adds_up(l: Seq<(Seq<u8>, u64)>, pointers: Map<ChainPointer, [u8; 29]>, c: Hash32)
    ensures
        lovelace_of(outputs_stake(l, pointers), c) == clamp(stake_of_credential(l, pointers, c) as int),
    decreases l.len(),
{
    if l.len() > 0 {
        law_stake_adds_up(l.drop_last(), pointers, c);
    }
}

/// The same hash as a key and as a script gives different credentials.
pub proof fn law_tags_tell_apart(bytes: Seq<u8>)
    ensures
        tagged_key(bytes, 0) != tagged_key(bytes, 1),
{
    lemma_tagged(bytes, 0);
    lemma_tagged(bytes, 1);
    assert(tagged_key(bytes, 0)@[28] == 0);
    assert(tagged_key(bytes, 1)@[28] == 1);
}

/// Credentials with the same tag are the same where their hashes are.
pub proof fn law_hashes_tell_apart(a: Seq<u8>, b: Seq<u8>, tag: u8)
    requires
        a.len() == 28,
        b.len() == 28,
        tagged_key(a, tag) == tagged_key(b, tag),
    ensures
        a == b,
{
    lemma_tagged(a, tag);
    lemma_tagged(b, tag);
    assert forall|i: int| 0 <= i < 28 implies a[i] == b[i] by {
        assert(tagged_key(a, tag)@[i] == a[i]);
        assert(tagged_key(b, tag)@[i] == b[i]);
    }
    assert(a =~= b);
}

proof fn lemma_tagged(bytes: Seq<u8>, tag: u8)
    ensures
        tagged_key(bytes, tag)@ == padded(bytes).update(28, tag),
{
    lemma_hash_exists(padded(bytes).update(28, tag));
}

} // verus!
