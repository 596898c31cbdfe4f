//! Whose stake an output is.

use vstd::prelude::*;
use crate::ledger::primitives::{padded, padded_key, ChainPointer, Hash32, Lovelace};
use crate::ledger::rebuild::{
    address_credential, listed_stake, outputs_stake, pointer_of, stake_of_credential, staked_outputs, tagged_key,
    varuint_from, with_everyone,
};
use crate::ledger::registry::agree;
use crate::ledger::state::LedgerModel;
use crate::node::storage::EntryModel;

verus! {

/// A hash of 28 bytes with a tag and three zeros behind it.
pub open spec fn spelled(h: Hash32, bytes: Seq<u8>, tag: u8) -> bool {
    h@ == bytes + seq![tag, 0u8, 0u8, 0u8]
}

proof fn lemma_spelled(h: Hash32, bytes: Seq<u8>, tag: u8)
    requires
        bytes.len() == 28,
        spelled(h, bytes, tag),
    ensures
        tagged_key(bytes, tag) == h,
{
    assert(h@ =~= padded(bytes).update(28, tag));
    let k = tagged_key(bytes, tag);
    assert(k@ == padded(bytes).update(28, tag));
    assert(k =~= h);
}

/// The stake credential of a base address is its second hash, and that of a
/// reward address its only one; whether it is a script's shows in the type.
/// Addresses that are too short, and those of other types, have none.
pub proof fn law_address_credential(a: Seq<u8>, pointers: Map<ChainPointer, [u8; 29]>, h: Hash32)
    ensures
        a.len() == 0 ==> address_credential(a, pointers) is None,
        a.len() > 0 && a[0] < 0x40 && a.len() < 57 ==> address_credential(a, pointers) is None,
        a.len() >= 57 && a[0] < 0x20 && spelled(h, a.subrange(29, 57), 0) ==> address_credential(a, pointers) == Some(h),
        a.len() >= 57 && 0x20 <= a[0] < 0x40 && spelled(h, a.subrange(29, 57), 1) ==> address_credential(a, pointers)
            == Some(h),
        a.len() >= 29 && 0xe0 <= a[0] < 0xf0 && spelled(h, a.subrange(1, 29), 0) ==> address_credential(a, pointers)
            == Some(h),
        a.len() >= 29 && 0xf0 <= a[0] && spelled(h, a.subrange(1, 29), 1) ==> address_credential(a, pointers) == Some(h),
        a.len() > 0 && 0xe0 <= a[0] && a.len() < 29 ==> address_credential(a, pointers) is None,
        a.len() > 0 && 0x60 <= a[0] < 0xe0 ==> address_credential(a, pointers) is None,
{
    if a.len() >= 57 && a[0] < 0x20 && spelled(h, a.subrange(29, 57), 0) {
        lemma_spelled(h, a.subrange(29, 57), 0);
    }
    if a.len() >= 57 && 0x20 <= a[0] < 0x40 && spelled(h, a.subrange(29, 57), 1) {
        lemma_spelled(h, a.subrange(29, 57), 1);
    }
    if a.len() >= 29 && 0xe0 <= a[0] < 0xf0 && spelled(h, a.subrange(1, 29), 0) {
        lemma_spelled(h, a.subrange(1, 29), 0);
    }
    if a.len() >= 29 && 0xf0 <= a[0] && spelled(h, a.subrange(1, 29), 1) {
        lemma_spelled(h, a.subrange(1, 29), 1);
    }
}

/// The credential of a pointer address is the one that registered where it
/// points to; there is none where nothing did.
pub proof fn law_pointer_address(a: Seq<u8>, pointers: Map<ChainPointer, [u8; 29]>, p: ChainPointer, h: Hash32)
    requires
        a.len() >= 30,
        0x40 <= a[0] < 0x60,
        pointer_of(a) == Some(p),
    ensures
        !pointers.dom().contains(p) ==> address_credential(a, pointers) is None,
        pointers.dom().contains(p) && spelled(h, pointers[p]@.subrange(0, 28), pointers[p]@[28]) ==> address_credential(
            a,
            pointers,
        ) == Some(h),
{
    if pointers.dom().contains(p) && spelled(h, pointers[p]@.subrange(0, 28), pointers[p]@[28]) {
        lemma_spelled(h, pointers[p]@.subrange(0, 28), pointers[p]@[28]);
    }
}

/// Numbers in pointers come in groups of seven bits: a byte below 128 ends one,
/// and any other byte says that more follow.
pub proof fn law_pointer_numbers(b: Seq<u8>, i: int, before: nat)
    requires
        0 <= i < b.len(),
        before * 128 + 127 <= u64::MAX,
    ensures
        b[i] < 128 ==> varuint_from(b, i, before) == Some(((before * 128 + b[i]) as u64, i + 1)),
        b[i] >= 128 ==> varuint_from(b, i, before) == varuint_from(b, i + 1, (before * 128 + b[i] - 128) as nat),
        varuint_from(b, b.len() as int, before) is None,
{
}

/// A pointer is a slot, the index of a transaction and that of a certificate,
/// one behind the other from byte 29 on.
pub proof fn law_pointer_read(a: Seq<u8>, slot: u64, i: int, tx: u64, j: int, cert: u64, k: int)
    requires
        varuint_from(a, 29, 0) == Some((slot, i)),
        varuint_from(a, i, 0) == Some((tx, j)),
        varuint_from(a, j, 0) == Some((cert, k)),
    ensures
        tx <= u32::MAX && cert <= u32::MAX ==> pointer_of(a) == Some(
            ChainPointer { slot, tx_index: tx as u32, cert_index: cert as u32 },
        ),
        tx > u32::MAX || cert > u32::MAX ==> pointer_of(a) is None,
{
}

/// One more output adds its amount to the stake of its credential, and leaves
/// that of others; one without a credential adds nothing.
pub proof fn law_output_stake(l: Seq<(Seq<u8>, u64)>, x: (Seq<u8>, u64), pointers: Map<ChainPointer, [u8; 29]>, other: Hash32)
    ensures
        ({
            let (m, n) = (outputs_stake(l, pointers), outputs_stake(l.push(x), pointers));
            let c = address_credential(x.0, pointers);
            &&& outputs_stake(Seq::empty(), pointers) == Map::<Hash32, Lovelace>::empty()
            &&& c is None ==> n == m
            &&& c matches Some(k) ==> {
                let before = if m.dom().contains(k) { m[k].0 } else { 0 };
                &&& before + x.1 <= u64::MAX ==> n.dom().contains(k) && n[k].0 == before + x.1
                &&& other != k ==> agree(m, n, other)
            }
        }),
{
    assert(l.push(x).drop_last() =~= l);
}

/// One more entry of a stake tracker adds its amount under the key of its
/// credential: 28 bytes, and a tag where there is one.
pub proof fn law_listed_stake(l: Seq<(Seq<u8>, u64)>, x: (Seq<u8>, u64), h: Hash32, other: Hash32)
    requires
        other != h,
    ensures
        ({
            let (m, n) = (listed_stake(l), listed_stake(l.push(x)));
            let c = x.0;
            let mine = (c.len() >= 29 && spelled(h, c.subrange(0, 28), c[28])) || (c.len() == 28 && spelled(h, c, 0));
            let before = if m.dom().contains(h) { m[h].0 } else { 0 };
            &&& listed_stake(Seq::empty()) == Map::<Hash32, Lovelace>::empty()
            &&& c.len() < 28 ==> n == m
            &&& mine && before + x.1 <= u64::MAX ==> n.dom().contains(h) && n[h].0 == before + x.1
            &&& mine ==> agree(m, n, other)
        }),
{
    assert(l.push(x).drop_last() =~= l);
    let c = x.0;
    if c.len() >= 29 && spelled(h, c.subrange(0, 28), c[28]) {
        lemma_spelled(h, c.subrange(0, 28), c[28]);
    }
    if c.len() == 28 && spelled(h, c, 0) {
        assert(c.subrange(0, 28) =~= c);
        assert(h@ =~= padded(c));
        let k = padded_key(c);
        assert(k@ == padded(c));
        assert(k =~= h);
    }
}

/// Everyone who delegates or has an account has an entry, which is empty where
/// no stake is known; what is known stays.
pub proof fn law_everyone_listed(m: Map<Hash32, Lovelace>, s: LedgerModel, c: Hash32)
    ensures
        ({
            let n = with_everyone(m, s);
            &&& m.dom().contains(c) ==> n.dom().contains(c) && n[c] == m[c]
            &&& !m.dom().contains(c) && (s.delegations.dom().contains(c) || s.reward_accounts.dom().contains(c))
                ==> n.dom().contains(c) && n[c].0 == 0
            &&& !m.dom().contains(c) && !s.delegations.dom().contains(c) && !s.reward_accounts.dom().contains(c)
                ==> !n.dom().contains(c)
        }),
{
}

/// A rebuild takes the stored outputs with a credential of 28 or 32 bytes.
pub proof fn law_staked_outputs(l: Seq<EntryModel>, e: EntryModel)
    ensures
        staked_outputs(Seq::empty()).len() == 0,
        e.stake_credential is None ==> staked_outputs(l.push(e)) == staked_outputs(l),
        e.stake_credential matches Some(c) ==> (c.len() == 28 || c.len() == 32 ==> staked_outputs(l.push(e))
            == staked_outputs(l).push((e.address, e.amount))),
        e.stake_credential matches Some(c) ==> (c.len() != 28 && c.len() != 32 ==> staked_outputs(l.push(e))
            == staked_outputs(l)),
{
    assert(l.push(e).drop_last() =~= l);
}

/// One more output adds what it holds to the stake of its credential, and to
/// no other.
pub proof fn law_output_adds_stake(l: Seq<(Seq<u8>, u64)>, x: (Seq<u8>, u64), pointers: Map<ChainPointer, [u8; 29]>, c: Hash32)
    ensures
        stake_of_credential(Seq::empty(), pointers, c) == 0,
        address_credential(x.0, pointers) == Some(c) ==> stake_of_credential(l.push(x), pointers, c) == stake_of_credential(
            l,
            pointers,
            c,
        ) + x.1,
        address_credential(x.0, pointers) != Some(c) ==> stake_of_credential(l.push(x), pointers, c) == stake_of_credential(
            l,
            pointers,
            c,
        ),
{
    assert(l.push(x).drop_last() =~= l);
}

} // verus!
