//! How dumps name credentials and representatives.

use vstd::prelude::*;
use crate::hexa::{encode_hex, hex_chars};
use crate::item::Item;
use crate::ledger::primitives::{DRep, Hash32};
use crate::table::{listing, KeySet, Table};

verus! {

/// The first 28 bytes of a hash in hexadecimal.
pub open spec fn short_hex(h: Hash32) -> Seq<char> {
    hex_chars(h@.take(28))
}

fn short_text(h: &Hash32) -> (r: String)
    ensures
        r@ == short_hex(*h),
{
    let mut bytes: Vec<u8> = Vec::new();
    let mut i: usize = 0;
    while i < 28
        invariant
            i <= 28,
            bytes@ == h@.take(i as int),
        decreases 28 - i,
    {
        bytes.push(h[i]);
        assert(h@.take(i + 1) =~= h@.take(i as int).push(h@[i as int]));
        i += 1;
    }
    encode_hex(bytes.as_slice())
}

/// The name of a credential: its kind and its hash.
pub open spec fn credential_label(script: bool, h: Hash32) -> Seq<char> {
    if script {
        "scriptHash-"@ + short_hex(h)
    } else {
        "keyHash-"@ + short_hex(h)
    }
}

/// Names a credential.
pub fn label_credential(script: bool, h: &Hash32) -> (r: String)
    ensures
        r@ == credential_label(script, *h),
{
    let mut r = (if script { "scriptHash-" } else { "keyHash-" }).to_string();
    r.append(short_text(h).as_str());
    r
}

/// The name of a representative.
pub open spec fn drep_label(d: DRep) -> Seq<char> {
    match d {
        DRep::KeyHash(h) => "drep-keyHash-"@ + short_hex(h),
        DRep::ScriptHash(h) => "drep-scriptHash-"@ + short_hex(h),
        DRep::AlwaysAbstain => "drep-alwaysAbstain"@,
        DRep::AlwaysNoConfidence => "drep-alwaysNoConfidence"@,
    }
}

/// Names a representative.
pub fn label_drep(d: &DRep) -> (r: String)
    ensures
        r@ == drep_label(*d),
{
    match d {
        DRep::KeyHash(h) => {
            let mut r = "drep-keyHash-".to_string();
            r.append(short_text(h).as_str());
            r
        },
        DRep::ScriptHash(h) => {
            let mut r = "drep-scriptHash-".to_string();
            r.append(short_text(h).as_str());
            r
        },
        DRep::AlwaysAbstain => "drep-alwaysAbstain".to_string(),
        DRep::AlwaysNoConfidence => "drep-alwaysNoConfidence".to_string(),
    }
}

/// Entries under the names of their credentials; of two with one name the
/// later counts.
pub open spec fn labelled<V>(l: Seq<(Hash32, V)>, scripts: Set<Hash32>) -> Map<Seq<char>, V>
    decreases l.len(),
{
    if l.len() == 0 {
        Map::empty()
    } else {
        labelled(l.drop_last(), scripts).insert(
            credential_label(scripts.contains(l.last().0), l.last().0),
            l.last().1,
        )
    }
}

/// Puts a table under the names of its credentials.
pub fn label_table<V: Item>(t: &Table<Hash32, V>, scripts: &KeySet<Hash32>) -> (r: Table<String, V>)
    ensures
        r@ == labelled(listing::<Hash32, V::M>(t@), scripts@),
{
    let ghost l = t.entries();
    let n: usize = t.len();
    let mut r: Table<String, V> = Table::new();
    let mut i: usize = 0;
    while i < n
        invariant
            i <= n,
            n == l.len(),
            l == t.entries(),
            r@ == labelled(l.take(i as int), scripts@),
        decreases n - i,
    {
        proof {
            assert(l.take(i + 1).drop_last() =~= l.take(i as int));
            assert(l.take(i + 1).last() == l[i as int]);
        }
        let k = t.key_at(i);
        r.insert(label_credential(scripts.contains(k), k), t.value_at(i).dup());
        i += 1;
    }
    proof {
        t.lemma_entries();
        assert(l.take(i as int) =~= l);
    }
    r
}

} // verus!
