//! The names of dump files.

use vstd::prelude::*;
use crate::dump::state::dumped;
use crate::ledger::state::LedgerModel;
use crate::text::{
    all_digits, chars_of, decimal, decimal_chars, ends_with, is_digit, has_prefix, has_suffix, law_decimal_read_back, parse_part, parsed,
    starts_with,
};

verus! {

/// A text up to its first hyphen.
pub open spec fn before_hyphen(s: Seq<char>) -> Seq<char>
    decreases s.len(),
{
    if s.len() == 0 {
        s
    } else if before_hyphen(s.drop_last()).len() < s.len() - 1 || s.last() == '-' {
        before_hyphen(s.drop_last())
    } else {
        s
    }
}

proof fn lemma_before_hyphen(s: Seq<char>, i: int)
    requires
        0 <= i < s.len(),
        s[i] == '-',
        before_hyphen(s.take(i)) == s.take(i),
    ensures
        before_hyphen(s) == s.take(i),
    decreases s.len() - i,
{
    assert(s.drop_last().take(i) =~= s.take(i));
    if i == s.len() - 1 {
        assert(s.drop_last() =~= s.take(i));
    } else {
        lemma_before_hyphen(s.drop_last(), i);
    }
}

/// The epoch of a dump that a Haskell node wrote: `{epoch}-{slot}.json`.
pub open spec fn haskell_epoch_of(s: Seq<char>) -> Option<u64> {
    if has_suffix(s, ".json"@) {
        parsed(before_hyphen(s.take(s.len() - ".json"@.len())))
    } else {
        None
    }
}

/// The epoch of a dump of a Haskell node, by its file name.
pub fn haskell_epoch(name: &str) -> (r: Option<u64>)
    ensures
        r == haskell_epoch_of(name@),
{
    if !ends_with(name, ".json") {
        return None;
    }
    let v = chars_of(name);
    let n: usize = v.len() - ".json".unicode_len();
    let ghost s = name@.take(n as int);
    let mut i: usize = 0;
    while i < n
        invariant
            i <= n,
            n <= v@.len(),
            v@ == name@,
            s == name@.take(n as int),
            n == name@.len() - ".json"@.len(),
            has_suffix(name@, ".json"@),
            before_hyphen(s.take(i as int)) == s.take(i as int),
        decreases n - i,
    {
        if v[i] == '-' {
            proof {
                lemma_before_hyphen(s, i as int);
                assert(v@.subrange(0, i as int) =~= s.take(i as int));
            }
            return parse_part(&v, 0, i);
        }
        proof {
            assert(s.take(i + 1).drop_last() =~= s.take(i as int));
            assert(s.take(i + 1).last() == v@[i as int]);
        }
        i += 1;
    }
    proof {
        assert(s.take(i as int) =~= s);
        assert(v@.subrange(0, n as int) =~= s);
    }
    parse_part(&v, 0, n)
}

/// The epoch of a dump of this node: `{epoch}-hayate.json`.
pub open spec fn hayate_epoch_of(s: Seq<char>) -> Option<u64> {
    if has_suffix(s, "-hayate.json"@) {
        parsed(s.take(s.len() - "-hayate.json"@.len()))
    } else {
        None
    }
}

/// The epoch of a dump of this node, by its file name.
pub fn hayate_epoch(name: &str) -> (r: Option<u64>)
    ensures
        r == hayate_epoch_of(name@),
{
    if !ends_with(name, "-hayate.json") {
        return None;
    }
    let v = chars_of(name);
    let n: usize = v.len() - "-hayate.json".unicode_len();
    assert(v@.subrange(0, n as int) =~= name@.take(n as int));
    parse_part(&v, 0, n)
}

/// Whether a file is the Haskell dump of an epoch.
pub open spec fn is_dump_of(s: Seq<char>, epoch: u64) -> bool {
    has_prefix(s, decimal_chars(epoch as nat).push('-')) && has_suffix(s, ".json"@)
}

/// The first file of a directory that is the dump of an epoch.
pub open spec fn dump_index(l: Seq<String>, epoch: u64) -> Option<int>
    decreases l.len(),
{
    if l.len() == 0 {
        None
    } else {
        match dump_index(l.drop_last(), epoch) {
            Some(i) => Some(i),
            None => if is_dump_of(l.last()@, epoch) {
                Some(l.len() - 1)
            } else {
                None
            },
        }
    }
}

proof fn lemma_dump_index(l: Seq<String>, epoch: u64, i: int)
    requires
        0 <= i <= l.len(),
        dump_index(l.take(i), epoch) is Some,
    ensures
        dump_index(l, epoch) == dump_index(l.take(i), epoch),
    decreases l.len() - i,
{
    if i == l.len() {
        assert(l.take(i) =~= l);
    } else {
        assert(l.take(i + 1).drop_last() =~= l.take(i));
        lemma_dump_index(l, epoch, i + 1);
    }
}

/// Finds the Haskell dump of an epoch among the files of a directory.
pub fn find_haskell_dump(names: &Vec<String>, epoch: u64) -> (r: Option<usize>)
    ensures
        match r {
            Some(i) => i < names@.len() && dump_index(names@, epoch) == Some(i as int),
            None => dump_index(names@, epoch) is None,
        },
{
    let mut prefix = decimal(epoch);
    prefix.append("-");
    proof {
        reveal_strlit("-");
        assert(prefix@ =~= decimal_chars(epoch as nat).push('-'));
    }
    let mut i: usize = 0;
    while i < names.len()
        invariant
            i <= names@.len(),
            prefix@ == decimal_chars(epoch as nat).push('-'),
            dump_index(names@.take(i as int), epoch) is None,
        decreases names@.len() - i,
    {
        proof {
            assert(names@.take(i + 1).drop_last() =~= names@.take(i as int));
            assert(names@.take(i + 1).last() == names@[i as int]);
        }
        if starts_with(names[i].as_str(), prefix.as_str()) && ends_with(names[i].as_str(), ".json") {
            proof {
                lemma_dump_index(names@, epoch, i + 1);
            }
            return Some(i);
        }
        i += 1;
    }
    assert(names@.take(i as int) =~= names@);
    None
}

/// A dump is recognised by the name that it was written under.
pub proof fn law_dump_file_found(s: LedgerModel, slot: u64)
    ensures
        hayate_epoch_of(dumped(s, slot).file) == Some(s.epoch.0),
{
    let digits = decimal_chars(s.epoch.0 as nat);
    let f = dumped(s, slot).file;
    law_decimal_read_back(s.epoch.0);
    assert(f.skip(f.len() - "-hayate.json"@.len()) =~= "-hayate.json"@);
    assert(f.take(f.len() - "-hayate.json"@.len()) =~= digits);
}

proof fn lemma_digits_plain(s: Seq<char>)
    requires
        all_digits(s),
    ensures
        before_hyphen(s) == s,
    decreases s.len(),
{
    if s.len() > 0 {
        let t = s.drop_last();
        assert(all_digits(t)) by {
            assert forall|i: int| #![trigger t[i]] 0 <= i < t.len() implies is_digit(t[i]) by {
                assert(t[i] == s[i]);
            }
        }
        lemma_digits_plain(t);
        assert(is_digit(s[s.len() - 1]));
    }
}

/// The dump that a Haskell node wrote for an epoch is recognised as that of the
/// epoch, whatever slot it names.
pub proof fn law_haskell_file_found(epoch: u64, slot: Seq<char>)
    ensures
        haskell_epoch_of(decimal_chars(epoch as nat) + "-"@ + slot + ".json"@) == Some(epoch),
        is_dump_of(decimal_chars(epoch as nat) + "-"@ + slot + ".json"@, epoch),
{
    reveal_strlit("-");
    let digits = decimal_chars(epoch as nat);
    let s = digits + "-"@ + slot + ".json"@;
    let body = digits + "-"@ + slot;
    law_decimal_read_back(epoch);
    lemma_digits_plain(digits);
    assert(s.skip(s.len() - ".json"@.len()) =~= ".json"@);
    assert(s.take(s.len() - ".json"@.len()) =~= body);
    assert(body[digits.len() as int] == '-');
    assert(body.take(digits.len() as int) =~= digits);
    lemma_before_hyphen(body, digits.len() as int);
    assert(s.take(digits.len() as int + 1) =~= digits.push('-'));
}

/// The dump of an epoch is the first file in a directory whose name is that of
/// one.
pub proof fn law_first_dump(l: Seq<String>, epoch: u64)
    ensures
        match dump_index(l, epoch) {
            Some(i) => 0 <= i < l.len() && is_dump_of(l[i]@, epoch) && forall|j: int|
                #![trigger l[j]]
                0 <= j < i ==> !is_dump_of(l[j]@, epoch),
            None => forall|j: int| #![trigger l[j]] 0 <= j < l.len() ==> !is_dump_of(l[j]@, epoch),
        },
    decreases l.len(),
{
    if l.len() > 0 {
        let k = l.drop_last();
        law_first_dump(k, epoch);
        assert(l.last() == l[l.len() - 1]);
        assert forall|j: int| #![trigger l[j]] 0 <= j < k.len() implies l[j] == k[j] by {}
    }
}

} // verus!
