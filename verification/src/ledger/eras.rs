//! What differs between eras.

use vstd::prelude::*;
use crate::ledger::nonce::{hash, hash_of};
use crate::ledger::primitives::{Certificate, Hash28, Hash32, Lovelace};
use crate::ledger::state::{account_key, LedgerState};
use crate::node::header::{extract_pool_id_from_block, pool_id, ParsedBlock};
use crate::node::pieces::{account_amounts, certificates, certs_of, head_of, tx_head};
use crate::node::txs::{certs_read, certs_readable, find_certs, undecoded};

verus! {

/// The fee that a transaction names, or zero where it names none.
pub open spec fn fee_named(fee: Option<u64>) -> Lovelace {
    match fee {
        Some(f) => Lovelace(f),
        None => Lovelace(0),
    }
}

/// The fee of a transaction that may name none.
pub fn fee_or_nothing(fee: Option<u64>) -> (r: Lovelace)
    ensures
        r == fee_named(fee),
{
    match fee {
        Some(f) => Lovelace(f),
        None => Lovelace(0),
    }
}

/// The fee of a transaction, given its era and its encoding. Byron
/// transactions name none.
pub fn extract_tx_fee(era: u16, tx: &[u8]) -> (r: Result<Lovelace, String>)
    ensures
        match r {
            Ok(l) => head_of(era, tx@) matches Some(h) && l == fee_named(h.fee),
            Err(e) => head_of(era, tx@) is None && e@ == "Failed to decode transaction"@,
        },
{
    match tx_head(era, tx) {
        Some(h) => Ok(fee_or_nothing(h.fee)),
        None => Err(undecoded()),
    }
}

/// The pool that made a block. Byron blocks come from none.
pub fn extract_pool_id(block: &ParsedBlock) -> (r: Option<Hash28>)
    ensures
        r == if block.is_byron || block.is_ebb {
            None
        } else {
            pool_id(block@.issuer_vkey)
        },
{
    if block.is_byron || block.is_ebb {
        return None;
    }
    extract_pool_id_from_block(block)
}

/// What a VRF output adds to the nonce: its digest, from Babbage on with an
/// `N` before it.
pub open spec fn nonce_contribution(praos: bool, vrf: Seq<u8>) -> Hash32 {
    if praos {
        hash_of(seq![78u8] + vrf)
    } else {
        hash_of(vrf)
    }
}

/// What a block adds to the nonce. Byron blocks, and blocks without a VRF
/// output, add nothing.
pub fn extract_block_nonce(block: &ParsedBlock) -> (r: Option<Hash32>)
    ensures
        r == match block@.vrf_output {
            Some(v) => if block.is_byron || block.is_ebb {
                None
            } else {
                Some(nonce_contribution(block.is_praos, v))
            },
            None => None,
        },
{
    if block.is_byron || block.is_ebb {
        return None;
    }
    match &block.vrf_output {
        Some(v) => {
            if !block.is_praos {
                return Some(hash(v.as_slice()));
            }
            let mut data: Vec<u8> = vec![78u8];
            let mut i: usize = 0;
            while i < v.len()
                invariant
                    i <= v@.len(),
                    data@ == seq![78u8] + v@.take(i as int),
                decreases v@.len() - i,
            {
                data.push(v[i]);
                assert(v@.take(i + 1) =~= v@.take(i as int).push(v@[i as int]));
                i += 1;
            }
            assert(v@.take(i as int) =~= v@);
            Some(hash(data.as_slice()))
        },
        None => None,
    }
}

/// The certificates of a transaction, given its era and its encoding. Byron
/// transactions have none.
pub fn extract_certificates(era: u16, tx: &[u8]) -> (r: Result<Vec<Certificate>, String>)
    ensures
        match r {
            Ok(l) => certs_of(era, tx@) matches Some(b) && certs_readable(era == 7, b) && certs_read(era == 7, b, l@),
            Err(e) => e@ == "Failed to decode transaction"@ && !(certs_of(era, tx@) matches Some(b)
                && certs_readable(era == 7, b)),
        },
{
    match certificates(era, tx) {
        Some(l) => match find_certs(era == 7, &l) {
            Some(v) => Ok(v),
            None => Err(undecoded()),
        },
        None => Err(undecoded()),
    }
}

/// Withdrawals by the credential hashes of their accounts.
pub open spec fn withdrawals_from(l: Seq<(Seq<u8>, u64)>) -> Seq<(Hash32, Lovelace)> {
    Seq::new(l.len(), |i: int| (account_key(l[i].0), Lovelace(l[i].1)))
}

/// The withdrawals of a transaction, given its era and its encoding: the
/// credential hash of each reward account, and the amount.
pub fn extract_withdrawals(era: u16, tx: &[u8]) -> (r: Result<Vec<(Hash32, Lovelace)>, String>)
    ensures
        match r {
            Ok(l) => head_of(era, tx@) matches Some(h) && l@ == withdrawals_from(h.withdrawals),
            Err(e) => head_of(era, tx@) is None && e@ == "Failed to decode transaction"@,
        },
{
    let head = match tx_head(era, tx) {
        Some(h) => h,
        None => {
            return Err(undecoded());
        },
    };
    let ghost s = withdrawals_from(account_amounts(head.withdrawals@));
    let mut r: Vec<(Hash32, Lovelace)> = Vec::new();
    let mut i: usize = 0;
    while i < head.withdrawals.len()
        invariant
            i <= head.withdrawals@.len(),
            s == withdrawals_from(account_amounts(head.withdrawals@)),
            r@ == s.take(i as int),
        decreases head.withdrawals@.len() - i,
    {
        let w: &(Vec<u8>, u64) = &head.withdrawals[i];
        r.push((LedgerState::reward_account_to_hash(w.0.as_slice()), Lovelace(w.1)));
        assert(r@ =~= s.take(i + 1));
        i += 1;
    }
    assert(s.take(i as int) =~= s);
    Ok(r)
}

/// The era of a major protocol version.
pub open spec fn era_chars(major: u64) -> Seq<char> {
    if major <= 1 {
        "Byron"@
    } else if major == 2 {
        "Shelley"@
    } else if major == 3 {
        "Allegra"@
    } else if major == 4 {
        "Mary"@
    } else if major <= 6 {
        "Alonzo"@
    } else if major <= 8 {
        "Babbage"@
    } else if major <= 11 {
        "Conway"@
    } else if major == 12 {
        "Dijkstra"@
    } else {
        "Unknown"@
    }
}

/// The name of the era of a major protocol version.
pub fn era_name(protocol_version_major: u64) -> (r: &'static str)
    ensures
        r@ == era_chars(protocol_version_major),
{
    match protocol_version_major {
        0 => "Byron",
        1 => "Byron",
        2 => "Shelley",
        3 => "Allegra",
        4 => "Mary",
        5 => "Alonzo",
        6 => "Alonzo",
        7 => "Babbage",
        8 => "Babbage",
        9 => "Conway",
        10 => "Conway",
        11 => "Conway",
        12 => "Dijkstra",
        _ => "Unknown",
    }
}

/// The name of the era in epoch dumps, where every version from 12 on is
/// called Dijkstra.
pub fn snapshot_era_name(protocol_version_major: u64) -> (r: &'static str)
    ensures
        r@ == if protocol_version_major >= 12 {
            "Dijkstra"@
        } else {
            era_chars(protocol_version_major)
        },
{
    if protocol_version_major >= 12 {
        "Dijkstra"
    } else {
        era_name(protocol_version_major)
    }
}

/// A fee that is named is the fee; without one there is none.
pub proof fn law_fee_named(f: u64)
    ensures
        fee_named(Some(f)).0 == f,
        fee_named(None).0 == 0,
{
}

/// A VRF output contributes its digest; from Babbage on with an `N` before it.
pub proof fn law_contribution(vrf: Seq<u8>, h: Hash32)
    ensures
        h@ == crate::ledger::nonce::blake2b_256_of(vrf) ==> nonce_contribution(false, vrf) == h,
        h@ == crate::ledger::nonce::blake2b_256_of(seq![0x4eu8] + vrf) ==> nonce_contribution(true, vrf) == h,
{
    if h@ == crate::ledger::nonce::blake2b_256_of(vrf) {
        assert(hash_of(vrf)@ == h@);
        assert(hash_of(vrf) =~= h);
    }
    if h@ == crate::ledger::nonce::blake2b_256_of(seq![0x4eu8] + vrf) {
        assert(hash_of(seq![78u8] + vrf)@ == h@);
        assert(hash_of(seq![78u8] + vrf) =~= h);
    }
}

/// Withdrawals are listed by the credentials of their accounts, in their order.
pub proof fn law_withdrawals_from(l: Seq<(Seq<u8>, u64)>, i: int)
    ensures
        withdrawals_from(l).len() == l.len(),
        0 <= i < l.len() ==> withdrawals_from(l)[i].0 == account_key(l[i].0) && withdrawals_from(l)[i].1.0 == l[i].1,
{
}

} // verus!
