//! The nonces of the protocol (TICKN rule).

use vstd::prelude::*;
use crate::item::same_bytes;
use crate::ledger::primitives::{sat_add, Hash32};
use crate::ledger::state::{byron_slots, epoch_at, in_byron, zero_hash, LedgerModel, LedgerState};

verus! {

/// What BLAKE2b with a 32-byte digest gives for some bytes.
pub uninterp spec fn blake2b_256_of(data: Seq<u8>) -> Seq<u8>;

/// Calls `cryptoxide::blake2b::Blake2b` without a key and with an output of 32
/// bytes: the digest depends on the input alone.
#[verifier::external_body]
pub fn blake2b_256(data: &[u8]) -> (r: Hash32)
    ensures
        r@ == blake2b_256_of(data@),
{
    let mut hasher = cryptoxide::blake2b::Blake2b::new(32);
    cryptoxide::digest::Digest::input(&mut hasher, data);
    let mut result = [0u8; 32];
    cryptoxide::digest::Digest::result(&mut hasher, &mut result);
    result
}

/// The digest as a hash.
pub open spec fn hash_of(data: Seq<u8>) -> Hash32 {
    choose|h: Hash32| h@ == blake2b_256_of(data)
}

pub(crate) fn hash(data: &[u8]) -> (r: Hash32)
    ensures
        r == hash_of(data@),
{
    let r = blake2b_256(data);
    proof {
        let h = hash_of(data@);
        assert(h@ == blake2b_256_of(data@));
        assert(r =~= h);
    }
    r
}

/// A hash with bytes behind it.
fn join(a: &Hash32, b: &[u8]) -> (r: Vec<u8>)
    ensures
        r@ == a@ + b@,
{
    let mut r: Vec<u8> = vstd::slice::slice_to_vec(a.as_slice());
    let mut i: usize = 0;
    while i < b.len()
        invariant
            i <= b@.len(),
            r@ == a@ + b@.take(i as int),
        decreases b@.len() - i,
    {
        r.push(b[i]);
        assert(b@.take(i + 1) =~= b@.take(i as int).push(b@[i as int]));
        i += 1;
    }
    assert(b@.take(i as int) =~= b@);
    r
}

/// Two nonces in one. The neutral nonce, all zeros, changes nothing.
pub open spec fn combined(a: Hash32, b: Hash32) -> Hash32 {
    if a == zero_hash() {
        b
    } else if b == zero_hash() {
        a
    } else {
        hash_of(a@ + b@)
    }
}

fn is_zero(h: &Hash32) -> (r: bool)
    ensures
        r == (*h == zero_hash()),
{
    let zero: Hash32 = [0u8; 32];
    let r: bool = same_bytes(h.as_slice(), zero.as_slice());
    proof {
        assert(zero =~= zero_hash());
        if r {
            assert(*h =~= zero);
        }
    }
    r
}

/// The ledger with the nonce of a new epoch: the candidate nonce with the LAB
/// nonce of the previous boundary; then the LAB nonce is kept for the next one.
pub open spec fn nonce_ticked(s: LedgerModel) -> LedgerModel {
    LedgerModel {
        epoch_nonce: combined(s.candidate_nonce, s.last_epoch_block_nonce),
        last_epoch_block_nonce: s.lab_nonce,
        ..s
    }
}

/// The evolving nonce with the contribution of a block.
pub open spec fn evolved(nonce: Hash32, eta: Seq<u8>) -> Hash32 {
    hash_of(nonce@ + eta)
}

/// First slot of an epoch.
pub open spec fn first_slot(s: LedgerModel, epoch: u64) -> nat {
    if epoch < s.shelley_transition_epoch {
        epoch as nat * s.byron_epoch_length as nat
    } else {
        s.shelley_transition_epoch as nat * s.byron_epoch_length as nat + (epoch - s.shelley_transition_epoch) as nat
            * s.epoch_length as nat
    }
}

/// Whether the candidate nonce no longer follows the evolving nonce at a slot:
/// the end of the epoch is no further away than the stabilisation window.
pub open spec fn frozen(s: LedgerModel, slot: u64) -> bool {
    sat_add(slot, s.randomness_stabilisation_window) >= first_slot(s, sat_add(s.epoch.0, 1))
}

impl LedgerState {
    /// Computes the nonce of a new epoch.
    pub fn compute_epoch_nonce(&mut self)
        ensures
            final(self)@ == nonce_ticked(old(self)@),
    {
        let ghost start = self@;
        let candidate: Hash32 = self.candidate_nonce;
        let previous: Hash32 = self.last_epoch_block_nonce;
        self.epoch_nonce = if is_zero(&candidate) {
            previous
        } else if is_zero(&previous) {
            candidate
        } else {
            hash(join(&candidate, previous.as_slice()).as_slice())
        };
        self.last_epoch_block_nonce = self.lab_nonce;
        assert(self@ =~= nonce_ticked(start));
    }

    /// Adds the contribution of a block to the evolving nonce: the digest of
    /// the nonce with the contribution behind it. How the contribution comes
    /// from the VRF output of a block depends on the era and is up to the
    /// caller; it is not hashed here.
    pub fn update_evolving_nonce(&mut self, nonce_eta: &[u8])
        ensures
            final(self)@ == (LedgerModel {
                evolving_nonce: evolved(old(self)@.evolving_nonce, nonce_eta@),
                ..old(self)@
            }),
    {
        self.evolving_nonce = hash(join(&self.evolving_nonce, nonce_eta).as_slice());
    }

    /// Lets the candidate nonce follow the evolving nonce, unless it is frozen.
    pub fn update_candidate_nonce(&mut self, current_slot: u64)
        requires
            first_slot(old(self)@, sat_add(old(self)@.epoch.0, 1)) <= u64::MAX,
        ensures
            final(self)@ == if frozen(old(self)@, current_slot) {
                old(self)@
            } else {
                LedgerModel { candidate_nonce: old(self)@.evolving_nonce, ..old(self)@ }
            },
    {
        let end: u64 = self.first_slot_of_next_epoch();
        if current_slot.saturating_add(self.randomness_stabilisation_window) < end {
            self.candidate_nonce = self.evolving_nonce;
        }
    }

    /// The LAB nonce is the previous hash of the last applied block.
    pub fn update_lab_nonce(&mut self, block_prev_hash: Hash32)
        ensures
            final(self)@ == (LedgerModel { lab_nonce: block_prev_hash, ..old(self)@ }),
    {
        self.lab_nonce = block_prev_hash;
    }

    fn first_slot_of_next_epoch(&self) -> (r: u64)
        requires
            first_slot(self@, sat_add(self@.epoch.0, 1)) <= u64::MAX,
        ensures
            r == first_slot(self@, sat_add(self@.epoch.0, 1)),
    {
        self.first_slot_of_epoch(self.epoch.0.saturating_add(1))
    }

    /// First slot of an epoch.
    pub fn first_slot_of_epoch(&self, epoch: u64) -> (r: u64)
        requires
            first_slot(self@, epoch) <= u64::MAX,
        ensures
            r == first_slot(self@, epoch),
    {
        if epoch < self.shelley_transition_epoch {
            epoch * self.byron_epoch_length
        } else {
            let passed: u64 = epoch - self.shelley_transition_epoch;
            proof {
                let t = self.shelley_transition_epoch;
                let b = self.byron_epoch_length;
                let l = self.epoch_length;
                assert(t * b >= 0 && passed * l >= 0) by (nonlinear_arith)
                    requires
                        t >= 0,
                        b >= 0,
                        passed >= 0,
                        l >= 0,
                ;
            }
            self.shelley_transition_epoch * self.byron_epoch_length + passed * self.epoch_length
        }
    }
}

// ---- laws ----

/// The neutral nonce combined with another leaves it as it is, from either
/// side.
pub proof fn law_neutral_nonce(n: Hash32)
    ensures
        combined(zero_hash(), n) == n,
        combined(n, zero_hash()) == n,
{
}

/// Once the candidate nonce is frozen in an epoch it stays frozen to its end.
pub proof fn law_freeze_lasts(s: LedgerModel, slot: u64, later: u64)
    requires
        frozen(s, slot),
        slot <= later,
    ensures
        frozen(s, later),
{
}

/// The first slot of an epoch belongs to it, on a chain whose eras have epoch
/// lengths and that starts with Shelley epoch zero where it has no Byron era.
pub proof fn law_first_slot_in_epoch(s: LedgerModel, epoch: u64)
    requires
        s.epoch_length > 0,
        s.byron_epoch_length > 0,
        s.has_byron || s.shelley_transition_epoch == 0,
        s.shelley_transition_epoch == u64::MAX || s.byron_epoch_length * s.shelley_transition_epoch <= u64::MAX,
        first_slot(s, epoch) <= u64::MAX,
    ensures
        epoch_at(s, first_slot(s, epoch) as u64) == epoch,
{
    let bl = s.byron_epoch_length as int;
    let l = s.epoch_length as int;
    let t = s.shelley_transition_epoch as int;
    assert(t * bl == bl * t && epoch as int * bl == bl * epoch as int) by (nonlinear_arith);
    if epoch < s.shelley_transition_epoch {
        vstd::arithmetic::div_mod::lemma_div_multiples_vanish(epoch as int, bl);
        assert(bl * (epoch as int) < bl * t) by (nonlinear_arith)
            requires
                bl > 0,
                epoch < t,
        ;
        assert(first_slot(s, epoch) == bl * (epoch as int));
        assert(in_byron(s, first_slot(s, epoch) as u64));
    } else {
        let q = epoch - t;
        vstd::arithmetic::div_mod::lemma_div_multiples_vanish(q, l);
        vstd::arithmetic::div_mod::lemma_div_multiples_vanish(epoch as int, bl);
        assert(q * l == l * q) by (nonlinear_arith);
        assert(q * l >= 0) by (nonlinear_arith)
            requires
                q >= 0,
                l > 0,
        ;
        assert(first_slot(s, epoch) == bl * t + l * q);
        if s.has_byron {
            if t == u64::MAX {
                assert(l * q == 0) by (nonlinear_arith)
                    requires
                        q == 0,
                ;
            } else {
                assert(byron_slots(s) == bl * t);
            }
        } else {
            assert(bl * t == 0) by (nonlinear_arith)
                requires
                    t == 0,
            ;
        }
    }
}

} // verus!
