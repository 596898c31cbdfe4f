//! What a node reads from raw blocks and addresses.

use vstd::prelude::*;
use crate::ledger::primitives::Hash28;

verus! {

// ---- blocks ----

/// What the node reads from a block.
#[derive(Debug, Clone)]
pub struct ParsedBlock {
    pub slot: u64,
    pub hash: Vec<u8>,
    pub tx_count: usize,
    pub vrf_output: Option<Vec<u8>>,
    /// Whether the VRF output is that of Praos, from Babbage on.
    pub is_praos: bool,
    pub is_conway: bool,
    pub is_byron: bool,
    /// Epoch boundary blocks of the Byron era carry no transactions.
    pub is_ebb: bool,
    /// Proposed block version of a Byron update proposal.
    pub byron_update: Option<(u16, u16, u8)>,
    /// Cold key of the pool that made the block.
    pub issuer_vkey: Option<Vec<u8>>,
}

/// What a parsed block holds.
pub struct BlockModel {
    pub slot: u64,
    pub hash: Seq<u8>,
    pub tx_count: nat,
    pub vrf_output: Option<Seq<u8>>,
    pub is_praos: bool,
    pub is_conway: bool,
    pub is_byron: bool,
    pub is_ebb: bool,
    pub byron_update: Option<(u16, u16, u8)>,
    pub issuer_vkey: Option<Seq<u8>>,
}

pub open spec fn seq_of(v: Option<Vec<u8>>) -> Option<Seq<u8>> {
    match v {
        Some(b) => Some(b@),
        None => None,
    }
}

impl ParsedBlock {
    pub open spec fn view(&self) -> BlockModel {
        BlockModel {
            slot: self.slot,
            hash: self.hash@,
            tx_count: self.tx_count as nat,
            vrf_output: seq_of(self.vrf_output),
            is_praos: self.is_praos,
            is_conway: self.is_conway,
            is_byron: self.is_byron,
            is_ebb: self.is_ebb,
            byron_update: self.byron_update,
            issuer_vkey: seq_of(self.issuer_vkey),
        }
    }
}

/// Where a block stands: in the Byron era by epoch and slot of the epoch, an
/// epoch boundary block by its epoch, later blocks by their slot.
#[derive(Debug, Clone, Copy)]
pub enum BlockPlace {
    Boundary(u64),
    Byron(u64, u64),
    Slot(u64),
}

/// Where a block stands, or why the bytes are no block.
pub uninterp spec fn place_of(bytes: Seq<u8>) -> Result<BlockPlace, Seq<char>>;

pub open spec fn place_view(r: Result<BlockPlace, String>) -> Result<BlockPlace, Seq<char>> {
    match r {
        Ok(p) => Ok(p),
        Err(e) => Err(e@),
    }
}

/// Calls `pallas_traverse::MultiEraBlock::decode` and `header`, and reads epoch
/// and slot as they stand in the header. The error is what the decoder says of
/// the bytes.
#[verifier::external_body]
fn block_place(bytes: &[u8]) -> (r: Result<BlockPlace, String>)
    ensures
        place_view(r) == place_of(bytes@),
{
    let block = pallas_traverse::MultiEraBlock::decode(bytes).map_err(|e| e.to_string())?;
    Ok(match block.header() {
        pallas_traverse::MultiEraHeader::EpochBoundary(h) => BlockPlace::Boundary(h.consensus_data.epoch_id),
        pallas_traverse::MultiEraHeader::Byron(h) => BlockPlace::Byron((h.consensus_data.0).epoch, (h.consensus_data.0).slot),
        pallas_traverse::MultiEraHeader::ShelleyCompatible(h) => BlockPlace::Slot(h.header_body.slot),
        pallas_traverse::MultiEraHeader::BabbageCompatible(h) => BlockPlace::Slot(h.header_body.slot),
    })
}

/// What a block says of itself, its place aside.
pub struct BlockFacts {
    pub hash: Vec<u8>,
    pub tx_count: usize,
    pub vrf_output: Option<Vec<u8>>,
    pub is_praos: bool,
    pub is_conway: bool,
    pub byron_update: Option<(u16, u16, u8)>,
    pub issuer_vkey: Option<Vec<u8>>,
}

pub struct FactsModel {
    pub hash: Seq<u8>,
    pub tx_count: nat,
    pub vrf_output: Option<Seq<u8>>,
    pub is_praos: bool,
    pub is_conway: bool,
    pub byron_update: Option<(u16, u16, u8)>,
    pub issuer_vkey: Option<Seq<u8>>,
}

pub open spec fn facts_view(r: Option<BlockFacts>) -> Option<FactsModel> {
    match r {
        Some(f) => Some(
            FactsModel {
                hash: f.hash@,
                tx_count: f.tx_count as nat,
                vrf_output: seq_of(f.vrf_output),
                is_praos: f.is_praos,
                is_conway: f.is_conway,
                byron_update: f.byron_update,
                issuer_vkey: seq_of(f.issuer_vkey),
            },
        ),
        None => None,
    }
}

/// What a block says of itself, if the bytes are one.
pub uninterp spec fn facts_of(bytes: Seq<u8>) -> Option<FactsModel>;

/// Calls `pallas_traverse::MultiEraBlock::decode` and reads the hash (32
/// bytes), the number of `txs`, whether it is a Conway block and whether it has
/// a header of Babbage or later, the proposed version of a Byron update, the
/// issuer's key, and the VRF output that feeds the nonce (`vrf_result` from
/// Babbage on, `nonce_vrf` before). Epoch boundary blocks have no transactions,
/// no VRF output and no issuer, and Byron blocks no VRF output and no issuer.
/// All of it depends on the bytes alone.
#[verifier::external_body]
fn block_facts(bytes: &[u8]) -> (r: Option<BlockFacts>)
    ensures
        facts_view(r) == facts_of(bytes@),
        r is Some == place_of(bytes@) is Ok,
        r matches Some(f) ==> f.hash@.len() == 32,
        r matches Some(f) ==> (!(place_of(bytes@)->Ok_0 is Slot) ==> f.vrf_output is None && f.issuer_vkey is None),
        r matches Some(f) ==> (place_of(bytes@)->Ok_0 is Boundary ==> f.tx_count == 0 && !f.is_conway
            && f.byron_update is None),
{
    let block = pallas_traverse::MultiEraBlock::decode(bytes).ok()?;
    let header = block.header();
    Some(BlockFacts {
        hash: block.hash().to_vec(),
        tx_count: block.txs().len(),
        vrf_output: header.as_babbage().map(|h| h.header_body.vrf_result.0.to_vec())
            .or_else(|| header.as_alonzo().map(|h| h.header_body.nonce_vrf.0.to_vec())),
        is_praos: header.as_babbage().is_some(),
        is_conway: block.as_conway().is_some(),
        byron_update: block.update().and_then(|u| u.byron_proposed_block_version()),
        issuer_vkey: header.issuer_vkey().map(|k| k.to_vec()),
    })
}

/// The slot of the chain at which a Byron epoch and slot stand, counted as on
/// mainnet: 208 epochs of 21600 slots, and epochs of 432000 slots after them.
pub open spec fn slot_in_epoch(epoch: int, slot: int) -> int {
    if epoch < 208 {
        epoch * 21600 + slot
    } else {
        4492800 + (epoch - 208) * 432000 + slot
    }
}

/// The slot of a block.
pub open spec fn slot_of(p: BlockPlace) -> int {
    match p {
        BlockPlace::Boundary(epoch) => slot_in_epoch(epoch as int, 0),
        BlockPlace::Byron(epoch, slot) => slot_in_epoch(epoch as int, slot as int),
        BlockPlace::Slot(slot) => slot as int,
    }
}

fn find_slot_in_epoch(epoch: u64, slot: u64) -> (r: Option<u64>)
    ensures
        match r {
            Some(x) => x == slot_in_epoch(epoch as int, slot as int),
            None => slot_in_epoch(epoch as int, slot as int) > u64::MAX,
        },
{
    if epoch < 208 {
        (epoch * 21600).checked_add(slot)
    } else {
        let all: u128 = 4492800 + (epoch - 208) as u128 * 432000 + slot as u128;
        if all <= u64::MAX as u128 {
            Some(all as u64)
        } else {
            None
        }
    }
}

/// The slot of a block. There is none where it exceeds its range.
pub fn find_slot(p: &BlockPlace) -> (r: Option<u64>)
    ensures
        match r {
            Some(x) => x == slot_of(*p),
            None => slot_of(*p) > u64::MAX,
        },
{
    match p {
        BlockPlace::Boundary(epoch) => find_slot_in_epoch(*epoch, 0),
        BlockPlace::Byron(epoch, slot) => find_slot_in_epoch(*epoch, *slot),
        BlockPlace::Slot(slot) => Some(*slot),
    }
}

/// A block, given its place and what it says of itself.
pub open spec fn block_model(p: BlockPlace, f: FactsModel) -> BlockModel {
    BlockModel {
        slot: slot_of(p) as u64,
        hash: f.hash,
        tx_count: f.tx_count,
        vrf_output: f.vrf_output,
        is_praos: f.is_praos,
        is_conway: f.is_conway,
        is_byron: p is Byron,
        is_ebb: p is Boundary,
        byron_update: f.byron_update,
        issuer_vkey: f.issuer_vkey,
    }
}

/// Puts a block together. There is none where the slot exceeds its range.
pub fn assemble_block(place: BlockPlace, facts: BlockFacts) -> (r: Option<ParsedBlock>)
    ensures
        match r {
            Some(b) => slot_of(place) <= u64::MAX && b@ == block_model(place, facts_view(Some(facts))->0),
            None => slot_of(place) > u64::MAX,
        },
{
    let slot: u64 = match find_slot(&place) {
        Some(x) => x,
        None => {
            return None;
        },
    };
    let is_byron: bool = match place {
        BlockPlace::Byron(_, _) => true,
        _ => false,
    };
    let is_ebb: bool = match place {
        BlockPlace::Boundary(_) => true,
        _ => false,
    };
    Some(
        ParsedBlock {
            slot,
            hash: facts.hash,
            tx_count: facts.tx_count,
            vrf_output: facts.vrf_output,
            is_praos: facts.is_praos,
            is_conway: facts.is_conway,
            is_byron,
            is_ebb,
            byron_update: facts.byron_update,
            issuer_vkey: facts.issuer_vkey,
        },
    )
}

/// Reads a block. It fails on bytes that are no block of any era, and where the
/// slot exceeds its range.
pub fn parse_block_with_nonce(block_bytes: &[u8]) -> (r: Result<ParsedBlock, String>)
    ensures
        match r {
            Ok(b) => {
                &&& place_of(block_bytes@) matches Ok(p)
                &&& slot_of(p) <= u64::MAX
                &&& facts_of(block_bytes@) matches Some(f)
                &&& b@ == block_model(p, f)
                &&& b.hash@.len() == 32
            },
            Err(e) => match place_of(block_bytes@) {
                Ok(p) => slot_of(p) > u64::MAX && e@ == "Slot out of range"@,
                Err(x) => e@ == "Failed to decode block: "@ + x,
            },
        },
        r matches Ok(b) ==> (b.is_ebb || b.is_byron ==> b.vrf_output is None && b.issuer_vkey is None),
        r matches Ok(b) ==> (b.is_ebb ==> b.tx_count == 0 && !b.is_conway && b.byron_update is None),
{
    let place = match block_place(block_bytes) {
        Ok(p) => p,
        Err(e) => {
            let mut text = "Failed to decode block: ".to_string();
            text.append(e.as_str());
            return Err(text);
        },
    };
    let facts = block_facts(block_bytes);
    assert(facts is Some);
    match assemble_block(place, facts.unwrap()) {
        Some(b) => Ok(b),
        None => Err("Slot out of range".to_string()),
    }
}

/// What BLAKE2b with a 28-byte digest gives for a key.
pub uninterp spec fn key_digest(key: Seq<u8>) -> Seq<u8>;

/// Calls `blake2::Blake2b` with an output of 28 bytes: the digest depends on
/// the input alone.
#[verifier::external_body]
fn digest_key(key: &[u8]) -> (r: [u8; 28])
    ensures
        r@ == key_digest(key@),
{
    <blake2::Blake2b<blake2::digest::consts::U28> as blake2::Digest>::digest(key).into()
}

/// The pool that made a block: the digest of its cold key, which has 32 bytes.
pub fn pool_of_issuer(issuer_vkey: &Option<Vec<u8>>) -> (r: Option<Hash28>)
    ensures
        match r {
            Some(p) => issuer_vkey matches Some(k) && k@.len() == 32 && p@ == key_digest(k@),
            None => !(issuer_vkey matches Some(k) && k@.len() == 32),
        },
{
    match issuer_vkey {
        Some(k) => {
            if k.len() == 32 {
                Some(digest_key(k.as_slice()))
            } else {
                None
            }
        },
        None => None,
    }
}

/// The pool of an issuer as a hash.
pub open spec fn pool_id(issuer: Option<Seq<u8>>) -> Option<Hash28> {
    match issuer {
        Some(k) => if k.len() == 32 {
            Some(choose|p: Hash28| p@ == key_digest(k))
        } else {
            None
        },
        None => None,
    }
}

/// The pool that made a block.
pub fn extract_pool_id_from_block(block: &ParsedBlock) -> (r: Option<Hash28>)
    ensures
        r == pool_id(block@.issuer_vkey),
{
    let r = pool_of_issuer(&block.issuer_vkey);
    proof {
        if let Some(p) = r {
            let k = block@.issuer_vkey->0;
            let q = choose|q: Hash28| q@ == key_digest(k);
            assert(q@ == key_digest(k));
            assert(p =~= q);
        }
    }
    r
}

// ---- hashes ----

/// What BLAKE2b with a 32-byte digest gives for block contents.
pub uninterp spec fn content_digest(data: Seq<u8>) -> Seq<u8>;

/// Calls `pallas_crypto::hash::Hasher::<256>::hash`: a digest of 32 bytes that
/// depends on the input alone.
#[verifier::external_body]
pub(crate) fn digest_content(data: &[u8]) -> (r: Vec<u8>)
    ensures
        r@ == content_digest(data@),
        r@.len() == 32,
{
    pallas_crypto::hash::Hasher::<256>::hash(data).to_vec()
}

/// Calls `pallas_crypto::nonce::generate_rolling_nonce`: the digest of the
/// previous nonce followed by the digest of the VRF output. The function
/// panics on outputs other than 32 or 64 bytes, which are left out.
#[verifier::external_body]
fn next_nonce(previous: &[u8; 32], vrf: &[u8]) -> (r: [u8; 32])
    requires
        vrf@.len() == 32 || vrf@.len() == 64,
    ensures
        r@ == content_digest(previous@ + content_digest(vrf@)),
{
    *pallas_crypto::nonce::generate_rolling_nonce((*previous).into(), vrf)
}

/// The rolling nonce after a block: the first 32 bytes of its VRF output go
/// into it. A shorter output changes nothing; before the first one the nonce
/// counts as all zeros.
pub open spec fn nonce_rolled(nonce: Option<Seq<u8>>, vrf: Option<Seq<u8>>) -> Option<Seq<u8>> {
    match vrf {
        Some(v) => if v.len() >= 32 {
            let previous = match nonce {
                Some(n) => n,
                None => Seq::new(32, |i: int| 0u8),
            };
            Some(content_digest(previous + content_digest(v.take(32))))
        } else {
            nonce
        },
        None => nonce,
    }
}

pub open spec fn nonce_seq(n: Option<[u8; 32]>) -> Option<Seq<u8>> {
    match n {
        Some(h) => Some(h@),
        None => None,
    }
}

fn first_32(v: &Vec<u8>) -> (r: Vec<u8>)
    requires
        v@.len() >= 32,
    ensures
        r@ == v@.take(32),
{
    let mut r: Vec<u8> = Vec::new();
    let mut i: usize = 0;
    while i < 32
        invariant
            i <= 32,
            v@.len() >= 32,
            r@ == v@.take(i as int),
        decreases 32 - i,
    {
        r.push(v[i]);
        assert(v@.take(i + 1) =~= v@.take(i as int).push(v@[i as int]));
        i += 1;
    }
    r
}

/// The rolling nonce after a block.
pub fn roll_nonce(nonce: &Option<[u8; 32]>, vrf_output: &Option<Vec<u8>>) -> (r: Option<[u8; 32]>)
    ensures
        nonce_seq(r) == nonce_rolled(nonce_seq(*nonce), seq_of(*vrf_output)),
{
    match vrf_output {
        Some(v) => {
            if v.len() < 32 {
                return *nonce;
            }
            let head = first_32(v);
            let zero: [u8; 32] = [0u8; 32];
            assert(zero@ =~= Seq::new(32, |i: int| 0u8));
            let previous: [u8; 32] = match nonce {
                Some(n) => *n,
                None => zero,
            };
            Some(next_nonce(&previous, head.as_slice()))
        },
        None => *nonce,
    }
}

// ---- addresses ----

/// The hash of the delegation part of an address, which may have none; or why
/// the bytes are no address.
pub uninterp spec fn delegation_of(address: Seq<u8>) -> Result<Option<Seq<u8>>, Seq<char>>;

pub open spec fn delegation_view(r: Result<Option<Vec<u8>>, String>) -> Result<Option<Seq<u8>>, Seq<char>> {
    match r {
        Ok(h) => Ok(seq_of(h)),
        Err(e) => Err(e@),
    }
}

/// Calls `pallas_addresses::Address::from_bytes` and takes the hash of the
/// delegation part of a Shelley address, a key's or a script's. The result
/// depends on the bytes alone, and the error is what the function says of them.
/// Base addresses (types 0 to 3) need 57 bytes, and their hash is the last 28
/// of them; enterprise addresses (types 6 and 7) need 29 bytes and have no
/// hash; empty input and types 9 to 13 are refused.
#[verifier::external_body]
fn delegation_part(address: &[u8]) -> (r: Result<Option<Vec<u8>>, String>)
    ensures
        delegation_view(r) == delegation_of(address@),
        r matches Ok(Some(h)) ==> h@.len() == 28,
        address@.len() == 0 ==> r is Err,
        address@.len() > 0 && address@[0] / 16 <= 3 ==> if address@.len() >= 57 {
            r matches Ok(Some(h)) && h@ == address@.subrange(29, 57)
        } else {
            r is Err
        },
        address@.len() > 0 && (address@[0] / 16 == 6 || address@[0] / 16 == 7) ==> if address@.len() >= 29 {
            r matches Ok(None)
        } else {
            r is Err
        },
        address@.len() > 0 && 9 <= address@[0] / 16 <= 13 ==> r is Err,
{
    match pallas_addresses::Address::from_bytes(address) {
        Ok(pallas_addresses::Address::Shelley(a)) => Ok(match a.delegation() {
            pallas_addresses::ShelleyDelegationPart::Key(h) => Some(h.to_vec()),
            pallas_addresses::ShelleyDelegationPart::Script(h) => Some(h.to_vec()),
            _ => None,
        }),
        Ok(_) => Ok(None),
        Err(e) => Err(e.to_string()),
    }
}

/// The stake credential of an address, without a tag. It fails on bytes that
/// are no address.
pub fn extract_stake_credential(address: &[u8]) -> (r: Result<Option<Vec<u8>>, String>)
    ensures
        match r {
            Ok(h) => delegation_of(address@) == Ok::<Option<Seq<u8>>, Seq<char>>(seq_of(h)),
            Err(e) => delegation_of(address@) matches Err(x) && e@ == "Failed to parse address: "@ + x,
        },
        r matches Ok(Some(h)) ==> h@.len() == 28,
        address@.len() > 0 && address@[0] / 16 <= 3 && address@.len() >= 57 ==> (r matches Ok(Some(h)) && h@
            == address@.subrange(29, 57)),
        address@.len() > 0 && (address@[0] / 16 == 6 || address@[0] / 16 == 7) && address@.len() >= 29 ==> r == Ok::<
            Option<Vec<u8>>,
            String,
        >(None),
        address@.len() == 0 ==> r is Err,
{
    match delegation_part(address) {
        Ok(h) => Ok(h),
        Err(e) => {
            let mut text = "Failed to parse address: ".to_string();
            text.append(e.as_str());
            Err(text)
        },
    }
}

} // verus!
