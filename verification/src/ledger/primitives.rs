//! The plain values that the ledger is made of.

use vstd::prelude::*;
use crate::hexa::encode_hex;
use crate::item::{
    byte_code, lemma_byte_code_injective, lemma_lex_differ, lemma_lex_irreflexive, lex_lt, rank_bytes, Item, Key, Rank,
};
use crate::text::decimal;

verus! {

/// 28-byte hash (pool id, stake key hash).
pub type Hash28 = [u8; 28];

/// 32-byte hash (transaction hash, block hash, credential hash).
pub type Hash32 = [u8; 32];

/// The first 28 bytes of `h` and then zeros.
pub open spec fn padded(h: Seq<u8>) -> Seq<u8> {
    Seq::new(32, |i: int| if i < 28 { h[i] } else { 0u8 })
}

/// The 32 bytes that start with 28 given ones, and then a tag and zeros.
pub fn hash32_tagged(bytes: &[u8], from: usize, tag: u8) -> (r: Hash32)
    requires
        from + 28 <= bytes@.len(),
    ensures
        r@ == padded(bytes@.subrange(from as int, from + 28)).update(28, tag),
{
    let mut r: Hash32 = [0u8; 32];
    let mut i: usize = 0;
    let n: usize = bytes.len();
    while i < 28
        invariant
            i <= 28,
            n == bytes@.len(),
            from + 28 <= n,
            forall|j: int| 0 <= j < i ==> r@[j] == bytes@[from + j],
            forall|j: int| i <= j < 32 ==> r@[j] == 0,
        decreases 28 - i,
    {
        r[i] = bytes[from + i];
        i += 1;
    }
    r[28] = tag;
    assert(r@ =~= padded(bytes@.subrange(from as int, from + 28)).update(28, tag));
    r
}

/// The 32 bytes that start with 28 given ones and go on with zeros.
pub fn hash32_padded(bytes: &[u8], from: usize) -> (r: Hash32)
    requires
        from + 28 <= bytes@.len(),
    ensures
        r@ == padded(bytes@.subrange(from as int, from + 28)),
{
    let r = hash32_tagged(bytes, from, 0);
    assert(r@ =~= padded(bytes@.subrange(from as int, from + 28)));
    r
}

/// Any 32 bytes are a hash.
pub proof fn lemma_hash_exists(s: Seq<u8>)
    requires
        s.len() == 32,
    ensures
        exists|h: Hash32| h@ == s,
{
    let h: Hash32 = vstd::array::spec_array_fill_for_copy_type::<u8, 32>(0u8);
    assert(h@.take(0) =~= s.take(0));
    lemma_hash_updates(s, h, 0);
}

proof fn lemma_hash_updates(s: Seq<u8>, h: Hash32, i: int)
    requires
        s.len() == 32,
        0 <= i <= 32,
        h@.take(i) == s.take(i),
    ensures
        exists|g: Hash32| g@ == s,
    decreases 32 - i,
{
    if i == 32 {
        assert(h@.take(32) =~= h@);
        assert(s.take(32) =~= s);
    } else {
        let g = vstd::array::spec_array_update(h, i, s[i]);
        assert(g@ == h@.update(i, s[i]));
        let a = g@.take(i + 1);
        let b = s.take(i + 1);
        assert forall|k: int| #![trigger a[k]] 0 <= k < i + 1 implies a[k] == b[k] by {
            if k < i {
                assert(h@.take(i)[k] == s.take(i)[k]);
            }
        }
        assert(a =~= b);
        lemma_hash_updates(s, g, i + 1);
    }
}

/// The first 28 of some bytes and then zeros, as a hash.
pub open spec fn padded_key(bytes: Seq<u8>) -> Hash32 {
    choose|h: Hash32| h@ == padded(bytes)
}

/// Part of some bytes as a padded hash.
pub fn pad_key(bytes: &[u8], from: usize) -> (r: Hash32)
    requires
        from + 28 <= bytes@.len(),
    ensures
        r == padded_key(bytes@.subrange(from as int, from + 28)),
{
    let r = hash32_padded(bytes, from);
    proof {
        let b = bytes@.subrange(from as int, from + 28);
        let k = padded_key(b);
        assert(k@ == padded(b));
        assert(r =~= k);
    }
    r
}

/// Conversions of a 28-byte hash.
pub trait Hash28Ext {
    spec fn hash28(&self) -> Seq<u8>;

    /// The hash with four zero bytes behind it.
    fn to_hash32_padded(&self) -> (r: Hash32)
        ensures
            r@ == padded(self.hash28()),
    ;

    /// The hash in hexadecimal.
    fn to_hex(&self) -> (r: String)
        ensures
            r@ == crate::hexa::hex_chars(self.hash28()),
    ;
}

impl Hash28Ext for Hash28 {
    open spec fn hash28(&self) -> Seq<u8> {
        self@
    }

    fn to_hash32_padded(&self) -> (r: Hash32) {
        assert(self@.subrange(0, 28) =~= self@);
        hash32_padded(self.as_slice(), 0)
    }

    fn to_hex(&self) -> (r: String) {
        encode_hex(self.as_slice())
    }
}

/// Conversions of a 32-byte hash.
pub trait Hash32Ext {
    spec fn hash32(&self) -> Seq<u8>;

    /// The hash in hexadecimal.
    fn to_hex(&self) -> (r: String)
        ensures
            r@ == crate::hexa::hex_chars(self.hash32()),
    ;
}

impl Hash32Ext for Hash32 {
    open spec fn hash32(&self) -> Seq<u8> {
        self@
    }

    fn to_hex(&self) -> (r: String) {
        encode_hex(self.as_slice())
    }
}

/// Addition that stops at `u64::MAX`.
pub open spec fn sat_add(a: u64, b: u64) -> u64 {
    if a + b > u64::MAX {
        u64::MAX
    } else {
        (a + b) as u64
    }
}

/// Subtraction that stops at zero.
pub open spec fn sat_sub(a: u64, b: u64) -> u64 {
    if a < b {
        0
    } else {
        (a - b) as u64
    }
}

/// An amount of lovelace (1 ADA = 1,000,000 lovelace).
#[derive(Debug, Clone, Copy, PartialEq, Eq, PartialOrd, Ord, Default, Structural)]
pub struct Lovelace(pub u64);

impl std::ops::Add for Lovelace {
    type Output = Self;

    fn add(self, other: Self) -> (r: Self) {
        Lovelace(self.0.saturating_add(other.0))
    }
}

impl vstd::std_specs::ops::AddSpecImpl for Lovelace {
    open spec fn obeys_add_spec() -> bool {
        true
    }

    open spec fn add_req(self, other: Self) -> bool {
        true
    }

    open spec fn add_spec(self, other: Self) -> Self {
        Lovelace(sat_add(self.0, other.0))
    }
}

impl std::ops::Sub for Lovelace {
    type Output = Self;

    fn sub(self, other: Self) -> (r: Self) {
        Lovelace(self.0.saturating_sub(other.0))
    }
}

impl vstd::std_specs::ops::SubSpecImpl for Lovelace {
    open spec fn obeys_sub_spec() -> bool {
        true
    }

    open spec fn sub_req(self, other: Self) -> bool {
        true
    }

    open spec fn sub_spec(self, other: Self) -> Self {
        Lovelace(sat_sub(self.0, other.0))
    }
}

impl Lovelace {
    /// The amount in words.
    pub fn text(&self) -> (r: String)
        ensures
            r@ == crate::text::decimal_chars(self.0 as nat) + " lovelace"@,
    {
        let mut s = decimal(self.0);
        s.append(" lovelace");
        s
    }
}

/// Epoch number.
#[derive(Debug, Clone, Copy, PartialEq, Eq, PartialOrd, Ord, Hash, Default, Structural)]
pub struct EpochNo(pub u64);

/// Slot number.
#[derive(Debug, Clone, Copy, PartialEq, Eq, PartialOrd, Ord, Hash, Default, Structural)]
pub struct SlotNo(pub u64);

/// Block number.
#[derive(Debug, Clone, Copy, PartialEq, Eq, PartialOrd, Ord, Hash, Default, Structural)]
pub struct BlockNo(pub u64);

/// Cardano era.
#[derive(Debug, Clone, Copy, PartialEq, Eq, Structural)]
pub enum Era {
    Byron,
    Shelley,
    Allegra,
    Mary,
    Alonzo,
    Babbage,
    Conway,
}

impl Era {
    /// The name of the era.
    pub fn text(&self) -> (r: &'static str)
        ensures
            r@ == match *self {
                Era::Byron => "Byron"@,
                Era::Shelley => "Shelley"@,
                Era::Allegra => "Allegra"@,
                Era::Mary => "Mary"@,
                Era::Alonzo => "Alonzo"@,
                Era::Babbage => "Babbage"@,
                Era::Conway => "Conway"@,
            },
    {
        match *self {
            Era::Byron => "Byron",
            Era::Shelley => "Shelley",
            Era::Allegra => "Allegra",
            Era::Mary => "Mary",
            Era::Alonzo => "Alonzo",
            Era::Babbage => "Babbage",
            Era::Conway => "Conway",
        }
    }
}

/// Stake credential (key hash or script hash).
#[derive(Debug, Clone, Copy, PartialEq, Eq)]
pub enum Credential {
    Key(Hash32),
    Script(Hash32),
}

impl Credential {
    /// The hash of a credential, whatever its kind.
    pub open spec fn hash(&self) -> Hash32 {
        match *self {
            Credential::Key(h) => h,
            Credential::Script(h) => h,
        }
    }
}

/// Governance action id (transaction hash and index).
#[derive(Debug, Clone, Copy, PartialEq, Eq, PartialOrd, Ord, Hash)]
pub struct GovActionId {
    pub tx_hash: Hash32,
    pub index: u32,
}

impl GovActionId {
    pub fn same(&self, other: &GovActionId) -> (r: bool)
        ensures
            r == (*self == *other),
    {
        match self.rank(other) {
            Rank::Same => true,
            _ => false,
        }
    }
}

/// DRep (delegated representative).
#[derive(Debug, Clone, Copy, PartialEq, Eq)]
pub enum DRep {
    KeyHash(Hash32),
    ScriptHash(Hash32),
    AlwaysAbstain,
    AlwaysNoConfidence,
}

/// Who votes on a governance action.
#[derive(Debug, Clone, Copy, PartialEq, Eq)]
pub enum Voter {
    ConstitutionalCommittee(Credential),
    DRep(Credential),
    StakePool(Hash28),
}

/// Anchor for metadata.
#[derive(Debug, Clone, PartialEq, Eq)]
pub struct Anchor {
    pub url: String,
    pub hash: Hash32,
}

/// Voting procedure.
#[derive(Debug, Clone, PartialEq, Eq)]
pub struct VotingProcedure {
    pub vote: Vote,
    pub anchor: Option<Anchor>,
}

/// A vote.
#[derive(Debug, Clone, Copy, PartialEq, Eq, Structural)]
pub enum Vote {
    Yes,
    No,
    Abstain,
}

/// A rational number, for protocol parameters.
#[derive(Debug, Clone, Copy, PartialEq, Eq, Structural)]
pub struct Rational {
    pub numerator: u64,
    pub denominator: u64,
}

/// Protocol parameters.
#[derive(Debug, Clone, Copy, PartialEq, Eq)]
pub struct ProtocolParameters {
    pub protocol_version_major: u64,
    pub protocol_version_minor: u64,
    pub min_fee_a: u64,
    pub min_fee_b: u64,
    pub max_block_body_size: u64,
    pub max_transaction_size: u64,
    pub max_block_header_size: u64,
    pub key_deposit: u64,
    pub pool_deposit: u64,
    pub min_pool_cost: u64,
    pub utxo_cost_per_byte: u64,
    pub price_mem: Rational,
    pub price_step: Rational,
    pub max_tx_execution_units_mem: u64,
    pub max_tx_execution_units_steps: u64,
    pub max_block_execution_units_mem: u64,
    pub max_block_execution_units_steps: u64,
    pub max_value_size: u64,
    pub collateral_percentage: u64,
    pub max_collateral_inputs: u64,
    pub min_fee_ref_script_cost_per_byte: u64,
    /// Monetary expansion rate.
    pub rho: Rational,
    /// Treasury growth rate.
    pub tau: Rational,
    pub decentralization: Rational,
    pub extra_entropy: Option<Hash32>,
    /// The fraction of slots that are expected to have blocks.
    pub active_slot_coefficient: Rational,
    pub min_pool_cost_lovelace: u64,
    /// Optimal pool count.
    pub n_opt: u64,
    /// Pool pledge influence.
    pub a0: Rational,
    /// How many epochs ahead a pool retirement may be scheduled.
    pub e_max: u64,
    pub drep_deposit: u64,
    pub drep_activity_period: u64,
    pub gov_action_lifetime: u64,
    pub gov_action_deposit: u64,
    pub committee_min_size: u64,
    pub committee_max_term_length: u64,
    pub dvt_motion_no_confidence: Rational,
    pub dvt_committee_normal: Rational,
    pub dvt_committee_no_confidence: Rational,
    pub dvt_hard_fork: Rational,
    pub dvt_pp_network_group: Rational,
    pub dvt_pp_economic_group: Rational,
    pub dvt_pp_technical_group: Rational,
    pub dvt_pp_gov_group: Rational,
    pub dvt_treasury_withdrawal: Rational,
    pub dvt_constitution: Rational,
    pub dvt_no_confidence: Rational,
    pub pvt_motion_no_confidence: Rational,
    pub pvt_committee_normal: Rational,
    pub pvt_committee_no_confidence: Rational,
    pub pvt_hard_fork: Rational,
    pub pvt_pp_security_group: Rational,
}

pub open spec fn ratio(numerator: u64, denominator: u64) -> Rational {
    Rational { numerator, denominator }
}

/// Mainnet Conway parameters.
pub open spec fn mainnet_parameters() -> ProtocolParameters {
    ProtocolParameters {
        protocol_version_major: 10,
        protocol_version_minor: 0,
        min_fee_a: 44,
        min_fee_b: 155381,
        max_block_body_size: 90112,
        max_transaction_size: 16384,
        max_block_header_size: 1100,
        key_deposit: 2_000_000,
        pool_deposit: 500_000_000,
        min_pool_cost: 340_000_000,
        utxo_cost_per_byte: 4310,
        price_mem: ratio(577, 10000),
        price_step: ratio(721, 10000000),
        max_tx_execution_units_mem: 14000000,
        max_tx_execution_units_steps: 10000000000,
        max_block_execution_units_mem: 62000000,
        max_block_execution_units_steps: 40000000000,
        max_value_size: 5000,
        collateral_percentage: 150,
        max_collateral_inputs: 3,
        min_fee_ref_script_cost_per_byte: 15,
        rho: ratio(3, 1000),
        tau: ratio(2, 10),
        decentralization: ratio(0, 1),
        extra_entropy: None,
        active_slot_coefficient: ratio(1, 20),
        min_pool_cost_lovelace: 340_000_000,
        n_opt: 500,
        a0: ratio(3, 10),
        e_max: 18,
        drep_deposit: 500_000_000,
        drep_activity_period: 20,
        gov_action_lifetime: 6,
        gov_action_deposit: 100_000_000_000,
        committee_min_size: 7,
        committee_max_term_length: 146,
        dvt_motion_no_confidence: ratio(51, 100),
        dvt_committee_normal: ratio(51, 100),
        dvt_committee_no_confidence: ratio(60, 100),
        dvt_hard_fork: ratio(60, 100),
        dvt_pp_network_group: ratio(51, 100),
        dvt_pp_economic_group: ratio(51, 100),
        dvt_pp_technical_group: ratio(51, 100),
        dvt_pp_gov_group: ratio(75, 100),
        dvt_treasury_withdrawal: ratio(51, 100),
        dvt_constitution: ratio(75, 100),
        dvt_no_confidence: ratio(51, 100),
        pvt_motion_no_confidence: ratio(51, 100),
        pvt_committee_normal: ratio(51, 100),
        pvt_committee_no_confidence: ratio(51, 100),
        pvt_hard_fork: ratio(60, 100),
        pvt_pp_security_group: ratio(51, 100),
    }
}

impl Default for ProtocolParameters {
    fn default() -> (r: Self)
        ensures
            r == mainnet_parameters(),
    {
        ProtocolParameters {
            protocol_version_major: 10,
            protocol_version_minor: 0,
            min_fee_a: 44,
            min_fee_b: 155381,
            max_block_body_size: 90112,
            max_transaction_size: 16384,
            max_block_header_size: 1100,
            key_deposit: 2_000_000,
            pool_deposit: 500_000_000,
            min_pool_cost: 340_000_000,
            utxo_cost_per_byte: 4310,
            price_mem: Rational { numerator: 577, denominator: 10000 },
            price_step: Rational { numerator: 721, denominator: 10000000 },
            max_tx_execution_units_mem: 14000000,
            max_tx_execution_units_steps: 10000000000,
            max_block_execution_units_mem: 62000000,
            max_block_execution_units_steps: 40000000000,
            max_value_size: 5000,
            collateral_percentage: 150,
            max_collateral_inputs: 3,
            min_fee_ref_script_cost_per_byte: 15,
            rho: Rational { numerator: 3, denominator: 1000 },
            tau: Rational { numerator: 2, denominator: 10 },
            decentralization: Rational { numerator: 0, denominator: 1 },
            extra_entropy: None,
            active_slot_coefficient: Rational { numerator: 1, denominator: 20 },
            min_pool_cost_lovelace: 340_000_000,
            n_opt: 500,
            a0: Rational { numerator: 3, denominator: 10 },
            e_max: 18,
            drep_deposit: 500_000_000,
            drep_activity_period: 20,
            gov_action_lifetime: 6,
            gov_action_deposit: 100_000_000_000,
            committee_min_size: 7,
            committee_max_term_length: 146,
            dvt_motion_no_confidence: Rational { numerator: 51, denominator: 100 },
            dvt_committee_normal: Rational { numerator: 51, denominator: 100 },
            dvt_committee_no_confidence: Rational { numerator: 60, denominator: 100 },
            dvt_hard_fork: Rational { numerator: 60, denominator: 100 },
            dvt_pp_network_group: Rational { numerator: 51, denominator: 100 },
            dvt_pp_economic_group: Rational { numerator: 51, denominator: 100 },
            dvt_pp_technical_group: Rational { numerator: 51, denominator: 100 },
            dvt_pp_gov_group: Rational { numerator: 75, denominator: 100 },
            dvt_treasury_withdrawal: Rational { numerator: 51, denominator: 100 },
            dvt_constitution: Rational { numerator: 75, denominator: 100 },
            dvt_no_confidence: Rational { numerator: 51, denominator: 100 },
            pvt_motion_no_confidence: Rational { numerator: 51, denominator: 100 },
            pvt_committee_normal: Rational { numerator: 51, denominator: 100 },
            pvt_committee_no_confidence: Rational { numerator: 51, denominator: 100 },
            pvt_hard_fork: Rational { numerator: 60, denominator: 100 },
            pvt_pp_security_group: Rational { numerator: 51, denominator: 100 },
        }
    }
}

/// Relay endpoint of a pool; addresses as octets.
#[derive(Debug, Clone, PartialEq, Eq)]
pub enum Relay {
    SingleHostAddr { port: Option<u16>, ipv4: Option<[u8; 4]>, ipv6: Option<[u8; 16]> },
    SingleHostName { port: Option<u16>, dns_name: String },
    MultiHostName { dns_name: String },
}

/// Proposal procedure.
#[derive(Debug, PartialEq, Eq)]
pub struct ProposalProcedure {
    pub deposit: Lovelace,
    pub return_addr: Credential,
    pub gov_action: GovernanceAction,
    pub anchor: Option<Anchor>,
}

/// Governance action types (CIP-1694).
#[derive(Debug, PartialEq, Eq)]
pub enum GovernanceAction {
    ParameterChange {
        prev_action_id: Option<GovActionId>,
        update: ProtocolParamUpdate,
        guardrails_hash: Option<Hash32>,
    },
    HardForkInitiation { prev_action_id: Option<GovActionId>, protocol_version: (u64, u64) },
    TreasuryWithdrawals { withdrawals: Vec<(Credential, Lovelace)>, guardrails_hash: Option<Hash32> },
    NoConfidence { prev_action_id: Option<GovActionId> },
    UpdateCommittee {
        prev_action_id: Option<GovActionId>,
        members_to_remove: Vec<Credential>,
        members_to_add: Vec<(Credential, EpochNo)>,
        quorum: Rational,
    },
    NewConstitution { prev_action_id: Option<GovActionId>, constitution: Constitution },
    InfoAction,
}

/// Protocol parameter update; only the fields that are set are applied.
#[derive(Debug, Clone, Copy, PartialEq, Eq)]
pub struct ProtocolParamUpdate {
    pub min_fee_a: Option<u64>,
    pub min_fee_b: Option<u64>,
    pub max_block_body_size: Option<u64>,
    pub max_transaction_size: Option<u64>,
    pub max_block_header_size: Option<u64>,
    pub protocol_version: Option<(u64, u64)>,
    pub key_deposit: Option<u64>,
    pub pool_deposit: Option<u64>,
    pub min_pool_cost: Option<u64>,
    /// Monetary expansion rate.
    pub rho: Option<Rational>,
    /// Treasury growth rate.
    pub tau: Option<Rational>,
    /// Pool pledge influence.
    pub a0: Option<Rational>,
    /// Optimal pool count.
    pub n_opt: Option<u64>,
    /// How many epochs ahead a pool retirement may be scheduled.
    pub e_max: Option<u64>,
    pub decentralization: Option<Rational>,
    pub drep_deposit: Option<u64>,
    pub drep_activity: Option<u64>,
    pub gov_action_lifetime: Option<u64>,
    pub gov_action_deposit: Option<u64>,
    pub committee_min_size: Option<u64>,
    pub committee_max_term_length: Option<u64>,
    pub min_fee_ref_script_cost_per_byte: Option<Rational>,
    pub dvt_motion_no_confidence: Option<Rational>,
    pub dvt_committee_normal: Option<Rational>,
    pub dvt_committee_no_confidence: Option<Rational>,
    pub dvt_update_to_constitution: Option<Rational>,
    pub dvt_hard_fork_initiation: Option<Rational>,
    pub dvt_pp_network_group: Option<Rational>,
    pub dvt_pp_economic_group: Option<Rational>,
    pub dvt_pp_technical_group: Option<Rational>,
    pub dvt_pp_gov_group: Option<Rational>,
    pub dvt_treasury_withdrawal: Option<Rational>,
    pub pvt_motion_no_confidence: Option<Rational>,
    pub pvt_committee_normal: Option<Rational>,
    pub pvt_committee_no_confidence: Option<Rational>,
    pub pvt_hard_fork_initiation: Option<Rational>,
    pub pvt_pp_security_group: Option<Rational>,
}

impl ProtocolParamUpdate {
    /// Whether two updates set the same fields to the same values.
    pub fn same(&self, other: &ProtocolParamUpdate) -> (r: bool)
        ensures
            r == (*self == *other),
    {
        let version: bool = match (self.protocol_version, other.protocol_version) {
            (Some(a), Some(b)) => a.0 == b.0 && a.1 == b.1,
            (None, None) => true,
            _ => false,
        };
        version && self.min_fee_a == other.min_fee_a
            && self.min_fee_b == other.min_fee_b
            && self.max_block_body_size == other.max_block_body_size
            && self.max_transaction_size == other.max_transaction_size
            && self.max_block_header_size == other.max_block_header_size
            && self.key_deposit == other.key_deposit
            && self.pool_deposit == other.pool_deposit
            && self.min_pool_cost == other.min_pool_cost
            && self.rho == other.rho
            && self.tau == other.tau
            && self.a0 == other.a0
            && self.n_opt == other.n_opt
            && self.e_max == other.e_max
            && self.decentralization == other.decentralization
            && self.drep_deposit == other.drep_deposit
            && self.drep_activity == other.drep_activity
            && self.gov_action_lifetime == other.gov_action_lifetime
            && self.gov_action_deposit == other.gov_action_deposit
            && self.committee_min_size == other.committee_min_size
            && self.committee_max_term_length == other.committee_max_term_length
            && self.min_fee_ref_script_cost_per_byte == other.min_fee_ref_script_cost_per_byte
            && self.dvt_motion_no_confidence == other.dvt_motion_no_confidence
            && self.dvt_committee_normal == other.dvt_committee_normal
            && self.dvt_committee_no_confidence == other.dvt_committee_no_confidence
            && self.dvt_update_to_constitution == other.dvt_update_to_constitution
            && self.dvt_hard_fork_initiation == other.dvt_hard_fork_initiation
            && self.dvt_pp_network_group == other.dvt_pp_network_group
            && self.dvt_pp_economic_group == other.dvt_pp_economic_group
            && self.dvt_pp_technical_group == other.dvt_pp_technical_group
            && self.dvt_pp_gov_group == other.dvt_pp_gov_group
            && self.dvt_treasury_withdrawal == other.dvt_treasury_withdrawal
            && self.pvt_motion_no_confidence == other.pvt_motion_no_confidence
            && self.pvt_committee_normal == other.pvt_committee_normal
            && self.pvt_committee_no_confidence == other.pvt_committee_no_confidence
            && self.pvt_hard_fork_initiation == other.pvt_hard_fork_initiation
            && self.pvt_pp_security_group == other.pvt_pp_security_group
    }
}

/// An update that sets nothing.
pub open spec fn no_update() -> ProtocolParamUpdate {
    ProtocolParamUpdate {
        min_fee_a: None,
        min_fee_b: None,
        max_block_body_size: None,
        max_transaction_size: None,
        max_block_header_size: None,
        protocol_version: None,
        key_deposit: None,
        pool_deposit: None,
        min_pool_cost: None,
        rho: None,
        tau: None,
        a0: None,
        n_opt: None,
        e_max: None,
        decentralization: None,
        drep_deposit: None,
        drep_activity: None,
        gov_action_lifetime: None,
        gov_action_deposit: None,
        committee_min_size: None,
        committee_max_term_length: None,
        min_fee_ref_script_cost_per_byte: None,
        dvt_motion_no_confidence: None,
        dvt_committee_normal: None,
        dvt_committee_no_confidence: None,
        dvt_update_to_constitution: None,
        dvt_hard_fork_initiation: None,
        dvt_pp_network_group: None,
        dvt_pp_economic_group: None,
        dvt_pp_technical_group: None,
        dvt_pp_gov_group: None,
        dvt_treasury_withdrawal: None,
        pvt_motion_no_confidence: None,
        pvt_committee_normal: None,
        pvt_committee_no_confidence: None,
        pvt_hard_fork_initiation: None,
        pvt_pp_security_group: None,
    }
}

impl Default for ProtocolParamUpdate {
    fn default() -> (r: Self)
        ensures
            r == no_update(),
    {
        ProtocolParamUpdate {
            min_fee_a: None,
            min_fee_b: None,
            max_block_body_size: None,
            max_transaction_size: None,
            max_block_header_size: None,
            protocol_version: None,
            key_deposit: None,
            pool_deposit: None,
            min_pool_cost: None,
            rho: None,
            tau: None,
            a0: None,
            n_opt: None,
            e_max: None,
            decentralization: None,
            drep_deposit: None,
            drep_activity: None,
            gov_action_lifetime: None,
            gov_action_deposit: None,
            committee_min_size: None,
            committee_max_term_length: None,
            min_fee_ref_script_cost_per_byte: None,
            dvt_motion_no_confidence: None,
            dvt_committee_normal: None,
            dvt_committee_no_confidence: None,
            dvt_update_to_constitution: None,
            dvt_hard_fork_initiation: None,
            dvt_pp_network_group: None,
            dvt_pp_economic_group: None,
            dvt_pp_technical_group: None,
            dvt_pp_gov_group: None,
            dvt_treasury_withdrawal: None,
            pvt_motion_no_confidence: None,
            pvt_committee_normal: None,
            pvt_committee_no_confidence: None,
            pvt_hard_fork_initiation: None,
            pvt_pp_security_group: None,
        }
    }
}

/// Constitution.
#[derive(Debug, Clone, PartialEq, Eq)]
pub struct Constitution {
    pub anchor: Option<Anchor>,
    pub script_hash: Option<Hash32>,
}

/// Pool registration parameters.
#[derive(Debug, Clone, PartialEq, Eq)]
pub struct PoolParams {
    /// Pool id.
    pub operator: Hash28,
    pub vrf_keyhash: Hash32,
    pub pledge: Lovelace,
    pub cost: Lovelace,
    pub margin: Rational,
    /// 29-byte reward address.
    pub reward_account: Vec<u8>,
    pub pool_owners: Vec<Hash28>,
    pub relays: Vec<Relay>,
    pub pool_metadata: Option<PoolMetadata>,
}

/// Pool metadata.
#[derive(Debug, Clone, PartialEq, Eq)]
pub struct PoolMetadata {
    pub url: String,
    pub hash: Hash32,
}

/// Where instantaneous rewards come from.
#[derive(Debug, Clone, Copy, PartialEq, Eq, Structural)]
pub enum MIRSource {
    Reserves,
    Treasury,
}

/// Where instantaneous rewards go.
#[derive(Debug, PartialEq, Eq)]
pub enum MIRTarget {
    StakeCredentials(Vec<(Credential, Lovelace)>),
    OtherPot(Lovelace),
}

/// Certificate.
#[derive(Debug, PartialEq, Eq)]
pub enum Certificate {
    StakeRegistration(Credential),
    StakeDeregistration(Credential),
    StakeDelegation { credential: Credential, pool_hash: Hash28 },
    PoolRegistration(PoolParams),
    PoolRetirement { pool_hash: Hash28, epoch: u64 },
    GenesisKeyDelegation { genesis_hash: Hash32, genesis_delegate_hash: Hash32, vrf_keyhash: Hash32 },
    MoveInstantaneousRewardsCert { source: MIRSource, target: MIRTarget },
    ConwayStakeRegistration { credential: Credential, deposit: Lovelace },
    ConwayStakeDeregistration { credential: Credential, refund: Lovelace },
    RegStakeDeleg { credential: Credential, pool_hash: Hash28, deposit: Lovelace },
    RegDRep { credential: Credential, deposit: Lovelace, anchor: Option<Anchor> },
    UnregDRep { credential: Credential, refund: Lovelace },
    UpdateDRep { credential: Credential, anchor: Option<Anchor> },
    VoteDelegation { credential: Credential, drep: DRep },
    StakeVoteDelegation { credential: Credential, pool_hash: Hash28, drep: DRep },
    RegStakeVoteDeleg { credential: Credential, pool_hash: Hash28, drep: DRep, deposit: Lovelace },
    VoteRegDeleg { credential: Credential, drep: DRep, deposit: Lovelace },
    CommitteeHotAuth { cold_credential: Credential, hot_credential: Credential },
    CommitteeColdResign { cold_credential: Credential, anchor: Option<Anchor> },
}

// ---- models ----

/// What a governance action holds.
pub enum ActionModel {
    ParameterChange {
        prev_action_id: Option<GovActionId>,
        update: ProtocolParamUpdate,
        guardrails_hash: Option<Hash32>,
    },
    HardForkInitiation { prev_action_id: Option<GovActionId>, protocol_version: (u64, u64) },
    TreasuryWithdrawals { withdrawals: Seq<(Credential, Lovelace)>, guardrails_hash: Option<Hash32> },
    NoConfidence { prev_action_id: Option<GovActionId> },
    UpdateCommittee {
        prev_action_id: Option<GovActionId>,
        members_to_remove: Seq<Credential>,
        members_to_add: Seq<(Credential, EpochNo)>,
        quorum: Rational,
    },
    NewConstitution { prev_action_id: Option<GovActionId>, constitution: Constitution },
    InfoAction,
}

/// What a proposal procedure holds.
pub struct ProcedureModel {
    pub deposit: Lovelace,
    pub return_addr: Credential,
    pub gov_action: ActionModel,
    pub anchor: Option<Anchor>,
}

impl Item for Lovelace {
    type M = Lovelace;

    open spec fn model(&self) -> Lovelace {
        *self
    }

    fn dup(&self) -> (r: Self) {
        *self
    }
}

impl Item for EpochNo {
    type M = EpochNo;

    open spec fn model(&self) -> EpochNo {
        *self
    }

    fn dup(&self) -> (r: Self) {
        *self
    }
}

impl Key for EpochNo {
    open spec fn code(m: EpochNo) -> Seq<int> {
        seq![m.0 as int]
    }

    proof fn code_injective(a: EpochNo, b: EpochNo) {
        assert(Self::code(a)[0] == a.0 as int);
        assert(Self::code(b)[0] == b.0 as int);
    }

    fn rank(&self, other: &Self) -> (r: Rank) {
        proof {
            let a = Self::code(*self);
            let b = Self::code(*other);
            if self.0 == other.0 {
                lemma_lex_irreflexive(a);
            } else {
                assert(a.take(0) =~= b.take(0));
                lemma_lex_differ(a, b, 0);
            }
        }
        if self.0 < other.0 {
            Rank::Before
        } else if self.0 == other.0 {
            Rank::Same
        } else {
            Rank::After
        }
    }
}

impl Item for Credential {
    type M = Credential;

    open spec fn model(&self) -> Credential {
        *self
    }

    fn dup(&self) -> (r: Self) {
        *self
    }
}

impl Item for GovActionId {
    type M = GovActionId;

    open spec fn model(&self) -> GovActionId {
        *self
    }

    fn dup(&self) -> (r: Self) {
        *self
    }
}

impl Key for GovActionId {
    /// The hash decides first, then the index.
    open spec fn code(m: GovActionId) -> Seq<int> {
        byte_code(m.tx_hash@).push(m.index as int)
    }

    proof fn code_injective(a: GovActionId, b: GovActionId) {
        let x = Self::code(a);
        let y = Self::code(b);
        assert(x.len() == 33 && y.len() == 33);
        assert(x[32] == a.index as int && y[32] == b.index as int);
        assert(byte_code(a.tx_hash@) =~= x.take(32));
        assert(byte_code(b.tx_hash@) =~= y.take(32));
        lemma_byte_code_injective(a.tx_hash@, b.tx_hash@);
        assert(a.tx_hash =~= b.tx_hash);
    }

    fn rank(&self, other: &Self) -> (r: Rank) {
        let first = rank_bytes(self.tx_hash.as_slice(), other.tx_hash.as_slice());
        proof {
            let a = Self::code(*self);
            let b = Self::code(*other);
            let ba = byte_code(self.tx_hash@);
            let bb = byte_code(other.tx_hash@);
            if self.tx_hash@ == other.tx_hash@ {
                assert(self.tx_hash =~= other.tx_hash);
                if self.index == other.index {
                    lemma_lex_irreflexive(a);
                } else {
                    assert(a.take(32) =~= b.take(32));
                    lemma_lex_differ(a, b, 32);
                }
            } else {
                lemma_lex_extend(ba, bb, self.index as int, other.index as int);
                lemma_lex_extend(bb, ba, other.index as int, self.index as int);
                if ba == bb {
                    lemma_byte_code_injective(self.tx_hash@, other.tx_hash@);
                }
            }
        }
        match first {
            Rank::Same => {
                if self.index < other.index {
                    Rank::Before
                } else if self.index == other.index {
                    Rank::Same
                } else {
                    Rank::After
                }
            },
            _ => first,
        }
    }
}

/// One more number behind sequences that differ and are as long as each other
/// does not change their order.
proof fn lemma_lex_extend(a: Seq<int>, b: Seq<int>, x: int, y: int)
    requires
        a.len() == b.len(),
    ensures
        a != b ==> lex_lt(a.push(x), b.push(y)) == lex_lt(a, b),
    decreases a.len(),
{
    if a.len() == 0 {
        assert(a =~= b);
    } else {
        let a1 = a.drop_first();
        let b1 = b.drop_first();
        lemma_lex_extend(a1, b1, x, y);
        assert(a.push(x).drop_first() =~= a1.push(x));
        assert(b.push(y).drop_first() =~= b1.push(y));
        if a[0] == b[0] && a1 == b1 {
            assert(a =~= seq![a[0]] + a1);
            assert(b =~= seq![b[0]] + b1);
        }
    }
}

/// A place on the chain: slot, transaction and certificate.
#[derive(Debug, Clone, Copy, PartialEq, Eq)]
pub struct ChainPointer {
    pub slot: u64,
    pub tx_index: u32,
    pub cert_index: u32,
}

impl Item for ChainPointer {
    type M = ChainPointer;

    open spec fn model(&self) -> ChainPointer {
        *self
    }

    fn dup(&self) -> (r: Self) {
        *self
    }
}

impl Key for ChainPointer {
    open spec fn code(m: ChainPointer) -> Seq<int> {
        seq![m.slot as int, m.tx_index as int, m.cert_index as int]
    }

    proof fn code_injective(a: ChainPointer, b: ChainPointer) {
        let x = Self::code(a);
        let y = Self::code(b);
        assert(x[0] == y[0] && x[1] == y[1] && x[2] == y[2]);
    }

    fn rank(&self, other: &Self) -> (r: Rank) {
        proof {
            let a = Self::code(*self);
            let b = Self::code(*other);
            if self.slot != other.slot {
                assert(a.take(0) =~= b.take(0));
                lemma_lex_differ(a, b, 0);
            } else if self.tx_index != other.tx_index {
                assert(a.take(1) =~= b.take(1));
                lemma_lex_differ(a, b, 1);
            } else if self.cert_index != other.cert_index {
                assert(a.take(2) =~= b.take(2));
                lemma_lex_differ(a, b, 2);
            } else {
                lemma_lex_irreflexive(a);
            }
        }
        if self.slot != other.slot {
            if self.slot < other.slot {
                Rank::Before
            } else {
                Rank::After
            }
        } else if self.tx_index != other.tx_index {
            if self.tx_index < other.tx_index {
                Rank::Before
            } else {
                Rank::After
            }
        } else if self.cert_index != other.cert_index {
            if self.cert_index < other.cert_index {
                Rank::Before
            } else {
                Rank::After
            }
        } else {
            Rank::Same
        }
    }
}

impl Item for DRep {
    type M = DRep;

    open spec fn model(&self) -> DRep {
        *self
    }

    fn dup(&self) -> (r: Self) {
        *self
    }
}

impl Item for Vote {
    type M = Vote;

    open spec fn model(&self) -> Vote {
        *self
    }

    fn dup(&self) -> (r: Self) {
        *self
    }
}

impl Item for ProtocolParamUpdate {
    type M = ProtocolParamUpdate;

    open spec fn model(&self) -> ProtocolParamUpdate {
        *self
    }

    fn dup(&self) -> (r: Self) {
        *self
    }
}

impl Item for Anchor {
    type M = Anchor;

    open spec fn model(&self) -> Anchor {
        *self
    }

    fn dup(&self) -> (r: Self) {
        Anchor { url: self.url.clone(), hash: self.hash }
    }
}

impl<T: Item> Item for Option<T> {
    type M = Option<T::M>;

    open spec fn model(&self) -> Option<T::M> {
        match *self {
            Some(x) => Some(x.model()),
            None => None,
        }
    }

    fn dup(&self) -> (r: Self) {
        match self {
            Some(x) => Some(x.dup()),
            None => None,
        }
    }
}

/// An optional anchor, copied.
pub fn dup_anchor(a: &Option<Anchor>) -> (r: Option<Anchor>)
    ensures
        r == *a,
{
    match a {
        Some(x) => Some(x.dup()),
        None => None,
    }
}

/// Copies a vector item by item.
pub fn dup_vec<T: Item>(v: &Vec<T>) -> (r: Vec<T>)
    ensures
        r@.len() == v@.len(),
        forall|i: int| #![trigger r@[i]] 0 <= i < r@.len() ==> r@[i].model() == v@[i].model(),
{
    let mut r: Vec<T> = Vec::new();
    let mut i: usize = 0;
    while i < v.len()
        invariant
            i <= v.len(),
            r@.len() == i,
            forall|j: int| #![trigger r@[j]] 0 <= j < i ==> r@[j].model() == v@[j].model(),
        decreases v.len() - i,
    {
        r.push(v[i].dup());
        i += 1;
    }
    r
}

impl Item for (Credential, Lovelace) {
    type M = (Credential, Lovelace);

    open spec fn model(&self) -> (Credential, Lovelace) {
        *self
    }

    fn dup(&self) -> (r: Self) {
        (self.0, self.1)
    }
}

impl Item for (Credential, EpochNo) {
    type M = (Credential, EpochNo);

    open spec fn model(&self) -> (Credential, EpochNo) {
        *self
    }

    fn dup(&self) -> (r: Self) {
        (self.0, self.1)
    }
}

impl Item for (GovActionId, Lovelace) {
    type M = (GovActionId, Lovelace);

    open spec fn model(&self) -> (GovActionId, Lovelace) {
        *self
    }

    fn dup(&self) -> (r: Self) {
        (self.0, self.1)
    }
}

impl Item for VotingProcedure {
    type M = VotingProcedure;

    open spec fn model(&self) -> VotingProcedure {
        *self
    }

    fn dup(&self) -> (r: Self) {
        VotingProcedure { vote: self.vote, anchor: dup_anchor(&self.anchor) }
    }
}

impl Item for (Voter, VotingProcedure) {
    type M = (Voter, VotingProcedure);

    open spec fn model(&self) -> (Voter, VotingProcedure) {
        *self
    }

    fn dup(&self) -> (r: Self) {
        (self.0, self.1.dup())
    }
}

impl Item for Relay {
    type M = Relay;

    open spec fn model(&self) -> Relay {
        *self
    }

    fn dup(&self) -> (r: Self) {
        match self {
            Relay::SingleHostAddr { port, ipv4, ipv6 } => Relay::SingleHostAddr {
                port: *port,
                ipv4: *ipv4,
                ipv6: *ipv6,
            },
            Relay::SingleHostName { port, dns_name } => Relay::SingleHostName {
                port: *port,
                dns_name: dns_name.clone(),
            },
            Relay::MultiHostName { dns_name } => Relay::MultiHostName { dns_name: dns_name.clone() },
        }
    }
}

impl Item for Constitution {
    type M = Constitution;

    open spec fn model(&self) -> Constitution {
        *self
    }

    fn dup(&self) -> (r: Self) {
        Constitution { anchor: dup_anchor(&self.anchor), script_hash: self.script_hash }
    }
}

impl Item for GovernanceAction {
    type M = ActionModel;

    open spec fn model(&self) -> ActionModel {
        match *self {
            GovernanceAction::ParameterChange { prev_action_id, update, guardrails_hash } => ActionModel::ParameterChange {
                prev_action_id,
                update,
                guardrails_hash,
            },
            GovernanceAction::HardForkInitiation { prev_action_id, protocol_version } => ActionModel::HardForkInitiation {
                prev_action_id,
                protocol_version,
            },
            GovernanceAction::TreasuryWithdrawals { withdrawals, guardrails_hash } => ActionModel::TreasuryWithdrawals {
                withdrawals: withdrawals@,
                guardrails_hash,
            },
            GovernanceAction::NoConfidence { prev_action_id } => ActionModel::NoConfidence { prev_action_id },
            GovernanceAction::UpdateCommittee { prev_action_id, members_to_remove, members_to_add, quorum } => ActionModel::UpdateCommittee {
                prev_action_id,
                members_to_remove: members_to_remove@,
                members_to_add: members_to_add@,
                quorum,
            },
            GovernanceAction::NewConstitution { prev_action_id, constitution } => ActionModel::NewConstitution {
                prev_action_id,
                constitution,
            },
            GovernanceAction::InfoAction => ActionModel::InfoAction,
        }
    }

    fn dup(&self) -> (r: Self) {
        match self {
            GovernanceAction::ParameterChange { prev_action_id, update, guardrails_hash } => GovernanceAction::ParameterChange {
                prev_action_id: *prev_action_id,
                update: *update,
                guardrails_hash: *guardrails_hash,
            },
            GovernanceAction::HardForkInitiation { prev_action_id, protocol_version } => GovernanceAction::HardForkInitiation {
                prev_action_id: *prev_action_id,
                protocol_version: *protocol_version,
            },
            GovernanceAction::TreasuryWithdrawals { withdrawals, guardrails_hash } => {
                let copy: Vec<(Credential, Lovelace)> = dup_vec(withdrawals);
                assert(copy@ =~= withdrawals@);
                GovernanceAction::TreasuryWithdrawals { withdrawals: copy, guardrails_hash: *guardrails_hash }
            },
            GovernanceAction::NoConfidence { prev_action_id } => GovernanceAction::NoConfidence {
                prev_action_id: *prev_action_id,
            },
            GovernanceAction::UpdateCommittee { prev_action_id, members_to_remove, members_to_add, quorum } => {
                let removed: Vec<Credential> = dup_vec(members_to_remove);
                let added: Vec<(Credential, EpochNo)> = dup_vec(members_to_add);
                assert(removed@ =~= members_to_remove@);
                assert(added@ =~= members_to_add@);
                GovernanceAction::UpdateCommittee {
                    prev_action_id: *prev_action_id,
                    members_to_remove: removed,
                    members_to_add: added,
                    quorum: *quorum,
                }
            },
            GovernanceAction::NewConstitution { prev_action_id, constitution } => GovernanceAction::NewConstitution {
                prev_action_id: *prev_action_id,
                constitution: constitution.dup(),
            },
            GovernanceAction::InfoAction => GovernanceAction::InfoAction,
        }
    }
}

impl Item for ProposalProcedure {
    type M = ProcedureModel;

    open spec fn model(&self) -> ProcedureModel {
        ProcedureModel {
            deposit: self.deposit,
            return_addr: self.return_addr,
            gov_action: self.gov_action.model(),
            anchor: self.anchor,
        }
    }

    fn dup(&self) -> (r: Self) {
        ProposalProcedure {
            deposit: self.deposit,
            return_addr: self.return_addr,
            gov_action: self.gov_action.dup(),
            anchor: dup_anchor(&self.anchor),
        }
    }
}

} // verus!
