//! The ledger state.

use vstd::prelude::*;
use crate::item::Item;
use crate::ledger::primitives::{
    dup_anchor, dup_vec, hash32_tagged, padded, sat_add, sat_sub, Anchor, ChainPointer, Constitution, Credential, DRep,
    EpochNo, GovActionId, GovernanceAction, Hash28, Hash32, Lovelace, ProcedureModel, ActionModel, ProposalProcedure,
    ProtocolParamUpdate, ProtocolParameters, Rational, Relay, Voter, VotingProcedure,
};
use crate::sums::clamp;
use crate::table::{KeySet, Table};

verus! {

/// Total ADA supply (45 billion ADA) in lovelace.
pub const MAX_LOVELACE_SUPPLY: u64 = 45_000_000_000_000_000;

/// The hash of a credential, whatever its kind.
pub fn credential_to_hash(cred: &Credential) -> (r: Hash32)
    ensures
        r == cred.hash(),
{
    match cred {
        Credential::Key(hash) => *hash,
        Credential::Script(hash) => *hash,
    }
}

/// Whether block application includes validation.
#[derive(Debug, Clone, Copy, PartialEq, Eq, Structural)]
pub enum BlockValidationMode {
    /// Full evaluation of both phases.
    ValidateAll,
    /// Trust the block producer's validation.
    ApplyOnly,
}

/// The complete ledger state.
pub struct LedgerState {
    /// Current epoch.
    pub epoch: EpochNo,
    /// Shelley epoch length in slots.
    pub epoch_length: u64,
    /// Number of Byron epochs before the Shelley hard fork; `u64::MAX` while
    /// the hard fork proposal has not been seen.
    pub shelley_transition_epoch: u64,
    /// Byron epoch length in slots.
    pub byron_epoch_length: u64,
    /// Whether this chain has a Byron era.
    pub has_byron: bool,
    /// Current protocol parameters.
    pub protocol_params: ProtocolParameters,
    /// Stake of each credential in unspent outputs.
    pub stake_distribution: StakeDistributionState,
    /// Treasury balance.
    pub treasury: Lovelace,
    /// Reserves balance.
    pub reserves: Lovelace,
    /// Which pool a credential delegates to.
    pub delegations: Table<Hash32, Hash28>,
    /// Registered pools.
    pub pool_params: Table<Hash28, PoolRegistration>,
    /// Re-registrations of this epoch; they take effect after the mark
    /// snapshot at the epoch boundary.
    pub future_pool_params: Table<Hash28, PoolRegistration>,
    /// Pools that retire, and when. Re-registration takes a pool out.
    pub pending_retirements: Table<Hash28, EpochNo>,
    /// Stake snapshots.
    pub snapshots: EpochSnapshots,
    /// Reward balance of each registered credential.
    pub reward_accounts: Table<Hash32, Lovelace>,
    /// Fees collected in this epoch.
    pub epoch_fees: Lovelace,
    /// Blocks that each pool produced in this epoch.
    pub epoch_blocks_by_pool: Table<Hash28, u64>,
    /// Blocks in this epoch.
    pub epoch_block_count: u64,
    /// Accumulated hash of all VRF outputs.
    pub evolving_nonce: Hash32,
    /// The evolving nonce until it freezes near the end of an epoch.
    pub candidate_nonce: Hash32,
    /// Nonce of this epoch.
    pub epoch_nonce: Hash32,
    /// Previous hash of the last applied block.
    pub lab_nonce: Hash32,
    /// The LAB nonce at the last epoch boundary.
    pub last_epoch_block_nonce: Hash32,
    /// Length of the window in which the candidate nonce is frozen.
    pub randomness_stabilisation_window: u64,
    pub stability_window_3kf: u64,
    /// Slot offset within an epoch at which the reward calculation starts.
    pub stability_window_2kf: u64,
    /// Genesis hash.
    pub genesis_hash: Hash32,
    /// Parameter updates proposed before Conway: target epoch, then genesis
    /// delegate; the last proposal of a delegate counts.
    pub pending_pp_updates: Table<EpochNo, Table<Hash32, ProtocolParamUpdate>>,
    /// How many delegates must propose the same update.
    pub update_quorum: u64,
    /// Conway governance state.
    pub governance: GovernanceState,
    /// Deposits of all kinds.
    pub deposit_tracker: DepositTracker,
    /// Reward update computed at the last boundary, applied at the next one.
    pub pending_reward_update: Option<PendingRewardUpdate>,
    /// The reward update that was applied last.
    pub last_applied_rupd: Option<PendingRewardUpdate>,
    /// What to say about a parameter update that was enacted.
    pub ppup_enacted_log: Option<String>,
    /// Stake credentials that are script hashes.
    pub script_stake_credentials: KeySet<Hash32>,
    /// Parameters from before the last parameter change was enacted.
    pub prev_protocol_params: Option<ProtocolParameters>,
    /// First Conway epoch.
    pub conway_genesis_epoch: Option<u64>,
    /// Kept for snapshots of older states; entries are discarded at the next
    /// epoch transition.
    pub pending_enactments: Vec<PendingEnactment>,
    /// Where stake registrations stand on the chain: 28 bytes of credential
    /// hash and a tag (0 for a key, 1 for a script).
    pub ptr_map: Table<ChainPointer, [u8; 29]>,
    /// The decentralization parameter of the previous epoch.
    pub prev_epoch_decentralization: Rational,
}

/// What the ledger state holds.
#[verifier::ext_equal]
pub struct LedgerModel {
    pub epoch: EpochNo,
    pub epoch_length: u64,
    pub shelley_transition_epoch: u64,
    pub byron_epoch_length: u64,
    pub has_byron: bool,
    pub protocol_params: ProtocolParameters,
    pub stake_map: Map<Hash32, Lovelace>,
    pub treasury: Lovelace,
    pub reserves: Lovelace,
    pub delegations: Map<Hash32, Hash28>,
    pub pool_params: Map<Hash28, PoolModel>,
    pub future_pool_params: Map<Hash28, PoolModel>,
    pub pending_retirements: Map<Hash28, EpochNo>,
    pub snapshots: SnapshotsModel,
    pub reward_accounts: Map<Hash32, Lovelace>,
    pub epoch_fees: Lovelace,
    pub epoch_blocks_by_pool: Map<Hash28, u64>,
    pub epoch_block_count: u64,
    pub evolving_nonce: Hash32,
    pub candidate_nonce: Hash32,
    pub epoch_nonce: Hash32,
    pub lab_nonce: Hash32,
    pub last_epoch_block_nonce: Hash32,
    pub randomness_stabilisation_window: u64,
    pub stability_window_3kf: u64,
    pub stability_window_2kf: u64,
    pub genesis_hash: Hash32,
    pub pending_pp_updates: Map<EpochNo, Map<Hash32, ProtocolParamUpdate>>,
    pub update_quorum: u64,
    pub governance: GovernanceModel,
    pub deposits: Map<Hash32, DepositsModel>,
    pub pending_reward_update: Option<RewardModel>,
    pub last_applied_rupd: Option<RewardModel>,
    pub ppup_enacted_log: Option<Seq<char>>,
    pub script_stake_credentials: Set<Hash32>,
    pub prev_protocol_params: Option<ProtocolParameters>,
    pub conway_genesis_epoch: Option<u64>,
    pub pending_enactments: Seq<EnactmentModel>,
    pub ptr_map: Map<ChainPointer, [u8; 29]>,
    pub prev_epoch_decentralization: Rational,
}

pub open spec fn enactment_models(s: Seq<PendingEnactment>) -> Seq<EnactmentModel> {
    Seq::new(s.len(), |i: int| s[i].model())
}

impl LedgerState {
    pub open spec fn view(&self) -> LedgerModel {
        LedgerModel {
            epoch: self.epoch,
            epoch_length: self.epoch_length,
            shelley_transition_epoch: self.shelley_transition_epoch,
            byron_epoch_length: self.byron_epoch_length,
            has_byron: self.has_byron,
            protocol_params: self.protocol_params,
            stake_map: self.stake_distribution.stake_map@,
            treasury: self.treasury,
            reserves: self.reserves,
            delegations: self.delegations@,
            pool_params: self.pool_params@,
            future_pool_params: self.future_pool_params@,
            pending_retirements: self.pending_retirements@,
            snapshots: self.snapshots.model(),
            reward_accounts: self.reward_accounts@,
            epoch_fees: self.epoch_fees,
            epoch_blocks_by_pool: self.epoch_blocks_by_pool@,
            epoch_block_count: self.epoch_block_count,
            evolving_nonce: self.evolving_nonce,
            candidate_nonce: self.candidate_nonce,
            epoch_nonce: self.epoch_nonce,
            lab_nonce: self.lab_nonce,
            last_epoch_block_nonce: self.last_epoch_block_nonce,
            randomness_stabilisation_window: self.randomness_stabilisation_window,
            stability_window_3kf: self.stability_window_3kf,
            stability_window_2kf: self.stability_window_2kf,
            genesis_hash: self.genesis_hash,
            pending_pp_updates: self.pending_pp_updates@,
            update_quorum: self.update_quorum,
            governance: self.governance@,
            deposits: self.deposit_tracker.deposits@,
            pending_reward_update: self.pending_reward_update.model(),
            last_applied_rupd: self.last_applied_rupd.model(),
            ppup_enacted_log: match self.ppup_enacted_log {
                Some(s) => Some(s@),
                None => None,
            },
            script_stake_credentials: self.script_stake_credentials@,
            prev_protocol_params: self.prev_protocol_params,
            conway_genesis_epoch: self.conway_genesis_epoch,
            pending_enactments: enactment_models(self.pending_enactments@),
            ptr_map: self.ptr_map@,
            prev_epoch_decentralization: self.prev_epoch_decentralization,
        }
    }
}

fn default_update_quorum() -> (r: u64)
    ensures
        r == 5,
{
    5
}

fn default_prev_epoch_decentralization() -> (r: Rational)
    ensures
        r == (Rational { numerator: 1, denominator: 1 }),
{
    Rational { numerator: 1, denominator: 1 }
}

fn default_stability_window_2kf() -> (r: u64)
    ensures
        r == 86400,
{
    86400
}

/// The ledger before the first block.
pub open spec fn initial_ledger(params: ProtocolParameters) -> LedgerModel {
    LedgerModel {
        epoch: EpochNo(0),
        epoch_length: 432000,
        shelley_transition_epoch: 0,
        byron_epoch_length: 0,
        has_byron: false,
        protocol_params: params,
        stake_map: Map::empty(),
        treasury: Lovelace(0),
        reserves: Lovelace(MAX_LOVELACE_SUPPLY),
        delegations: Map::empty(),
        pool_params: Map::empty(),
        future_pool_params: Map::empty(),
        pending_retirements: Map::empty(),
        snapshots: SnapshotsModel { mark: None, set: None, go: None, pay: None, current_epoch_fees: Lovelace(0) },
        reward_accounts: Map::empty(),
        epoch_fees: Lovelace(0),
        epoch_blocks_by_pool: Map::empty(),
        epoch_block_count: 0,
        evolving_nonce: zero_hash(),
        candidate_nonce: zero_hash(),
        epoch_nonce: zero_hash(),
        lab_nonce: zero_hash(),
        last_epoch_block_nonce: zero_hash(),
        randomness_stabilisation_window: 172800,
        stability_window_3kf: 129600,
        stability_window_2kf: 86400,
        genesis_hash: zero_hash(),
        pending_pp_updates: Map::empty(),
        update_quorum: 5,
        governance: initial_governance(),
        deposits: Map::empty(),
        pending_reward_update: None,
        last_applied_rupd: None,
        ppup_enacted_log: None,
        script_stake_credentials: Set::empty(),
        prev_protocol_params: None,
        conway_genesis_epoch: None,
        pending_enactments: Seq::empty(),
        ptr_map: Map::empty(),
        prev_epoch_decentralization: Rational { numerator: 1, denominator: 1 },
    }
}

/// The neutral nonce.
pub open spec fn zero_hash() -> Hash32 {
    vstd::array::spec_array_fill_for_copy_type::<u8, 32>(0u8)
}

// ---- slots and epochs ----

pub open spec fn at_least_one(x: u64) -> u64 {
    if x == 0 {
        1
    } else {
        x
    }
}

/// Multiplication that stops at `u64::MAX`.
pub open spec fn sat_mul(a: u64, b: u64) -> u64 {
    clamp(a * b)
}

pub fn saturating_product(a: u64, b: u64) -> (r: u64)
    ensures
        r == sat_mul(a, b),
{
    let p: u128 = {
        proof {
            assert(a * b <= u64::MAX * u64::MAX) by (nonlinear_arith)
                requires
                    0 <= a <= u64::MAX,
                    0 <= b <= u64::MAX,
            ;
            assert(a * b >= 0) by (nonlinear_arith)
                requires
                    a >= 0,
                    b >= 0,
            ;
        }
        (a as u128) * (b as u128)
    };
    if p > u64::MAX as u128 {
        u64::MAX
    } else {
        p as u64
    }
}

/// Number of slots before the first Shelley slot.
pub open spec fn byron_slots(s: LedgerModel) -> u64 {
    sat_mul(s.byron_epoch_length, s.shelley_transition_epoch)
}

/// Whether a slot lies in the Byron era.
pub open spec fn in_byron(s: LedgerModel, slot: u64) -> bool {
    s.has_byron && (s.shelley_transition_epoch == u64::MAX || slot < byron_slots(s))
}

/// The epoch of a slot: Byron epochs first, Shelley epochs after the hard fork.
pub open spec fn epoch_at(s: LedgerModel, slot: u64) -> u64 {
    if !s.has_byron {
        (slot / at_least_one(s.epoch_length)) as u64
    } else if in_byron(s, slot) {
        (slot / at_least_one(s.byron_epoch_length)) as u64
    } else {
        sat_add(s.shelley_transition_epoch, ((slot - byron_slots(s)) as u64 / at_least_one(s.epoch_length)) as u64)
    }
}

/// How far a slot is into its epoch, and how long that epoch is.
pub open spec fn offset_at(s: LedgerModel, slot: u64) -> (u64, u64) {
    if !s.has_byron {
        let len = at_least_one(s.epoch_length);
        ((slot % len) as u64, len)
    } else if in_byron(s, slot) {
        let len = at_least_one(s.byron_epoch_length);
        ((slot % len) as u64, len)
    } else {
        let len = at_least_one(s.epoch_length);
        (((slot - byron_slots(s)) as u64 % len) as u64, len)
    }
}

/// Whether an epoch is Shelley or later.
pub open spec fn shelley_plus(s: LedgerModel, epoch: u64) -> bool {
    !s.has_byron || (s.shelley_transition_epoch != u64::MAX && epoch >= s.shelley_transition_epoch)
}

/// A slot is its epoch's first slot and its offset: where the epochs of its era
/// have a length and nothing saturates, the slot is the epoch number (counted
/// from the start of the era) times the epoch length, plus the offset, which
/// is less than the length.
pub proof fn law_slot_decomposes(s: LedgerModel, slot: u64)
    requires
        in_byron(s, slot) ==> s.byron_epoch_length > 0,
        !in_byron(s, slot) ==> s.epoch_length > 0,
        s.has_byron && !in_byron(s, slot) ==> s.shelley_transition_epoch + (slot - byron_slots(s)) / s.epoch_length as int
            <= u64::MAX,
    ensures
        ({
            let (off, len) = offset_at(s, slot);
            let e = epoch_at(s, slot);
            &&& off < len
            &&& if s.has_byron && !in_byron(s, slot) {
                slot == byron_slots(s) + (e - s.shelley_transition_epoch) * len + off
            } else {
                slot == e * len + off
            }
        }),
{
    let (off, len) = offset_at(s, slot);
    let base: int = if s.has_byron && !in_byron(s, slot) { byron_slots(s) as int } else { 0 };
    vstd::arithmetic::div_mod::lemma_fundamental_div_mod(slot - base, len as int);
    let q = (slot - base) / len as int;
    assert(q * len == len * q) by (nonlinear_arith);
}

/// Slots of a later Shelley or Byron epoch come later: the epoch never
/// decreases as the slot grows.
pub proof fn law_epoch_monotone(s: LedgerModel, a: u64, b: u64)
    requires
        a <= b,
        s.has_byron && s.shelley_transition_epoch != u64::MAX ==> s.byron_epoch_length > 0
            && s.byron_epoch_length * s.shelley_transition_epoch <= u64::MAX,
    ensures
        epoch_at(s, a) <= epoch_at(s, b),
{
    let l = at_least_one(s.epoch_length) as int;
    let bl = at_least_one(s.byron_epoch_length) as int;
    vstd::arithmetic::div_mod::lemma_div_is_ordered(a as int, b as int, l);
    vstd::arithmetic::div_mod::lemma_div_is_ordered(a as int, b as int, bl);
    if s.has_byron && s.shelley_transition_epoch != u64::MAX {
        let n = s.shelley_transition_epoch as int;
        let bs = byron_slots(s) as int;
        assert(bs == bl * n);
        if a < bs {
            assert(a as int / bl <= n) by {
                vstd::arithmetic::div_mod::lemma_div_is_ordered(a as int, bl * n, bl);
                vstd::arithmetic::div_mod::lemma_div_multiples_vanish(n, bl);
            }
        } else {
            vstd::arithmetic::div_mod::lemma_div_is_ordered(a - bs, b - bs, l);
        }
        if b >= bs {
            vstd::arithmetic::div_mod::lemma_div_pos_is_pos(b - bs, l);
        }
    }
}

/// The first proposal of the Shelley hard fork sets the transition to the
/// epoch after the one that it was made in.
pub open spec fn hard_fork_recorded(s: LedgerModel, proposal_epoch: u64) -> LedgerModel {
    if s.has_byron && s.shelley_transition_epoch == u64::MAX {
        LedgerModel { shelley_transition_epoch: (proposal_epoch + 1) as u64, ..s }
    } else {
        s
    }
}

impl LedgerState {
    pub fn new(params: ProtocolParameters) -> (r: Self)
        ensures
            r@ == initial_ledger(params),
    {
        let zero: Hash32 = [0u8; 32];
        let r = LedgerState {
            epoch: EpochNo(0),
            epoch_length: 432000,
            shelley_transition_epoch: 0,
            byron_epoch_length: 0,
            has_byron: false,
            protocol_params: params,
            stake_distribution: StakeDistributionState { stake_map: Table::new() },
            treasury: Lovelace(0),
            reserves: Lovelace(MAX_LOVELACE_SUPPLY),
            delegations: Table::new(),
            pool_params: Table::new(),
            future_pool_params: Table::new(),
            pending_retirements: Table::new(),
            snapshots: EpochSnapshots { mark: None, set: None, go: None, pay: None, current_epoch_fees: Lovelace(0) },
            reward_accounts: Table::new(),
            epoch_fees: Lovelace(0),
            epoch_blocks_by_pool: Table::new(),
            epoch_block_count: 0,
            evolving_nonce: zero,
            candidate_nonce: zero,
            epoch_nonce: zero,
            lab_nonce: zero,
            last_epoch_block_nonce: zero,
            randomness_stabilisation_window: 172800,
            stability_window_3kf: 129600,
            stability_window_2kf: default_stability_window_2kf(),
            genesis_hash: zero,
            pending_pp_updates: Table::new(),
            update_quorum: default_update_quorum(),
            governance: GovernanceState::new(),
            deposit_tracker: DepositTracker::new(),
            pending_reward_update: None,
            last_applied_rupd: None,
            ppup_enacted_log: None,
            script_stake_credentials: KeySet::new(),
            prev_protocol_params: None,
            conway_genesis_epoch: None,
            pending_enactments: Vec::new(),
            ptr_map: Table::new(),
            prev_epoch_decentralization: default_prev_epoch_decentralization(),
        };
        assert(r@ =~= initial_ledger(params));
        r
    }

    /// Takes the value of the genesis outputs from the reserves.
    pub fn seed_genesis_utxos(&mut self, total_genesis_lovelace: u64)
        ensures
            final(self)@ == (LedgerModel {
                reserves: Lovelace(sat_sub(old(self).reserves.0, total_genesis_lovelace)),
                ..old(self)@
            }),
    {
        self.reserves = Lovelace(self.reserves.0.saturating_sub(total_genesis_lovelace));
    }

    /// Sets the genesis hash.
    pub fn set_genesis_hash(&mut self, hash: [u8; 32])
        ensures
            final(self)@ == (LedgerModel { genesis_hash: hash, ..old(self)@ }),
    {
        self.genesis_hash = hash;
    }

    /// Sets the Shelley epoch length.
    pub fn set_epoch_length(&mut self, length: u64)
        ensures
            final(self)@ == (LedgerModel { epoch_length: length, ..old(self)@ }),
    {
        self.epoch_length = length;
    }

    /// Sets when the Shelley era starts.
    pub fn set_shelley_transition(&mut self, epoch: u64, byron_epoch_length: u64)
        ensures
            final(self)@ == (LedgerModel {
                shelley_transition_epoch: epoch,
                byron_epoch_length,
                ..old(self)@
            }),
    {
        self.shelley_transition_epoch = epoch;
        self.byron_epoch_length = byron_epoch_length;
    }

    /// Sets the quorum for parameter updates.
    pub fn set_update_quorum(&mut self, quorum: u64)
        ensures
            final(self)@ == (LedgerModel { update_quorum: quorum, ..old(self)@ }),
    {
        self.update_quorum = quorum;
    }

    /// The epoch of an absolute slot.
    pub fn epoch_of_slot(&self, slot: u64) -> (r: u64)
        ensures
            r == epoch_at(self@, slot),
    {
        let len: u64 = if self.epoch_length == 0 { 1 } else { self.epoch_length };
        let byron_len: u64 = if self.byron_epoch_length == 0 { 1 } else { self.byron_epoch_length };
        if !self.has_byron {
            return slot / len;
        }
        let n: u64 = self.shelley_transition_epoch;
        if n == u64::MAX {
            return slot / byron_len;
        }
        let before: u64 = saturating_product(self.byron_epoch_length, n);
        if slot < before {
            slot / byron_len
        } else {
            n.saturating_add((slot - before) / len)
        }
    }

    /// The offset of a slot within its epoch, and the length of that epoch.
    pub fn slot_within_epoch(&self, slot: u64) -> (r: (u64, u64))
        ensures
            r == offset_at(self@, slot),
    {
        let len: u64 = if self.epoch_length == 0 { 1 } else { self.epoch_length };
        let byron_len: u64 = if self.byron_epoch_length == 0 { 1 } else { self.byron_epoch_length };
        if !self.has_byron {
            return (slot % len, len);
        }
        let n: u64 = self.shelley_transition_epoch;
        if n == u64::MAX {
            return (slot % byron_len, byron_len);
        }
        let before: u64 = saturating_product(self.byron_epoch_length, n);
        if slot < before {
            (slot % byron_len, byron_len)
        } else {
            ((slot - before) % len, len)
        }
    }

    /// Whether an epoch is Shelley or later.
    pub fn is_shelley_plus_epoch(&self, epoch: u64) -> (r: bool)
        ensures
            r == shelley_plus(self@, epoch),
    {
        if !self.has_byron {
            true
        } else if self.shelley_transition_epoch == u64::MAX {
            false
        } else {
            epoch >= self.shelley_transition_epoch
        }
    }

    /// Notes that the Shelley hard fork was proposed in an epoch: the first
    /// such proposal sets the transition to the next epoch.
    pub fn record_shelley_hf_proposal(&mut self, proposal_epoch: u64)
        requires
            old(self).has_byron && old(self).shelley_transition_epoch == u64::MAX ==> proposal_epoch < u64::MAX,
        ensures
            final(self)@ == hard_fork_recorded(old(self)@, proposal_epoch),
    {
        if self.has_byron && self.shelley_transition_epoch == u64::MAX {
            self.shelley_transition_epoch = proposal_epoch + 1;
        }
    }

    /// Takes protocol parameters from Shelley genesis; what is not given stays.
    pub fn update_protocol_params_from_genesis(
        &mut self,
        rho: Option<Rational>,
        tau: Option<Rational>,
        decentralization: Option<Rational>,
        a0: Option<Rational>,
        n_opt: Option<u64>,
        min_fee_a: Option<u64>,
        min_fee_b: Option<u64>,
        pool_deposit: Option<u64>,
        key_deposit: Option<u64>,
        min_pool_cost: Option<u64>,
        active_slot_coeff: Option<Rational>,
        protocol_version: Option<(u64, u64)>,
    )
        ensures
            final(self)@ == (LedgerModel {
                protocol_params: given_params(
                    old(self).protocol_params,
                    rho,
                    tau,
                    decentralization,
                    a0,
                    n_opt,
                    min_fee_a,
                    min_fee_b,
                    pool_deposit,
                    key_deposit,
                    min_pool_cost,
                    active_slot_coeff,
                    protocol_version,
                ),
                ..old(self)@
            }),
    {
        let p: ProtocolParameters = self.protocol_params;
        let version: (u64, u64) = match protocol_version {
            Some(v) => v,
            None => (p.protocol_version_major, p.protocol_version_minor),
        };
        self.protocol_params = ProtocolParameters {
            rho: keep_or(rho, p.rho),
            tau: keep_or(tau, p.tau),
            decentralization: keep_or(decentralization, p.decentralization),
            a0: keep_or(a0, p.a0),
            n_opt: keep_or(n_opt, p.n_opt),
            min_fee_a: keep_or(min_fee_a, p.min_fee_a),
            min_fee_b: keep_or(min_fee_b, p.min_fee_b),
            pool_deposit: keep_or(pool_deposit, p.pool_deposit),
            key_deposit: keep_or(key_deposit, p.key_deposit),
            min_pool_cost: keep_or(min_pool_cost, p.min_pool_cost),
            min_pool_cost_lovelace: keep_or(min_pool_cost, p.min_pool_cost_lovelace),
            active_slot_coefficient: keep_or(active_slot_coeff, p.active_slot_coefficient),
            protocol_version_major: version.0,
            protocol_version_minor: version.1,
            ..p
        };
    }
}

/// Parameters with those that are given; the others stay.
pub open spec fn given_params(
    p: ProtocolParameters,
    rho: Option<Rational>,
    tau: Option<Rational>,
    decentralization: Option<Rational>,
    a0: Option<Rational>,
    n_opt: Option<u64>,
    min_fee_a: Option<u64>,
    min_fee_b: Option<u64>,
    pool_deposit: Option<u64>,
    key_deposit: Option<u64>,
    min_pool_cost: Option<u64>,
    active_slot_coeff: Option<Rational>,
    protocol_version: Option<(u64, u64)>,
) -> ProtocolParameters {
    ProtocolParameters {
        rho: or_keep(rho, p.rho),
        tau: or_keep(tau, p.tau),
        decentralization: or_keep(decentralization, p.decentralization),
        a0: or_keep(a0, p.a0),
        n_opt: or_keep(n_opt, p.n_opt),
        min_fee_a: or_keep(min_fee_a, p.min_fee_a),
        min_fee_b: or_keep(min_fee_b, p.min_fee_b),
        pool_deposit: or_keep(pool_deposit, p.pool_deposit),
        key_deposit: or_keep(key_deposit, p.key_deposit),
        min_pool_cost: or_keep(min_pool_cost, p.min_pool_cost),
        min_pool_cost_lovelace: or_keep(min_pool_cost, p.min_pool_cost_lovelace),
        active_slot_coefficient: or_keep(active_slot_coeff, p.active_slot_coefficient),
        protocol_version_major: match protocol_version {
            Some(v) => v.0,
            None => p.protocol_version_major,
        },
        protocol_version_minor: match protocol_version {
            Some(v) => v.1,
            None => p.protocol_version_minor,
        },
        ..p
    }
}

/// A new value where there is one.
pub fn keep_or<T: Copy>(new: Option<T>, old: T) -> (r: T)
    ensures
        r == or_keep(new, old),
{
    match new {
        Some(v) => v,
        None => old,
    }
}

pub open spec fn or_keep<T>(new: Option<T>, old: T) -> T {
    match new {
        Some(v) => v,
        None => old,
    }
}

// ---- rewards ----

/// A reward update, computed at one epoch boundary and applied at the next.
pub struct PendingRewardUpdate {
    /// Rewards to add to each stake credential's account.
    pub rewards: Table<Hash32, Lovelace>,
    /// Treasury increase.
    pub delta_treasury: u64,
    /// Reserves decrease (monetary expansion).
    pub delta_reserves: u64,
    /// Rewards that go back to the reserves.
    pub undistributed: u64,
    /// Blocks produced over blocks expected, at most one.
    pub eta: Rational,
    /// Monetary expansion.
    pub delta_r1: u64,
    /// Reward pot before the treasury cut.
    pub r_pot: u64,
    /// Treasury cut.
    pub delta_t1: u64,
    /// Reward pot after the treasury cut.
    pub reward_pot_after_treasury: u64,
    /// Total of the rewards.
    pub total_distributed: u64,
}

/// What a reward update holds.
#[verifier::ext_equal]
pub struct RewardModel {
    pub rewards: Map<Hash32, Lovelace>,
    pub delta_treasury: u64,
    pub delta_reserves: u64,
    pub undistributed: u64,
    pub eta: Rational,
    pub delta_r1: u64,
    pub r_pot: u64,
    pub delta_t1: u64,
    pub reward_pot_after_treasury: u64,
    pub total_distributed: u64,
}

impl Item for PendingRewardUpdate {
    type M = RewardModel;

    open spec fn model(&self) -> RewardModel {
        RewardModel {
            rewards: self.rewards@,
            delta_treasury: self.delta_treasury,
            delta_reserves: self.delta_reserves,
            undistributed: self.undistributed,
            eta: self.eta,
            delta_r1: self.delta_r1,
            r_pot: self.r_pot,
            delta_t1: self.delta_t1,
            reward_pot_after_treasury: self.reward_pot_after_treasury,
            total_distributed: self.total_distributed,
        }
    }

    fn dup(&self) -> (r: Self) {
        PendingRewardUpdate {
            rewards: self.rewards.dup(),
            delta_treasury: self.delta_treasury,
            delta_reserves: self.delta_reserves,
            undistributed: self.undistributed,
            eta: self.eta,
            delta_r1: self.delta_r1,
            r_pot: self.r_pot,
            delta_t1: self.delta_t1,
            reward_pot_after_treasury: self.reward_pot_after_treasury,
            total_distributed: self.total_distributed,
        }
    }
}

// ---- governance ----

/// Conway governance state (CIP-1694).
pub struct GovernanceState {
    /// Registered DReps.
    pub dreps: Table<Hash32, DRepRegistration>,
    /// Whom a stake credential gives its vote to.
    pub vote_delegations: Table<Hash32, DRep>,
    /// Hot credential of a cold committee credential.
    pub committee_hot_keys: Table<Hash32, Hash32>,
    /// When a committee member's term ends.
    pub committee_expiration: Table<Hash32, EpochNo>,
    /// Members that resigned.
    pub committee_resigned: Table<Hash32, Option<Anchor>>,
    /// Cold credentials that are script hashes.
    pub script_committee_credentials: KeySet<Hash32>,
    /// Hot credentials that are script hashes.
    pub script_committee_hot_credentials: KeySet<Hash32>,
    /// Open proposals.
    pub proposals: Table<GovActionId, ProposalState>,
    /// Votes cast on each action, in order.
    pub votes_by_action: Table<GovActionId, Vec<(Voter, VotingProcedure)>>,
    /// DRep registrations so far.
    pub drep_registration_count: u64,
    /// Proposals submitted so far.
    pub proposal_count: u64,
    /// Current constitution.
    pub constitution: Option<Constitution>,
    /// Whether the committee is in a no-confidence state.
    pub no_confidence: bool,
    /// Committee quorum.
    pub committee_threshold: Option<Rational>,
    /// Last enacted action of each purpose.
    pub enacted_pparam_update: Option<GovActionId>,
    pub enacted_hard_fork: Option<GovActionId>,
    pub enacted_committee: Option<GovActionId>,
    pub enacted_constitution: Option<GovActionId>,
    /// What the last ratification decided.
    pub last_ratified: Vec<(GovActionId, ProposalState)>,
    pub last_expired: Vec<GovActionId>,
    pub last_ratify_delayed: bool,
    /// Conway parameters, from the first Conway epoch on.
    pub conway_cur_params: Option<ProtocolParameters>,
    /// Stake behind each DRep at the last epoch boundary.
    pub drep_power_snapshot: Table<Hash32, u64>,
    pub drep_no_confidence_snapshot: u64,
    pub drep_abstain_snapshot: u64,
}

/// What the governance state holds.
#[verifier::ext_equal]
pub struct GovernanceModel {
    pub dreps: Map<Hash32, DRepModel>,
    pub vote_delegations: Map<Hash32, DRep>,
    pub committee_hot_keys: Map<Hash32, Hash32>,
    pub committee_expiration: Map<Hash32, EpochNo>,
    pub committee_resigned: Map<Hash32, Option<Anchor>>,
    pub script_committee_credentials: Set<Hash32>,
    pub script_committee_hot_credentials: Set<Hash32>,
    pub proposals: Map<GovActionId, ProposalModel>,
    pub votes_by_action: Map<GovActionId, Seq<(Voter, VotingProcedure)>>,
    pub drep_registration_count: u64,
    pub proposal_count: u64,
    pub constitution: Option<Constitution>,
    pub no_confidence: bool,
    pub committee_threshold: Option<Rational>,
    pub enacted_pparam_update: Option<GovActionId>,
    pub enacted_hard_fork: Option<GovActionId>,
    pub enacted_committee: Option<GovActionId>,
    pub enacted_constitution: Option<GovActionId>,
    pub last_ratified: Seq<(GovActionId, ProposalModel)>,
    pub last_expired: Seq<GovActionId>,
    pub last_ratify_delayed: bool,
    pub conway_cur_params: Option<ProtocolParameters>,
    pub drep_power_snapshot: Map<Hash32, u64>,
    pub drep_no_confidence_snapshot: u64,
    pub drep_abstain_snapshot: u64,
}

pub open spec fn ratified_models(s: Seq<(GovActionId, ProposalState)>) -> Seq<(GovActionId, ProposalModel)> {
    Seq::new(s.len(), |i: int| (s[i].0, s[i].1.model()))
}

impl GovernanceState {
    pub open spec fn view(&self) -> GovernanceModel {
        GovernanceModel {
            dreps: self.dreps@,
            vote_delegations: self.vote_delegations@,
            committee_hot_keys: self.committee_hot_keys@,
            committee_expiration: self.committee_expiration@,
            committee_resigned: self.committee_resigned@,
            script_committee_credentials: self.script_committee_credentials@,
            script_committee_hot_credentials: self.script_committee_hot_credentials@,
            proposals: self.proposals@,
            votes_by_action: self.votes_by_action@,
            drep_registration_count: self.drep_registration_count,
            proposal_count: self.proposal_count,
            constitution: self.constitution,
            no_confidence: self.no_confidence,
            committee_threshold: self.committee_threshold,
            enacted_pparam_update: self.enacted_pparam_update,
            enacted_hard_fork: self.enacted_hard_fork,
            enacted_committee: self.enacted_committee,
            enacted_constitution: self.enacted_constitution,
            last_ratified: ratified_models(self.last_ratified@),
            last_expired: self.last_expired@,
            last_ratify_delayed: self.last_ratify_delayed,
            conway_cur_params: self.conway_cur_params,
            drep_power_snapshot: self.drep_power_snapshot@,
            drep_no_confidence_snapshot: self.drep_no_confidence_snapshot,
            drep_abstain_snapshot: self.drep_abstain_snapshot,
        }
    }

    pub fn new() -> (r: Self)
        ensures
            r@ == initial_governance(),
    {
        let r = GovernanceState {
            dreps: Table::new(),
            vote_delegations: Table::new(),
            committee_hot_keys: Table::new(),
            committee_expiration: Table::new(),
            committee_resigned: Table::new(),
            script_committee_credentials: KeySet::new(),
            script_committee_hot_credentials: KeySet::new(),
            proposals: Table::new(),
            votes_by_action: Table::new(),
            drep_registration_count: 0,
            proposal_count: 0,
            constitution: None,
            no_confidence: false,
            committee_threshold: None,
            enacted_pparam_update: None,
            enacted_hard_fork: None,
            enacted_committee: None,
            enacted_constitution: None,
            last_ratified: Vec::new(),
            last_expired: Vec::new(),
            last_ratify_delayed: false,
            conway_cur_params: None,
            drep_power_snapshot: Table::new(),
            drep_no_confidence_snapshot: 0,
            drep_abstain_snapshot: 0,
        };
        assert(r@ =~= initial_governance());
        r
    }
}

/// Governance before anything happened.
pub open spec fn initial_governance() -> GovernanceModel {
    GovernanceModel {
        dreps: Map::empty(),
        vote_delegations: Map::empty(),
        committee_hot_keys: Map::empty(),
        committee_expiration: Map::empty(),
        committee_resigned: Map::empty(),
        script_committee_credentials: Set::empty(),
        script_committee_hot_credentials: Set::empty(),
        proposals: Map::empty(),
        votes_by_action: Map::empty(),
        drep_registration_count: 0,
        proposal_count: 0,
        constitution: None,
        no_confidence: false,
        committee_threshold: None,
        enacted_pparam_update: None,
        enacted_hard_fork: None,
        enacted_committee: None,
        enacted_constitution: None,
        last_ratified: Seq::empty(),
        last_expired: Seq::empty(),
        last_ratify_delayed: false,
        conway_cur_params: None,
        drep_power_snapshot: Map::empty(),
        drep_no_confidence_snapshot: 0,
        drep_abstain_snapshot: 0,
    }
}

impl Item for Vec<(Voter, VotingProcedure)> {
    type M = Seq<(Voter, VotingProcedure)>;

    open spec fn model(&self) -> Seq<(Voter, VotingProcedure)> {
        self@
    }

    fn dup(&self) -> (r: Self) {
        let r: Vec<(Voter, VotingProcedure)> = dup_vec(self);
        assert(r@ =~= self@);
        r
    }
}

/// Registration of a DRep.
pub struct DRepRegistration {
    pub credential: Credential,
    pub deposit: Lovelace,
    pub anchor: Option<Anchor>,
    pub registered_epoch: EpochNo,
    /// Last epoch in which this DRep voted or updated.
    pub last_active_epoch: EpochNo,
    pub active: bool,
    /// Stake credentials that delegated to this DRep. At protocol version 9 a
    /// credential that moves on to another registered DRep stays in here.
    pub delegs: KeySet<Hash32>,
}

/// What a DRep registration holds.
#[verifier::ext_equal]
pub struct DRepModel {
    pub credential: Credential,
    pub deposit: Lovelace,
    pub anchor: Option<Anchor>,
    pub registered_epoch: EpochNo,
    pub last_active_epoch: EpochNo,
    pub active: bool,
    pub delegs: Set<Hash32>,
}

impl Item for DRepRegistration {
    type M = DRepModel;

    open spec fn model(&self) -> DRepModel {
        DRepModel {
            credential: self.credential,
            deposit: self.deposit,
            anchor: self.anchor,
            registered_epoch: self.registered_epoch,
            last_active_epoch: self.last_active_epoch,
            active: self.active,
            delegs: self.delegs@,
        }
    }

    fn dup(&self) -> (r: Self) {
        DRepRegistration {
            credential: self.credential,
            deposit: self.deposit,
            anchor: dup_anchor(&self.anchor),
            registered_epoch: self.registered_epoch,
            last_active_epoch: self.last_active_epoch,
            active: self.active,
            delegs: self.delegs.dup(),
        }
    }
}

/// State of a governance proposal.
pub struct ProposalState {
    pub procedure: ProposalProcedure,
    pub proposed_epoch: EpochNo,
    pub expires_epoch: EpochNo,
    pub yes_votes: u64,
    pub no_votes: u64,
    pub abstain_votes: u64,
}

/// What a proposal holds.
pub struct ProposalModel {
    pub procedure: ProcedureModel,
    pub proposed_epoch: EpochNo,
    pub expires_epoch: EpochNo,
    pub yes_votes: u64,
    pub no_votes: u64,
    pub abstain_votes: u64,
}

impl Item for ProposalState {
    type M = ProposalModel;

    open spec fn model(&self) -> ProposalModel {
        ProposalModel {
            procedure: self.procedure.model(),
            proposed_epoch: self.proposed_epoch,
            expires_epoch: self.expires_epoch,
            yes_votes: self.yes_votes,
            no_votes: self.no_votes,
            abstain_votes: self.abstain_votes,
        }
    }

    fn dup(&self) -> (r: Self) {
        ProposalState {
            procedure: self.procedure.dup(),
            proposed_epoch: self.proposed_epoch,
            expires_epoch: self.expires_epoch,
            yes_votes: self.yes_votes,
            no_votes: self.no_votes,
            abstain_votes: self.abstain_votes,
        }
    }
}

/// A ratified action on its way to enactment.
pub struct PendingEnactment {
    pub action_id: GovActionId,
    pub gov_action: GovernanceAction,
    pub return_cred_hash: Hash32,
    pub deposit: Lovelace,
}

/// What a pending enactment holds.
pub struct EnactmentModel {
    pub action_id: GovActionId,
    pub gov_action: ActionModel,
    pub return_cred_hash: Hash32,
    pub deposit: Lovelace,
}

impl PendingEnactment {
    pub open spec fn model(&self) -> EnactmentModel {
        EnactmentModel {
            action_id: self.action_id,
            gov_action: self.gov_action.model(),
            return_cred_hash: self.return_cred_hash,
            deposit: self.deposit,
        }
    }
}

// ---- stake ----

/// Stake of each credential in unspent outputs.
pub struct StakeDistributionState {
    pub stake_map: Table<Hash32, Lovelace>,
}

/// The snapshots of the stake distribution: "mark" of the last boundary, "set"
/// of the one before (leader election), "go" of the one before that (reward
/// stake), and "pay": the stake of go with the blocks of the epoch that ended.
pub struct EpochSnapshots {
    pub mark: Option<StakeSnapshot>,
    pub set: Option<StakeSnapshot>,
    pub go: Option<StakeSnapshot>,
    pub pay: Option<StakeSnapshot>,
    /// Fees of the epoch that ended at the last boundary.
    pub current_epoch_fees: Lovelace,
}

/// What the snapshots hold.
#[verifier::ext_equal]
pub struct SnapshotsModel {
    pub mark: Option<SnapshotModel>,
    pub set: Option<SnapshotModel>,
    pub go: Option<SnapshotModel>,
    pub pay: Option<SnapshotModel>,
    pub current_epoch_fees: Lovelace,
}

impl EpochSnapshots {
    pub open spec fn model(&self) -> SnapshotsModel {
        SnapshotsModel {
            mark: self.mark.model(),
            set: self.set.model(),
            go: self.go.model(),
            pay: self.pay.model(),
            current_epoch_fees: self.current_epoch_fees,
        }
    }
}

/// The stake distribution at an epoch boundary.
pub struct StakeSnapshot {
    pub epoch: EpochNo,
    /// Which pool a credential delegates to.
    pub delegations: Table<Hash32, Hash28>,
    /// Total stake delegated to each pool.
    pub pool_stake: Table<Hash28, Lovelace>,
    /// Pool parameters at snapshot time.
    pub pool_params: Table<Hash28, PoolRegistration>,
    /// Stake of each credential.
    pub stake_distribution: Table<Hash32, Lovelace>,
    /// Blocks produced by each pool.
    pub epoch_blocks_by_pool: Table<Hash28, u64>,
    /// Stake credentials that are script hashes, at snapshot time.
    pub script_stake_credentials: KeySet<Hash32>,
}

/// What a stake snapshot holds.
#[verifier::ext_equal]
pub struct SnapshotModel {
    pub epoch: EpochNo,
    pub delegations: Map<Hash32, Hash28>,
    pub pool_stake: Map<Hash28, Lovelace>,
    pub pool_params: Map<Hash28, PoolModel>,
    pub stake_distribution: Map<Hash32, Lovelace>,
    pub epoch_blocks_by_pool: Map<Hash28, u64>,
    pub script_stake_credentials: Set<Hash32>,
}

impl Item for StakeSnapshot {
    type M = SnapshotModel;

    open spec fn model(&self) -> SnapshotModel {
        SnapshotModel {
            epoch: self.epoch,
            delegations: self.delegations@,
            pool_stake: self.pool_stake@,
            pool_params: self.pool_params@,
            stake_distribution: self.stake_distribution@,
            epoch_blocks_by_pool: self.epoch_blocks_by_pool@,
            script_stake_credentials: self.script_stake_credentials@,
        }
    }

    fn dup(&self) -> (r: Self) {
        StakeSnapshot {
            epoch: self.epoch,
            delegations: self.delegations.dup(),
            pool_stake: self.pool_stake.dup(),
            pool_params: self.pool_params.dup(),
            stake_distribution: self.stake_distribution.dup(),
            epoch_blocks_by_pool: self.epoch_blocks_by_pool.dup(),
            script_stake_credentials: self.script_stake_credentials.dup(),
        }
    }
}

/// Registration of a pool.
pub struct PoolRegistration {
    pub pool_id: Hash28,
    pub vrf_keyhash: Hash32,
    pub pledge: Lovelace,
    pub cost: Lovelace,
    pub margin_numerator: u64,
    pub margin_denominator: u64,
    /// Reward account of the operator.
    pub reward_account: Vec<u8>,
    /// Stake key hashes of the owners.
    pub owners: Vec<Hash28>,
    pub relays: Vec<Relay>,
    pub metadata_url: Option<String>,
    pub metadata_hash: Option<Hash32>,
}

/// What a pool registration holds.
#[verifier::ext_equal]
pub struct PoolModel {
    pub pool_id: Hash28,
    pub vrf_keyhash: Hash32,
    pub pledge: Lovelace,
    pub cost: Lovelace,
    pub margin_numerator: u64,
    pub margin_denominator: u64,
    pub reward_account: Seq<u8>,
    pub owners: Seq<Hash28>,
    pub relays: Seq<Relay>,
    pub metadata_url: Option<String>,
    pub metadata_hash: Option<Hash32>,
}

impl Item for PoolRegistration {
    type M = PoolModel;

    open spec fn model(&self) -> PoolModel {
        PoolModel {
            pool_id: self.pool_id,
            vrf_keyhash: self.vrf_keyhash,
            pledge: self.pledge,
            cost: self.cost,
            margin_numerator: self.margin_numerator,
            margin_denominator: self.margin_denominator,
            reward_account: self.reward_account@,
            owners: self.owners@,
            relays: self.relays@,
            metadata_url: self.metadata_url,
            metadata_hash: self.metadata_hash,
        }
    }

    fn dup(&self) -> (r: Self) {
        let owners: Vec<Hash28> = dup_vec(&self.owners);
        assert(owners@ =~= self.owners@);
        let relays: Vec<Relay> = dup_vec(&self.relays);
        assert(relays@ =~= self.relays@);
        PoolRegistration {
            pool_id: self.pool_id,
            vrf_keyhash: self.vrf_keyhash,
            pledge: self.pledge,
            cost: self.cost,
            margin_numerator: self.margin_numerator,
            margin_denominator: self.margin_denominator,
            reward_account: self.reward_account.dup(),
            owners,
            relays,
            metadata_url: match &self.metadata_url {
                Some(u) => Some(u.clone()),
                None => None,
            },
            metadata_hash: self.metadata_hash,
        }
    }
}

// ---- reward accounts ----

/// The credential hash of a reward account: 28 bytes behind the header, a tag
/// (1 where the header says script), zeros; all zeros for a short account.
pub open spec fn account_hash(account: Seq<u8>) -> Seq<u8> {
    if account.len() >= 29 {
        padded(account.subrange(1, 29)).update(28, if account[0] >= 0xf0 { 1u8 } else { 0u8 })
    } else {
        Seq::new(32, |i: int| 0u8)
    }
}

/// The credential hash of a reward account as an array.
pub open spec fn account_key(account: Seq<u8>) -> Hash32 {
    choose|h: Hash32| h@ == account_hash(account)
}

impl LedgerState {
    /// The stake credential hash of a reward account. Accounts are 29 bytes:
    /// a header and a 28-byte hash; byte 28 of the result tells a script (1)
    /// from a key (0).
    pub fn reward_account_to_hash(reward_account: &[u8]) -> (r: Hash32)
        ensures
            r@ == account_hash(reward_account@),
            r == account_key(reward_account@),
    {
        if reward_account.len() >= 29 {
            let header: u8 = reward_account[0];
            assert((header & 0xf0u8) == 0xf0u8 <==> header >= 0xf0u8) by (bit_vector);
            let tag: u8 = if (header & 0xf0) == 0xf0 { 1 } else { 0 };
            let r = hash32_tagged(reward_account, 1, tag);
            proof {
                lemma_account_key(r, reward_account@);
            }
            r
        } else {
            let r: Hash32 = [0u8; 32];
            assert(r@ =~= account_hash(reward_account@));
            proof {
                lemma_account_key(r, reward_account@);
            }
            r
        }
    }
}

pub proof fn lemma_account_key(h: Hash32, account: Seq<u8>)
    requires
        h@ == account_hash(account),
    ensures
        h == account_key(account),
{
    let k = account_key(account);
    assert(k@ == account_hash(account));
    assert(h =~= k);
}

// ---- deposits ----

/// Deposits of all kinds, by credential. Governance and DRep deposits count as
/// voting stake and not as staking stake.
pub struct DepositTracker {
    pub deposits: Table<Hash32, DepositsByType>,
}

/// Deposits of one credential.
pub struct DepositsByType {
    /// Pool registration deposit; voting and staking stake.
    pub pool: Option<Lovelace>,
    /// Stake key registration deposit; voting and staking stake.
    pub stake: Option<Lovelace>,
    /// Governance proposal deposits; voting stake only.
    pub governance: Vec<(GovActionId, Lovelace)>,
    /// DRep registration deposit; voting stake only.
    pub drep: Option<Lovelace>,
}

/// What the deposits of one credential are.
#[verifier::ext_equal]
pub struct DepositsModel {
    pub pool: Option<Lovelace>,
    pub stake: Option<Lovelace>,
    pub governance: Seq<(GovActionId, Lovelace)>,
    pub drep: Option<Lovelace>,
}

impl Item for DepositsByType {
    type M = DepositsModel;

    open spec fn model(&self) -> DepositsModel {
        DepositsModel { pool: self.pool, stake: self.stake, governance: self.governance@, drep: self.drep }
    }

    fn dup(&self) -> (r: Self) {
        let governance: Vec<(GovActionId, Lovelace)> = dup_vec(&self.governance);
        assert(governance@ =~= self.governance@);
        DepositsByType { pool: self.pool, stake: self.stake, governance, drep: self.drep }
    }
}

/// No deposit at all.
pub open spec fn no_deposits() -> DepositsModel {
    DepositsModel { pool: None, stake: None, governance: Seq::empty(), drep: None }
}

impl Default for DepositsByType {
    fn default() -> (r: Self)
        ensures
            r.model() == no_deposits(),
    {
        let r = DepositsByType { pool: None, stake: None, governance: Vec::new(), drep: None };
        assert(r.model() =~= no_deposits());
        r
    }
}

pub open spec fn amount_of(x: Option<Lovelace>) -> nat {
    match x {
        Some(l) => l.0 as nat,
        None => 0,
    }
}

pub open spec fn gov_total(s: Seq<(GovActionId, Lovelace)>) -> nat
    decreases s.len(),
{
    if s.len() == 0 {
        0
    } else {
        gov_total(s.drop_last()) + s.last().1.0 as nat
    }
}

/// Everything that a credential has deposited.
pub open spec fn deposit_total(d: DepositsModel) -> nat {
    amount_of(d.pool) + amount_of(d.stake) + gov_total(d.governance) + amount_of(d.drep)
}

/// What counts for block production.
pub open spec fn deposit_staking(d: DepositsModel) -> nat {
    amount_of(d.pool) + amount_of(d.stake)
}

impl DepositsByType {
    /// Total deposits.
    pub fn total(&self) -> (r: Lovelace)
        ensures
            r == Lovelace(clamp(deposit_total(self.model()) as int)),
    {
        let mut sum = Lovelace(0);
        if let Some(pool) = self.pool {
            sum = sum + pool;
        }
        if let Some(stake) = self.stake {
            sum = sum + stake;
        }
        let ghost base = amount_of(self.pool) + amount_of(self.stake);
        let mut i: usize = 0;
        while i < self.governance.len()
            invariant
                i <= self.governance.len(),
                sum.0 == clamp((base + gov_total(self.governance@.take(i as int))) as int),
            decreases self.governance.len() - i,
        {
            assert(self.governance@.take(i + 1).drop_last() =~= self.governance@.take(i as int));
            sum = sum + self.governance[i].1;
            i += 1;
        }
        assert(self.governance@.take(i as int) =~= self.governance@);
        if let Some(drep) = self.drep {
            sum = sum + drep;
        }
        sum
    }

    /// Voting stake: all deposits.
    pub fn voting_stake(&self) -> (r: Lovelace)
        ensures
            r == Lovelace(clamp(deposit_total(self.model()) as int)),
    {
        self.total()
    }

    /// Staking stake: pool and stake deposits only.
    pub fn staking_stake(&self) -> (r: Lovelace)
        ensures
            r == Lovelace(clamp(deposit_staking(self.model()) as int)),
    {
        let mut sum = Lovelace(0);
        if let Some(pool) = self.pool {
            sum = sum + pool;
        }
        if let Some(stake) = self.stake {
            sum = sum + stake;
        }
        sum
    }
}

/// A kind of deposit.
#[derive(Debug, Clone, Copy, PartialEq, Eq)]
pub enum DepositType {
    Pool,
    Stake,
    Governance(GovActionId),
    DRep,
}

pub open spec fn deposits_of(m: Map<Hash32, DepositsModel>, cred: Hash32) -> DepositsModel {
    if m.dom().contains(cred) {
        m[cred]
    } else {
        no_deposits()
    }
}

/// The deposits with one more.
pub open spec fn with_deposit(
    m: Map<Hash32, DepositsModel>,
    cred: Hash32,
    deposit_type: DepositType,
    amount: Lovelace,
) -> Map<Hash32, DepositsModel> {
    let d = deposits_of(m, cred);
    m.insert(
        cred,
        match deposit_type {
            DepositType::Pool => DepositsModel { pool: Some(amount), ..d },
            DepositType::Stake => DepositsModel { stake: Some(amount), ..d },
            DepositType::Governance(id) => DepositsModel { governance: d.governance.push((id, amount)), ..d },
            DepositType::DRep => DepositsModel { drep: Some(amount), ..d },
        },
    )
}

/// Where the first deposit for an action stands.
pub open spec fn gov_position(s: Seq<(GovActionId, Lovelace)>, id: GovActionId) -> Option<int>
    decreases s.len(),
{
    if s.len() == 0 {
        None
    } else {
        match gov_position(s.drop_last(), id) {
            Some(i) => Some(i),
            None => if s.last().0 == id {
                Some(s.len() - 1)
            } else {
                None
            },
        }
    }
}

/// What a refund pays out.
pub open spec fn refund_amount(
    m: Map<Hash32, DepositsModel>,
    cred: Hash32,
    deposit_type: DepositType,
) -> Option<Lovelace> {
    let d = deposits_of(m, cred);
    match deposit_type {
        DepositType::Pool => d.pool,
        DepositType::Stake => d.stake,
        DepositType::Governance(id) => match gov_position(d.governance, id) {
            Some(i) => Some(d.governance[i].1),
            None => None,
        },
        DepositType::DRep => d.drep,
    }
}

/// The deposits after a refund.
pub open spec fn without_deposit(
    m: Map<Hash32, DepositsModel>,
    cred: Hash32,
    deposit_type: DepositType,
) -> Map<Hash32, DepositsModel> {
    if !m.dom().contains(cred) {
        m
    } else {
        let d = m[cred];
        match deposit_type {
            DepositType::Pool => m.insert(cred, DepositsModel { pool: None, ..d }),
            DepositType::Stake => m.insert(cred, DepositsModel { stake: None, ..d }),
            DepositType::Governance(id) => match gov_position(d.governance, id) {
                Some(i) => m.insert(cred, DepositsModel { governance: d.governance.remove(i), ..d }),
                None => m,
            },
            DepositType::DRep => m.insert(cred, DepositsModel { drep: None, ..d }),
        }
    }
}

pub(crate) proof fn lemma_gov_position_range(s: Seq<(GovActionId, Lovelace)>, id: GovActionId)
    ensures
        gov_position(s, id) matches Some(i) ==> 0 <= i < s.len() && s[i].0 == id,
        gov_position(s, id) is None ==> forall|j: int| #![trigger s[j]] 0 <= j < s.len() ==> s[j].0 != id,
    decreases s.len(),
{
    if s.len() > 0 {
        lemma_gov_position_range(s.drop_last(), id);
        if gov_position(s, id) is None {
            assert forall|j: int| #![trigger s[j]] 0 <= j < s.len() implies s[j].0 != id by {
                if j < s.len() - 1 {
                    assert(s.drop_last()[j] == s[j]);
                }
            }
        }
    }
}

proof fn lemma_gov_position_prefix(s: Seq<(GovActionId, Lovelace)>, id: GovActionId, i: int)
    requires
        0 <= i < s.len(),
        s[i].0 == id,
        gov_position(s.take(i), id) is None,
    ensures
        gov_position(s, id) == Some(i),
    decreases s.len(),
{
    if i == s.len() - 1 {
        assert(s.drop_last() =~= s.take(i));
    } else {
        assert(s.drop_last().take(i) =~= s.take(i));
        lemma_gov_position_prefix(s.drop_last(), id, i);
    }
}

impl DepositTracker {
    pub fn new() -> (r: Self)
        ensures
            r.deposits@ == Map::<Hash32, DepositsModel>::empty(),
    {
        DepositTracker { deposits: Table::new() }
    }

    /// Adds a deposit.
    pub fn add_deposit(&mut self, cred: Hash32, deposit_type: DepositType, amount: Lovelace)
        ensures
            final(self).deposits@ == with_deposit(old(self).deposits@, cred, deposit_type, amount),
    {
        let ghost m = self.deposits@;
        let mut entry: DepositsByType = match self.deposits.remove(&cred) {
            Some(e) => e,
            None => DepositsByType::default(),
        };
        match deposit_type {
            DepositType::Pool => {
                entry.pool = Some(amount);
            },
            DepositType::Stake => {
                entry.stake = Some(amount);
            },
            DepositType::Governance(id) => {
                entry.governance.push((id, amount));
            },
            DepositType::DRep => {
                entry.drep = Some(amount);
            },
        }
        self.deposits.insert(cred, entry);
        assert(self.deposits@ =~= with_deposit(m, cred, deposit_type, amount));
    }

    /// Refunds a deposit; gives back its amount.
    pub fn refund_deposit(&mut self, cred: &Hash32, deposit_type: DepositType) -> (r: Option<Lovelace>)
        ensures
            r == refund_amount(old(self).deposits@, *cred, deposit_type),
            final(self).deposits@ == without_deposit(old(self).deposits@, *cred, deposit_type),
    {
        let ghost m = self.deposits@;
        let mut entry: DepositsByType = match self.deposits.remove(cred) {
            Some(e) => e,
            None => {
                assert(self.deposits@ =~= m);
                return None;
            },
        };
        let ghost d = m[*cred];
        let r: Option<Lovelace>;
        match deposit_type {
            DepositType::Pool => {
                r = entry.pool;
                entry.pool = None;
            },
            DepositType::Stake => {
                r = entry.stake;
                entry.stake = None;
            },
            DepositType::Governance(id) => {
                let mut found: Option<Lovelace> = None;
                let mut i: usize = 0;
                while i < entry.governance.len() && found.is_none()
                    invariant
                        i <= entry.governance.len(),
                        entry.pool == d.pool,
                        entry.stake == d.stake,
                        entry.drep == d.drep,
                        found is None ==> entry.governance@ == d.governance && gov_position(
                            d.governance.take(i as int),
                            id,
                        ) is None,
                        found matches Some(x) ==> gov_position(d.governance, id) matches Some(j) && x
                            == d.governance[j].1 && entry.governance@ == d.governance.remove(j),
                    decreases entry.governance.len() - i, found is None as int,
                {
                    if entry.governance[i].0.same(&id) {
                        proof {
                            lemma_gov_position_prefix(d.governance, id, i as int);
                        }
                        found = Some(entry.governance.remove(i).1);
                    } else {
                        assert(d.governance.take(i + 1).drop_last() =~= d.governance.take(i as int));
                        i += 1;
                    }
                }
                assert(found is None ==> d.governance.take(i as int) =~= d.governance);
                r = found;
            },
            DepositType::DRep => {
                r = entry.drep;
                entry.drep = None;
            },
        }
        let ghost e = entry.model();
        self.deposits.insert(*cred, entry);
        proof {
            assert(m.remove(*cred).insert(*cred, e) =~= m.insert(*cred, e));
            if e == d {
                assert(m.insert(*cred, e) =~= m);
            }
            assert(self.deposits@ =~= without_deposit(m, *cred, deposit_type));
        }
        r
    }

    /// Total deposits of a credential.
    pub fn get_total_deposits(&self, cred: &Hash32) -> (r: Lovelace)
        ensures
            r == Lovelace(clamp(deposit_total(deposits_of(self.deposits@, *cred)) as int)),
    {
        match self.deposits.get(cred) {
            Some(d) => d.total(),
            None => Lovelace(0),
        }
    }

    /// Voting stake of a credential.
    pub fn get_voting_stake(&self, cred: &Hash32) -> (r: Lovelace)
        ensures
            r == Lovelace(clamp(deposit_total(deposits_of(self.deposits@, *cred)) as int)),
    {
        match self.deposits.get(cred) {
            Some(d) => d.voting_stake(),
            None => Lovelace(0),
        }
    }

    /// Staking stake of a credential.
    pub fn get_staking_stake(&self, cred: &Hash32) -> (r: Lovelace)
        ensures
            r == Lovelace(clamp(deposit_staking(deposits_of(self.deposits@, *cred)) as int)),
    {
        match self.deposits.get(cred) {
            Some(d) => d.staking_stake(),
            None => Lovelace(0),
        }
    }

    /// Sum of the governance deposits that go back to a credential.
    pub fn governance_deposits_by_return_cred(&self, cred: &Hash32) -> (r: u64)
        requires
            gov_total(deposits_of(self.deposits@, *cred).governance) <= u64::MAX,
        ensures
            r == gov_total(deposits_of(self.deposits@, *cred).governance),
    {
        match self.deposits.get(cred) {
            Some(d) => {
                let mut sum: u64 = 0;
                let mut i: usize = 0;
                let ghost s = d.governance@;
                while i < d.governance.len()
                    invariant
                        i <= d.governance.len(),
                        s == d.governance@,
                        sum == gov_total(s.take(i as int)),
                        gov_total(s) <= u64::MAX,
                    decreases d.governance.len() - i,
                {
                    proof {
                        assert(s.take(i + 1).drop_last() =~= s.take(i as int));
                        lemma_gov_total_prefix(s, i + 1);
                    }
                    sum += d.governance[i].1.0;
                    i += 1;
                }
                assert(s.take(i as int) =~= s);
                sum
            },
            None => 0,
        }
    }
}

pub proof fn lemma_gov_total_prefix(s: Seq<(GovActionId, Lovelace)>, i: int)
    requires
        0 <= i <= s.len(),
    ensures
        gov_total(s.take(i)) <= gov_total(s),
    decreases s.len() - i,
{
    if i == s.len() {
        assert(s.take(i) =~= s);
    } else {
        assert(s.take(i + 1).drop_last() =~= s.take(i));
        lemma_gov_total_prefix(s, i + 1);
    }
}

proof fn lemma_gov_total_remove(s: Seq<(GovActionId, Lovelace)>, i: int)
    requires
        0 <= i < s.len(),
    ensures
        gov_total(s) == gov_total(s.remove(i)) + s[i].1.0,
    decreases s.len(),
{
    if i == s.len() - 1 {
        assert(s.remove(i) =~= s.drop_last());
    } else {
        lemma_gov_total_remove(s.drop_last(), i);
        assert(s.remove(i).drop_last() =~= s.drop_last().remove(i));
        assert(s.remove(i).last() == s.last());
    }
}

// ---- laws on deposits ----

/// Staking stake never exceeds voting stake, and is less wherever governance
/// or DRep deposits are above zero.
pub proof fn law_staking_within_voting(d: DepositsModel)
    ensures
        deposit_staking(d) <= deposit_total(d),
        gov_total(d.governance) + amount_of(d.drep) > 0 ==> deposit_staking(d) < deposit_total(d),
        clamp(deposit_staking(d) as int) <= clamp(deposit_total(d) as int),
{
}

/// A deposit is paid back in full: right after it was added, a refund of the
/// same kind gives the same amount (for a governance deposit, where the action
/// had none before).
pub proof fn law_deposit_refunded(m: Map<Hash32, DepositsModel>, cred: Hash32, deposit_type: DepositType, amount: Lovelace)
    requires
        deposit_type matches DepositType::Governance(id) ==> gov_position(deposits_of(m, cred).governance, id) is None,
    ensures
        refund_amount(with_deposit(m, cred, deposit_type, amount), cred, deposit_type) == Some(amount),
{
    if let DepositType::Governance(id) = deposit_type {
        let s = deposits_of(m, cred).governance;
        assert(s.push((id, amount)).drop_last() =~= s);
    }
}

/// Adding a governance deposit and refunding it is a round trip: the deposits
/// of the credential are what they were.
pub proof fn law_governance_deposit_round_trip(m: Map<Hash32, DepositsModel>, cred: Hash32, id: GovActionId, amount: Lovelace)
    requires
        gov_position(deposits_of(m, cred).governance, id) is None,
    ensures
        deposits_of(
            without_deposit(
                with_deposit(m, cred, DepositType::Governance(id), amount),
                cred,
                DepositType::Governance(id),
            ),
            cred,
        ) == deposits_of(m, cred),
{
    let d = deposits_of(m, cred);
    let s = d.governance;
    assert(s.push((id, amount)).drop_last() =~= s);
    assert(s.push((id, amount)).remove(s.len() as int) =~= s);
}

/// Refunding a governance deposit takes exactly its amount from the total and
/// leaves the staking stake as it was.
pub proof fn law_governance_refund(m: Map<Hash32, DepositsModel>, cred: Hash32, id: GovActionId)
    requires
        gov_position(deposits_of(m, cred).governance, id) is Some,
    ensures
        ({
            let before = deposits_of(m, cred);
            let after = deposits_of(without_deposit(m, cred, DepositType::Governance(id)), cred);
            let paid = refund_amount(m, cred, DepositType::Governance(id));
            &&& paid is Some
            &&& deposit_total(before) == deposit_total(after) + (paid->0).0
            &&& deposit_staking(before) == deposit_staking(after)
        }),
{
    let d = deposits_of(m, cred);
    lemma_gov_position_range(d.governance, id);
    let i = gov_position(d.governance, id)->0;
    lemma_gov_total_remove(d.governance, i);
}

/// Deposits of different credentials are independent.
pub proof fn law_deposits_independent(
    m: Map<Hash32, DepositsModel>,
    a: Hash32,
    b: Hash32,
    deposit_type: DepositType,
    amount: Lovelace,
)
    requires
        a != b,
    ensures
        deposits_of(with_deposit(m, a, deposit_type, amount), b) == deposits_of(m, b),
        deposits_of(without_deposit(m, a, deposit_type), b) == deposits_of(m, b),
{
}

} // verus!
