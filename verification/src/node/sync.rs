//! How a node moves along the chain: what each block header brings, and when
//! an epoch ends.

use vstd::prelude::*;
use crate::genesis::ConwayGenesis;
use crate::ledger::conway::conway_started;
use crate::item::Item;
use crate::ledger::countable::{crossed, Uncountable};
use crate::ledger::primitives::{sat_sub, EpochNo, Lovelace};
use crate::ledger::rebuild::{amounts_total, listed_stake, with_everyone};
use crate::ledger::state::{epoch_at, hard_fork_recorded, shelley_plus, LedgerModel, LedgerState, MAX_LOVELACE_SUPPLY};
use crate::node::header::{nonce_rolled, nonce_seq, roll_nonce, BlockModel, ParsedBlock};
use crate::node::storage::{entry_views, UtxoEntry};
use crate::sums::clamp;
use crate::table::{listing, Table};

verus! {

/// Where a node stands on the chain.
pub struct SyncState {
    pub rolling_nonce: Option<[u8; 32]>,
    pub current_epoch: u64,
    /// Transactions of this epoch.
    pub epoch_tx_count: u64,
    /// Block versions that Byron proposals of this epoch name.
    pub epoch_update_proposals: Vec<(u16, u16, u8)>,
    /// The last block that was processed.
    pub last_slot: u64,
    pub last_hash: [u8; 32],
    pub blocks_processed: u64,
}

/// What is known of where a node stands.
#[verifier::ext_equal]
pub struct SyncModel {
    pub rolling_nonce: Option<Seq<u8>>,
    pub current_epoch: u64,
    pub epoch_tx_count: u64,
    pub epoch_update_proposals: Seq<(u16, u16, u8)>,
    pub last_slot: u64,
    pub last_hash: [u8; 32],
    pub blocks_processed: u64,
}

/// What a block asks for before it is applied.
#[derive(Debug, Clone, Copy, PartialEq, Eq, Structural)]
pub enum Step {
    /// An epoch boundary block: nothing to do.
    Skip,
    /// The block belongs to the current epoch.
    Same,
    /// A Byron epoch begins.
    ByronEpoch { epoch: u64 },
    /// A Shelley or later epoch begins. If the one before was Byron, the
    /// reserves are to be counted anew.
    Boundary { epoch: u64, from_byron: bool },
}

/// The ledger after the header of a block, before any transition: a proposal
/// of version 2.0.0 in the Byron era announces the Shelley era, and the first
/// Conway block starts the Conway era.
pub open spec fn announced(s: LedgerModel, b: BlockModel, current_epoch: u64) -> LedgerModel {
    if b.byron_update == Some((2u16, 0u16, 0u8)) {
        hard_fork_recorded(s, current_epoch)
    } else {
        s
    }
}

pub open spec fn header_applied(s: LedgerModel, b: BlockModel, current_epoch: u64, conway: Option<ConwayGenesis>) -> LedgerModel {
    let t = announced(s, b, current_epoch);
    match conway {
        Some(g) => if b.is_conway {
            conway_started(t, g, EpochNo(epoch_at(t, b.slot)))
        } else {
            t
        },
        None => t,
    }
}

/// What is to be done, given the ledger after the header.
pub open spec fn step_of(s: LedgerModel, slot: u64, current_epoch: u64) -> Step {
    let epoch = epoch_at(s, slot);
    if epoch <= current_epoch {
        Step::Same
    } else if shelley_plus(s, epoch) {
        Step::Boundary { epoch, from_byron: !shelley_plus(s, current_epoch) }
    } else {
        Step::ByronEpoch { epoch }
    }
}

/// Where the node stands after a header: the VRF output went into the rolling
/// nonce, and a proposed version was noted.
pub open spec fn header_noted(y: SyncModel, b: BlockModel) -> SyncModel {
    SyncModel {
        rolling_nonce: nonce_rolled(y.rolling_nonce, b.vrf_output),
        epoch_update_proposals: match b.byron_update {
            Some(v) => y.epoch_update_proposals.push(v),
            None => y.epoch_update_proposals,
        },
        ..y
    }
}

/// The ledger after a header and the step that it asks for. A Byron epoch
/// needs no transition.
pub open spec fn ledger_after(s: LedgerModel, step: Step) -> LedgerModel {
    match step {
        Step::ByronEpoch { epoch } => LedgerModel { epoch: EpochNo(epoch), ..s },
        _ => s,
    }
}

/// The state in which an epoch boundary is crossed: the stake of credentials
/// is taken from the stake tracker, and at the end of the Byron era the
/// reserves are counted anew.
pub open spec fn boundary_prepared(
    s: LedgerModel,
    stake: Map<Seq<u8>, u64>,
    outputs: Option<Seq<UtxoEntry>>,
) -> LedgerModel {
    let t = LedgerModel {
        stake_map: with_everyone(listed_stake(listing::<Vec<u8>, u64>(stake)), s),
        ..s
    };
    match outputs {
        Some(l) => LedgerModel {
            reserves: Lovelace(sat_sub(MAX_LOVELACE_SUPPLY, clamp(amounts_total(entry_views(l)) as int))),
            ..t
        },
        None => t,
    }
}

/// The first 32 bytes of a hash; where it is shorter, the rest stays as it
/// was.
pub open spec fn hash_noted(before: Seq<u8>, hash: Seq<u8>) -> Seq<u8> {
    Seq::new(32, |i: int| if i < hash.len() { hash[i] } else { before[i] })
}

pub open spec fn outputs_seq(o: Option<Vec<UtxoEntry>>) -> Option<Seq<UtxoEntry>> {
    match o {
        Some(v) => Some(v@),
        None => None,
    }
}

impl SyncState {
    pub open spec fn view(&self) -> SyncModel {
        SyncModel {
            rolling_nonce: nonce_seq(self.rolling_nonce),
            current_epoch: self.current_epoch,
            epoch_tx_count: self.epoch_tx_count,
            epoch_update_proposals: self.epoch_update_proposals@,
            last_slot: self.last_slot,
            last_hash: self.last_hash,
            blocks_processed: self.blocks_processed,
        }
    }

    /// A node that starts in an epoch, behind a block that it knows.
    pub fn new(epoch: u64, last_slot: u64, last_hash: [u8; 32]) -> (r: Self)
        ensures
            r@ == (SyncModel {
                rolling_nonce: None,
                current_epoch: epoch,
                epoch_tx_count: 0,
                epoch_update_proposals: Seq::empty(),
                last_slot,
                last_hash,
                blocks_processed: 0,
            }),
    {
        let proposals: Vec<(u16, u16, u8)> = Vec::new();
        let r = SyncState {
            rolling_nonce: None,
            current_epoch: epoch,
            epoch_tx_count: 0,
            epoch_update_proposals: proposals,
            last_slot,
            last_hash,
            blocks_processed: 0,
        };
        assert(r@.epoch_update_proposals =~= Seq::empty());
        r
    }

    /// Takes the header of a block in and tells what to do before the block
    /// is applied. The second part of the result tells whether the Conway era
    /// began.
    pub fn observe(&mut self, ledger: &mut LedgerState, block: &ParsedBlock, conway: &Option<ConwayGenesis>) -> (r: (Step, bool))
        requires
            old(ledger)@.has_byron && old(ledger)@.shelley_transition_epoch == u64::MAX ==> old(self)@.current_epoch
                < u64::MAX,
        ensures
            block.is_ebb ==> r == (Step::Skip, false) && final(self)@ == old(self)@ && final(ledger)@ == old(ledger)@,
            !block.is_ebb ==> ({
                let s = header_applied(old(ledger)@, block@, old(self)@.current_epoch, *conway);
                let step = step_of(s, block.slot, old(self)@.current_epoch);
                &&& r.0 == step
                &&& r.1 == (s.conway_genesis_epoch != old(ledger)@.conway_genesis_epoch)
                &&& final(self)@ == header_noted(old(self)@, block@)
                &&& final(ledger)@ == ledger_after(s, step)
            }),
    {
        let ghost y = self@;
        let ghost s = ledger@;
        if block.is_ebb {
            return (Step::Skip, false);
        }
        self.rolling_nonce = roll_nonce(&self.rolling_nonce, &block.vrf_output);
        if let Some(v) = block.byron_update {
            self.epoch_update_proposals.push(v);
            if v.0 == 2 && v.1 == 0 && v.2 == 0 {
                ledger.record_shelley_hf_proposal(self.current_epoch);
            }
        }
        assert(self@ =~= header_noted(y, block@));
        assert(ledger@ == announced(s, block@, y.current_epoch));
        let epoch: u64 = ledger.epoch_of_slot(block.slot);
        let mut began: bool = false;
        if block.is_conway {
            if let Some(g) = conway {
                began = ledger.conway_genesis_epoch.is_none();
                ledger.apply_conway_genesis(g, EpochNo(epoch));
            }
        }
        assert(ledger@ == header_applied(s, block@, y.current_epoch, *conway));
        if epoch <= self.current_epoch {
            return (Step::Same, began);
        }
        if ledger.is_shelley_plus_epoch(epoch) {
            let from_byron: bool = !ledger.is_shelley_plus_epoch(self.current_epoch);
            (Step::Boundary { epoch, from_byron }, began)
        } else {
            ledger.epoch = EpochNo(epoch);
            (Step::ByronEpoch { epoch }, began)
        }
    }

    /// A new epoch has begun, and its snapshot is saved.
    pub fn enter_epoch(&mut self, epoch: u64)
        ensures
            final(self)@ == (SyncModel {
                current_epoch: epoch,
                epoch_tx_count: 0,
                epoch_update_proposals: Seq::empty(),
                ..old(self)@
            }),
    {
        let ghost y = self@;
        self.epoch_tx_count = 0;
        self.epoch_update_proposals = Vec::new();
        self.current_epoch = epoch;
        assert(self@ =~= (SyncModel {
            current_epoch: epoch,
            epoch_tx_count: 0,
            epoch_update_proposals: Seq::empty(),
            ..y
        }));
    }

    /// A block has been applied.
    pub fn block_applied(&mut self, block: &ParsedBlock)
        requires
            old(self)@.blocks_processed < u64::MAX,
            old(self)@.epoch_tx_count + block.tx_count <= u64::MAX,
        ensures
            final(self)@.blocks_processed == old(self)@.blocks_processed + 1,
            final(self)@.epoch_tx_count == old(self)@.epoch_tx_count + block.tx_count,
            final(self)@.last_slot == block.slot,
            final(self)@.last_hash@ == hash_noted(old(self)@.last_hash@, block.hash@),
            final(self)@.current_epoch == old(self)@.current_epoch,
            final(self)@.rolling_nonce == old(self)@.rolling_nonce,
            final(self)@.epoch_update_proposals == old(self)@.epoch_update_proposals,
    {
        self.blocks_processed += 1;
        self.epoch_tx_count += block.tx_count as u64;
        self.last_slot = block.slot;
        let ghost before = self.last_hash@;
        let mut hash: [u8; 32] = self.last_hash;
        let mut i: usize = 0;
        while i < 32 && i < block.hash.len()
            invariant
                i <= 32,
                i <= block.hash@.len(),
                forall|j: int| 0 <= j < i ==> hash@[j] == block.hash@[j],
                forall|j: int| i <= j < 32 ==> hash@[j] == before[j],
            decreases 32 - i,
        {
            hash[i] = block.hash[i];
            i += 1;
        }
        assert(hash@ =~= hash_noted(before, block.hash@));
        self.last_hash = hash;
    }
}

impl LedgerState {
    /// Crosses an epoch boundary: takes the stake of credentials from a stake
    /// tracker, counts the reserves anew where all stored outputs are given,
    /// and makes the transition. Where a sum of it does not fit, the ledger
    /// stays as it is.
    pub fn cross_boundary(&mut self, stake: &Table<Vec<u8>, u64>, outputs: &Option<Vec<UtxoEntry>>, epoch: u64) -> (r:
        Result<(), Uncountable>)
        ensures
            ({
                let prepared = boundary_prepared(old(self)@, stake@, outputs_seq(*outputs));
                &&& r is Ok ==> crossed(prepared, EpochNo(epoch), r, final(self)@)
                &&& r is Err ==> crossed(prepared, EpochNo(epoch), r, prepared) && final(self)@ == old(self)@
            }),
    {
        let mut next = self.dup();
        next.rebuild_stake_from_current_stake(stake);
        if let Some(o) = outputs {
            next.recalibrate_reserves_from_utxo_tree(o);
        }
        let r = next.step_through(EpochNo(epoch));
        if r.is_ok() {
            *self = next;
        }
        r
    }
}

// ---- laws ----

/// A block of the current epoch, or of an earlier one, makes no transition.
pub proof fn law_no_early_transition(s: LedgerModel, slot: u64, current_epoch: u64)
    requires
        epoch_at(s, slot) <= current_epoch,
    ensures
        step_of(s, slot, current_epoch) == Step::Same,
{
}

/// After the epoch of a block was entered, a block of the same slot makes no
/// further transition.
pub proof fn law_transition_once(s: LedgerModel, slot: u64, current_epoch: u64)
    ensures
        step_of(s, slot, current_epoch) matches Step::Boundary { epoch, .. } ==> step_of(s, slot, epoch) == Step::Same,
        step_of(s, slot, current_epoch) matches Step::ByronEpoch { epoch } ==> step_of(s, slot, epoch) == Step::Same,
{
}

/// Until the hard fork proposal is seen, a chain with a Byron era stays in it.
pub proof fn law_byron_until_announced(s: LedgerModel, slot: u64, current_epoch: u64)
    requires
        s.has_byron,
        s.shelley_transition_epoch == u64::MAX,
    ensures
        !(step_of(s, slot, current_epoch) is Boundary),
{
}

} // verus!
