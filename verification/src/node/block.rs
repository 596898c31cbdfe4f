//! Applying the blocks that a node follows.
//!
//! Stored outputs live outside: the caller takes spent outputs from the store,
//! hands them in, and stores the entries that it gets back.

use vstd::prelude::*;
use crate::hexa::{encode_hex, hex_chars};
use crate::item::Item;
use crate::ledger::certificates::after_withdrawal;
use crate::ledger::governance::{prev_ok, proposed, voted};
use crate::ledger::primitives::{
    pad_key, padded_key, sat_add, sat_sub, Certificate, ChainPointer, Credential, EpochNo, GovActionId,
    GovernanceAction, Hash28, Hash32, Lovelace, ProcedureModel, ProposalProcedure, ProtocolParamUpdate, Vote, Voter,
    VotingProcedure,
};
use crate::ledger::state::{with_deposit, DepositType, LedgerModel, LedgerState};
use crate::node::certs::{node_certified, pointer_noted};
use crate::node::header::{
    content_digest, delegation_of, digest_content, extract_pool_id_from_block, extract_stake_credential, pool_id,
    seq_of, BlockModel, ParsedBlock,
};
use crate::node::storage::{bytes_view, output_removed, EntryModel, StakeTracker, TrackerModel, UtxoEntry};
use crate::table::Table;

verus! {

// ---- what a transaction holds ----

/// The datum of an output.
#[derive(Debug, Clone)]
pub enum DatumData {
    Absent,
    /// The hash of a datum.
    Hash(Vec<u8>),
    /// A datum, as it is encoded.
    Inline(Vec<u8>),
}

/// A new output.
#[derive(Debug, Clone)]
pub struct OutputData {
    pub index: u32,
    pub address: Vec<u8>,
    pub amount: u64,
    /// Policy, asset name and amount.
    pub assets: Vec<(Vec<u8>, Vec<u8>, u64)>,
    pub datum: DatumData,
}

/// Proposed parameter updates of genesis delegates, before Conway.
#[derive(Debug)]
pub struct UpdateData {
    pub epoch: u64,
    /// Hash of a genesis delegate and what it proposes.
    pub proposals: Vec<(Vec<u8>, ProtocolParamUpdate)>,
}

/// A governance proposal.
#[derive(Debug)]
pub struct ProposalData {
    /// Reward account to which the deposit goes back.
    pub reward_account: Vec<u8>,
    pub deposit: u64,
    pub action: GovernanceAction,
}

/// A transaction, without its inputs and outputs.
#[derive(Debug)]
pub struct TxData {
    pub hash: [u8; 32],
    /// Whether its scripts succeeded; otherwise only collateral moves.
    pub valid: bool,
    /// Whether certificates are of the Conway era.
    pub conway: bool,
    pub certs: Vec<Certificate>,
    pub update: Option<UpdateData>,
    pub proposals: Vec<ProposalData>,
    pub votes: Vec<(Voter, GovActionId, Vote)>,
    pub donation: Option<u64>,
    /// Reward accounts from which is withdrawn.
    pub withdrawals: Vec<Vec<u8>>,
    pub fee: Option<u64>,
    pub total_collateral: Option<u64>,
    /// Lovelace in the collateral return.
    pub collateral_return: Option<u64>,
}

// ---- outputs ----

/// The name of an asset: policy and asset name in hexadecimal with a point
/// between them.
pub open spec fn asset_chars(policy: Seq<u8>, name: Seq<u8>) -> Seq<char> {
    hex_chars(policy) + "."@ + hex_chars(name)
}

/// Amounts by name, with one set.
pub open spec fn amount_set(l: Seq<(Seq<char>, u64)>, key: Seq<char>, amount: u64) -> Seq<(Seq<char>, u64)>
    decreases l.len(),
{
    if l.len() == 0 {
        seq![(key, amount)]
    } else if l[0].0 == key {
        seq![(key, amount)] + l.skip(1)
    } else {
        seq![l[0]] + amount_set(l.skip(1), key, amount)
    }
}

/// Amounts by name; the last amount of a name counts.
pub open spec fn amounts_of(l: Seq<(Seq<u8>, Seq<u8>, u64)>) -> Seq<(Seq<char>, u64)>
    decreases l.len(),
{
    if l.len() == 0 {
        Seq::empty()
    } else {
        amount_set(amounts_of(l.drop_last()), asset_chars(l.last().0, l.last().1), l.last().2)
    }
}

pub open spec fn raw_assets(l: Seq<(Vec<u8>, Vec<u8>, u64)>) -> Seq<(Seq<u8>, Seq<u8>, u64)> {
    Seq::new(l.len(), |i: int| (l[i].0@, l[i].1@, l[i].2))
}

pub open spec fn asset_views(l: Seq<(String, u64)>) -> Seq<(Seq<char>, u64)> {
    Seq::new(l.len(), |i: int| (l[i].0@, l[i].1))
}

/// The hash of the datum of an output.
pub open spec fn datum_hash(d: DatumData) -> Option<Seq<u8>> {
    match d {
        DatumData::Absent => None,
        DatumData::Hash(h) => Some(h@),
        DatumData::Inline(b) => Some(content_digest(b@)),
    }
}

pub open spec fn inline_datum(d: DatumData) -> Option<Seq<u8>> {
    match d {
        DatumData::Inline(b) => Some(b@),
        _ => None,
    }
}

/// Whether an entry is what is stored of an output, given the delegation part
/// of its address.
pub open spec fn stored_as(o: OutputData, delegation: Option<Seq<u8>>, e: UtxoEntry) -> bool {
    &&& e.address@ == o.address@
    &&& e.amount == o.amount
    &&& asset_views(e.assets@) == amounts_of(raw_assets(o.assets@))
    &&& bytes_view(e.datum_hash) == datum_hash(o.datum)
    &&& bytes_view(e.datum) == inline_datum(o.datum)
    &&& e.script_ref is None
    &&& bytes_view(e.stake_credential) == delegation
}

fn texts_equal(a: &String, b: &String) -> (r: bool)
    ensures
        r == (a@ == b@),
{
    let n: usize = a.as_str().unicode_len();
    let k: usize = b.as_str().unicode_len();
    if n != k {
        return false;
    }
    let r: bool = crate::text::starts_with(a.as_str(), b.as_str());
    assert(a@.take(n as int) =~= a@);
    r
}

fn set_amount(list: &mut Vec<(String, u64)>, key: String, amount: u64)
    ensures
        asset_views(final(list)@) == amount_set(asset_views(old(list)@), key@, amount),
{
    let ghost l = asset_views(list@);
    let n: usize = list.len();
    let mut i: usize = 0;
    proof {
        assert(l.take(0) + amount_set(l.skip(0), key@, amount) =~= amount_set(l, key@, amount)) by {
            assert(l.skip(0) =~= l);
        }
    }
    while i < n
        invariant
            i <= n,
            n == list@.len(),
            l == asset_views(list@),
            l == asset_views(old(list)@),
            amount_set(l, key@, amount) == l.take(i as int) + amount_set(l.skip(i as int), key@, amount),
        decreases n - i,
    {
        let ghost rest = l.skip(i as int);
        assert(rest[0] == l[i as int]);
        assert(rest.skip(1) =~= l.skip(i + 1));
        if texts_equal(&list[i].0, &key) {
            let ghost before = list@;
            list.set(i, (key, amount));
            assert(asset_views(list@) =~= l.take(i as int) + (seq![(key@, amount)] + l.skip(i + 1)));
            return;
        }
        assert(l.take(i as int) + (seq![l[i as int]] + amount_set(l.skip(i + 1), key@, amount)) =~= l.take(i + 1)
            + amount_set(l.skip(i + 1), key@, amount));
        i += 1;
    }
    assert(l.skip(i as int) =~= Seq::empty());
    list.push((key, amount));
    assert(asset_views(list@) =~= l.take(i as int) + seq![(key@, amount)]);
}

fn collect_assets(assets: &Vec<(Vec<u8>, Vec<u8>, u64)>) -> (r: Vec<(String, u64)>)
    ensures
        asset_views(r@) == amounts_of(raw_assets(assets@)),
{
    let ghost l = raw_assets(assets@);
    let mut r: Vec<(String, u64)> = Vec::new();
    assert(asset_views(r@) =~= Seq::empty());
    let mut i: usize = 0;
    while i < assets.len()
        invariant
            i <= assets.len(),
            l == raw_assets(assets@),
            asset_views(r@) == amounts_of(l.take(i as int)),
        decreases assets.len() - i,
    {
        proof {
            assert(l.take(i + 1).drop_last() =~= l.take(i as int));
            assert(l.take(i + 1).last() == l[i as int]);
        }
        let mut key = encode_hex(assets[i].0.as_slice());
        key.append(".");
        key.append(encode_hex(assets[i].1.as_slice()).as_str());
        set_amount(&mut r, key, assets[i].2);
        i += 1;
    }
    assert(l.take(i as int) =~= l);
    r
}

/// The entry of an output, given the delegation part of its address.
pub fn entry_with_delegation(o: &OutputData, delegation: Option<Vec<u8>>) -> (r: UtxoEntry)
    ensures
        stored_as(*o, seq_of(delegation), r),
{
    let (datum_hash, datum): (Option<Vec<u8>>, Option<Vec<u8>>) = match &o.datum {
        DatumData::Absent => (None, None),
        DatumData::Hash(h) => (Some(h.dup()), None),
        DatumData::Inline(b) => (Some(digest_content(b.as_slice())), Some(b.dup())),
    };
    UtxoEntry {
        address: o.address.dup(),
        amount: o.amount,
        assets: collect_assets(&o.assets),
        datum_hash,
        datum,
        script_ref: None,
        stake_credential: delegation,
    }
}

/// What is stored of an output. It fails where the address cannot be read.
pub fn output_entry(o: &OutputData) -> (r: Result<UtxoEntry, String>)
    ensures
        match r {
            Ok(e) => delegation_of(o.address@) matches Ok(d) && stored_as(*o, d, e),
            Err(e) => delegation_of(o.address@) matches Err(x) && e@ == "Failed to parse address: "@ + x,
        },
{
    match extract_stake_credential(o.address.as_slice()) {
        Ok(d) => Ok(entry_with_delegation(o, d)),
        Err(e) => Err(e),
    }
}

/// What is stored of a Byron output: the address and the amount.
pub fn byron_entry(o: &OutputData) -> (r: UtxoEntry)
    ensures
        r@ == (EntryModel {
            address: o.address@,
            amount: o.amount,
            assets: Seq::empty(),
            datum_hash: None,
            datum: None,
            script_ref: None,
            stake_credential: None,
        }),
{
    let assets: Vec<(String, u64)> = Vec::new();
    let r = UtxoEntry {
        address: o.address.dup(),
        amount: o.amount,
        assets,
        datum_hash: None,
        datum: None,
        script_ref: None,
        stake_credential: None,
    };
    assert(r@.assets =~= Seq::empty());
    r
}

// ---- spending ----

/// The entries that were found, in their order.
pub open spec fn found(l: Seq<Option<UtxoEntry>>) -> Seq<EntryModel>
    decreases l.len(),
{
    if l.len() == 0 {
        Seq::empty()
    } else {
        match l.last() {
            Some(e) => found(l.drop_last()).push(e@),
            None => found(l.drop_last()),
        }
    }
}

/// The stake tracker after outputs were spent one by one.
pub open spec fn all_removed(t: TrackerModel, l: Seq<EntryModel>) -> TrackerModel
    decreases l.len(),
{
    if l.len() == 0 {
        t
    } else {
        output_removed(all_removed(t, l.drop_last()), l.last())
    }
}

pub open spec fn value_of(l: Seq<EntryModel>) -> nat
    decreases l.len(),
{
    if l.len() == 0 {
        0
    } else {
        value_of(l.drop_last()) + l.last().amount as nat
    }
}

proof fn lemma_value_prefix(l: Seq<Option<UtxoEntry>>, i: int)
    requires
        0 <= i <= l.len(),
    ensures
        value_of(found(l.take(i))) <= value_of(found(l)),
    decreases l.len() - i,
{
    if i == l.len() {
        assert(l.take(i) =~= l);
    } else {
        assert(l.take(i + 1).drop_last() =~= l.take(i));
        if let Some(e) = l.take(i + 1).last() {
            assert(found(l.take(i + 1)).drop_last() =~= found(l.take(i)));
        }
        lemma_value_prefix(l, i + 1);
    }
}

/// Takes note of the outputs that a transaction spends, as far as the store
/// had them. Returns what they were worth together.
pub fn spend_outputs(tracker: &mut StakeTracker, removed: &Vec<Option<UtxoEntry>>) -> (r: u64)
    requires
        value_of(found(removed@)) <= u64::MAX,
    ensures
        final(tracker)@ == all_removed(old(tracker)@, found(removed@)),
        r == value_of(found(removed@)),
{
    let ghost t = tracker@;
    let ghost l = removed@;
    let mut value: u64 = 0;
    let mut i: usize = 0;
    while i < removed.len()
        invariant
            i <= removed.len(),
            l == removed@,
            value_of(found(l)) <= u64::MAX,
            tracker@ == all_removed(t, found(l.take(i as int))),
            value == value_of(found(l.take(i as int))),
        decreases removed.len() - i,
    {
        proof {
            assert(l.take(i + 1).drop_last() =~= l.take(i as int));
            lemma_value_prefix(l, i + 1);
        }
        if let Some(e) = &removed[i] {
            proof {
                assert(found(l.take(i + 1)).drop_last() =~= found(l.take(i as int)));
                assert(found(l.take(i + 1)).last() == e@);
            }
            tracker.remove_output(e);
            value += e.amount;
        }
        i += 1;
    }
    assert(l.take(i as int) =~= l);
    value
}

// ---- the start of a block ----

pub open spec fn pool_block_counted(blocks: Map<Hash28, u64>, pool: Option<Hash28>) -> Map<Hash28, u64> {
    match pool {
        Some(p) => blocks.insert(
            p,
            ((if blocks.dom().contains(p) {
                blocks[p]
            } else {
                0
            }) + 1) as u64,
        ),
        None => blocks,
    }
}

/// A block is counted; from the Shelley era on also for the pool that made it,
/// registered or not.
pub open spec fn block_counted(s: LedgerModel, b: BlockModel) -> LedgerModel {
    LedgerModel {
        epoch_block_count: (s.epoch_block_count + 1) as u64,
        epoch_blocks_by_pool: if b.is_byron {
            s.epoch_blocks_by_pool
        } else {
            pool_block_counted(s.epoch_blocks_by_pool, pool_id(b.issuer_vkey))
        },
        ..s
    }
}

pub open spec fn blocks_bounded(s: LedgerModel) -> bool {
    &&& s.epoch_block_count < u64::MAX
    &&& forall|p: Hash28| #[trigger]
        s.epoch_blocks_by_pool.dom().contains(p) ==> s.epoch_blocks_by_pool[p] < u64::MAX
}

impl LedgerState {
    /// Counts a block.
    pub fn begin_block(&mut self, block: &ParsedBlock)
        requires
            blocks_bounded(old(self)@),
        ensures
            final(self)@ == block_counted(old(self)@, block@),
    {
        let ghost s = self@;
        self.epoch_block_count += 1;
        if !block.is_byron {
            if let Some(pool) = extract_pool_id_from_block(block) {
                let before: u64 = match self.epoch_blocks_by_pool.get(&pool) {
                    Some(n) => *n,
                    None => 0,
                };
                assert(s.epoch_blocks_by_pool.dom().contains(pool) ==> before < u64::MAX);
                self.epoch_blocks_by_pool.insert(pool, before + 1);
            }
        }
        assert(self@ =~= block_counted(s, block@));
    }
}

// ---- transactions ----

/// The ledger after the certificates of a transaction; `from` is the index of
/// the first one.
pub open spec fn certs_applied(s: LedgerModel, certs: Seq<Certificate>, conway: bool, slot: u64, tx_index: u32) -> LedgerModel
    decreases certs.len(),
{
    if certs.len() == 0 {
        s
    } else {
        let before = certs_applied(s, certs.drop_last(), conway, slot, tx_index);
        let at = ChainPointer { slot, tx_index, cert_index: (certs.len() - 1) as u32 };
        let cert = certs.last();
        let t = if !conway && crate::ledger::certificates::conway_only(cert) {
            before
        } else {
            node_certified(before, cert)
        };
        pointer_noted(t, at, cert)
    }
}

/// The first 32 bytes of a hash, filled up with zeros.
pub open spec fn fitted(b: Seq<u8>) -> Seq<u8> {
    Seq::new(32, |i: int| if i < b.len() { b[i] } else { 0u8 })
}

pub open spec fn fitted_key(b: Seq<u8>) -> Hash32 {
    choose|h: Hash32| h@ == fitted(b)
}

pub(crate) fn fit_key(b: &Vec<u8>) -> (r: Hash32)
    ensures
        r == fitted_key(b@),
{
    let mut r: Hash32 = [0u8; 32];
    let mut i: usize = 0;
    while i < 32 && i < b.len()
        invariant
            i <= 32,
            i <= b@.len(),
            forall|j: int| 0 <= j < i ==> r@[j] == b@[j],
            forall|j: int| i <= j < 32 ==> r@[j] == 0,
        decreases 32 - i,
    {
        r[i] = b[i];
        i += 1;
    }
    proof {
        assert(r@ =~= fitted(b@));
        let k = fitted_key(b@);
        assert(k@ == fitted(b@));
        assert(r =~= k);
    }
    r
}

/// Proposals of genesis delegates; the last one of a delegate counts.
pub open spec fn proposals_set(m: Map<Hash32, ProtocolParamUpdate>, l: Seq<(Vec<u8>, ProtocolParamUpdate)>) -> Map<
    Hash32,
    ProtocolParamUpdate,
>
    decreases l.len(),
{
    if l.len() == 0 {
        m
    } else {
        proposals_set(m, l.drop_last()).insert(fitted_key(l.last().0@), l.last().1)
    }
}

/// The ledger with proposed parameter updates, kept for their epoch.
pub open spec fn update_proposed(s: LedgerModel, u: UpdateData) -> LedgerModel {
    if u.proposals@.len() == 0 {
        s
    } else {
        let e = EpochNo(u.epoch);
        let before = if s.pending_pp_updates.dom().contains(e) {
            s.pending_pp_updates[e]
        } else {
            Map::empty()
        };
        LedgerModel { pending_pp_updates: s.pending_pp_updates.insert(e, proposals_set(before, u.proposals@)), ..s }
    }
}

/// The credential of a reward account: 28 bytes behind the header, a script's
/// where bit four of the header is set.
pub open spec fn account_credential(b: Seq<u8>) -> Option<Credential> {
    if b.len() < 29 {
        None
    } else if b[0] / 16 % 2 == 1 {
        Some(Credential::Script(padded_key(b.subrange(1, 29))))
    } else {
        Some(Credential::Key(padded_key(b.subrange(1, 29))))
    }
}

/// The credential of a reward account.
pub fn credential_of_account(account: &[u8]) -> (r: Option<Credential>)
    ensures
        r == account_credential(account@),
{
    if account.len() < 29 {
        return None;
    }
    let hash = pad_key(account, 1);
    if account[0] / 16 % 2 == 1 {
        Some(Credential::Script(hash))
    } else {
        Some(Credential::Key(hash))
    }
}

/// A proposal is submitted: its deposit is tracked, and it is taken in if it
/// follows on what was enacted. One without a proper return account is
/// ignored.
pub open spec fn proposal_submitted(s: LedgerModel, tx: [u8; 32], index: u32, p: ProposalData) -> LedgerModel {
    match account_credential(p.reward_account@) {
        None => s,
        Some(cred) => {
            let id = GovActionId { tx_hash: tx, index };
            let deposit = Lovelace(p.deposit);
            let t = LedgerModel {
                deposits: with_deposit(s.deposits, cred.hash(), DepositType::Governance(id), deposit),
                ..s
            };
            let procedure = ProcedureModel {
                deposit,
                return_addr: cred,
                gov_action: p.action.model(),
                anchor: None,
            };
            if prev_ok(p.action.model(), s.governance) {
                proposed(t, id, procedure)
            } else {
                t
            }
        },
    }
}

pub open spec fn proposals_submitted(s: LedgerModel, tx: [u8; 32], l: Seq<ProposalData>) -> LedgerModel
    decreases l.len(),
{
    if l.len() == 0 {
        s
    } else {
        proposal_submitted(proposals_submitted(s, tx, l.drop_last()), tx, (l.len() - 1) as u32, l.last())
    }
}

pub open spec fn votes_cast(s: LedgerModel, l: Seq<(Voter, GovActionId, Vote)>) -> LedgerModel
    decreases l.len(),
{
    if l.len() == 0 {
        s
    } else {
        voted(
            votes_cast(s, l.drop_last()),
            l.last().0,
            l.last().1,
            VotingProcedure { vote: l.last().2, anchor: None },
        )
    }
}

/// What is withdrawn leaves the accounts; they stay registered.
pub open spec fn withdrawn(s: LedgerModel, l: Seq<Vec<u8>>) -> LedgerModel
    decreases l.len(),
{
    if l.len() == 0 {
        s
    } else {
        let before = withdrawn(s, l.drop_last());
        let a = l.last()@;
        if a.len() < 29 {
            before
        } else {
            after_withdrawal(before, padded_key(a.subrange(1, 29)))
        }
    }
}

/// What a transaction pays. One whose scripts failed pays its collateral:
/// what it names, or else what its inputs are worth beyond the return.
pub open spec fn fee_of(tx: TxData, consumed: u64) -> u64 {
    if tx.valid {
        match tx.fee {
            Some(f) => f,
            None => 0,
        }
    } else {
        match tx.total_collateral {
            Some(c) => c,
            None => sat_sub(
                consumed,
                match tx.collateral_return {
                    Some(v) => v,
                    None => 0,
                },
            ),
        }
    }
}

/// The ledger after all but the fee of a transaction whose scripts succeeded.
pub open spec fn body_applied(s: LedgerModel, tx: TxData, slot: u64, tx_index: u32) -> LedgerModel {
    let a = certs_applied(s, tx.certs@, tx.conway, slot, tx_index);
    let b = match tx.update {
        Some(u) => update_proposed(a, u),
        None => a,
    };
    let c = votes_cast(proposals_submitted(b, tx.hash, tx.proposals@), tx.votes@);
    let d = match tx.donation {
        Some(x) => LedgerModel { treasury: Lovelace(sat_add(c.treasury.0, x)), ..c },
        None => c,
    };
    withdrawn(d, tx.withdrawals@)
}

/// The ledger after a transaction; `consumed` is what its spent inputs are
/// worth.
pub open spec fn tx_applied(s: LedgerModel, tx: TxData, slot: u64, tx_index: u32, consumed: u64) -> LedgerModel {
    let t = if tx.valid {
        body_applied(s, tx, slot, tx_index)
    } else {
        s
    };
    LedgerModel { epoch_fees: Lovelace((s.epoch_fees.0 + fee_of(tx, consumed)) as u64), ..t }
}

/// How many DReps register in a list of certificates.
pub open spec fn dreps_in(certs: Seq<Certificate>) -> nat
    decreases certs.len(),
{
    if certs.len() == 0 {
        0
    } else {
        dreps_in(certs.drop_last()) + if certs.last() is RegDRep {
            1nat
        } else {
            0nat
        }
    }
}

/// The counters that a transaction moves have room.
pub open spec fn tx_fits(s: LedgerModel, tx: TxData, consumed: u64) -> bool {
    &&& s.epoch_fees.0 + fee_of(tx, consumed) <= u64::MAX
    &&& s.governance.drep_registration_count + dreps_in(tx.certs@) <= u64::MAX
    &&& tx.certs@.len() <= u32::MAX
    &&& tx.proposals@.len() <= u32::MAX
}

proof fn lemma_dreps_prefix(certs: Seq<Certificate>, i: int)
    requires
        0 <= i <= certs.len(),
    ensures
        dreps_in(certs.take(i)) <= dreps_in(certs),
    decreases certs.len() - i,
{
    if i == certs.len() {
        assert(certs.take(i) =~= certs);
    } else {
        assert(certs.take(i + 1).drop_last() =~= certs.take(i));
        lemma_dreps_prefix(certs, i + 1);
    }
}

/// Only registrations move the count of DReps, by at most one each.
proof fn lemma_count_moves(s: LedgerModel, cert: Certificate)
    requires
        cert is RegDRep ==> s.governance.drep_registration_count < u64::MAX,
    ensures
        node_certified(s, cert).governance.drep_registration_count == s.governance.drep_registration_count + if cert
            is RegDRep {
            1int
        } else {
            0int
        },
{
}

impl LedgerState {
    /// Processes a certificate of a transaction at its place on the chain.
    pub fn process_certificate_at(&mut self, cert: &Certificate, conway: bool, at: ChainPointer)
        requires
            cert is RegDRep ==> old(self)@.governance.drep_registration_count < u64::MAX,
        ensures
            final(self)@ == pointer_noted(
                if !conway && crate::ledger::certificates::conway_only(*cert) {
                    old(self)@
                } else {
                    node_certified(old(self)@, *cert)
                },
                at,
                *cert,
            ),
    {
        if conway {
            self.process_conway_certificate(cert);
        } else {
            self.process_alonzo_certificate(cert);
        }
        self.note_pointer(at, cert);
    }

    fn apply_certs(&mut self, certs: &Vec<Certificate>, conway: bool, slot: u64, tx_index: u32)
        requires
            certs@.len() <= u32::MAX,
            old(self)@.governance.drep_registration_count + dreps_in(certs@) <= u64::MAX,
        ensures
            final(self)@ == certs_applied(old(self)@, certs@, conway, slot, tx_index),
    {
        let ghost s = self@;
        let ghost l = certs@;
        let n: usize = certs.len();
        let mut i: usize = 0;
        while i < n
            invariant
                i <= n,
                n == l.len(),
                n <= u32::MAX,
                l == certs@,
                s.governance.drep_registration_count + dreps_in(l) <= u64::MAX,
                self@ == certs_applied(s, l.take(i as int), conway, slot, tx_index),
                self@.governance.drep_registration_count <= s.governance.drep_registration_count + dreps_in(
                    l.take(i as int),
                ),
            decreases n - i,
        {
            let ghost before = self@;
            proof {
                assert(l.take(i + 1).drop_last() =~= l.take(i as int));
                assert(l.take(i + 1).last() == l[i as int]);
                lemma_dreps_prefix(l, i + 1);
            }
            proof {
                lemma_count_moves(before, l[i as int]);
            }
            self.process_certificate_at(&certs[i], conway, ChainPointer { slot, tx_index, cert_index: i as u32 });
            i += 1;
        }
        assert(l.take(i as int) =~= l);
    }

    /// Takes in parameter updates that genesis delegates propose.
    pub fn process_ppup_proposal(&mut self, update: &UpdateData)
        ensures
            final(self)@ == update_proposed(old(self)@, *update),
    {
        let ghost s = self@;
        let ghost l = update.proposals@;
        if update.proposals.len() == 0 {
            return;
        }
        let epoch = EpochNo(update.epoch);
        let mut entry: Table<Hash32, ProtocolParamUpdate> = match self.pending_pp_updates.remove(&epoch) {
            Some(t) => t,
            None => Table::new(),
        };
        let ghost m = entry@;
        let mut i: usize = 0;
        while i < update.proposals.len()
            invariant
                i <= update.proposals.len(),
                l == update.proposals@,
                entry@ == proposals_set(m, l.take(i as int)),
            decreases update.proposals.len() - i,
        {
            proof {
                assert(l.take(i + 1).drop_last() =~= l.take(i as int));
                assert(l.take(i + 1).last() == l[i as int]);
            }
            entry.insert(fit_key(&update.proposals[i].0), update.proposals[i].1);
            i += 1;
        }
        assert(l.take(i as int) =~= l);
        self.pending_pp_updates.insert(epoch, entry);
        assert(self@ =~= update_proposed(s, *update));
    }

    fn submit_proposal(&mut self, tx: [u8; 32], index: u32, p: &ProposalData)
        ensures
            final(self)@ == proposal_submitted(old(self)@, tx, index, *p),
    {
        let ghost s = self@;
        if let Some(cred) = credential_of_account(p.reward_account.as_slice()) {
            let id = GovActionId { tx_hash: tx, index };
            let deposit = Lovelace(p.deposit);
            let key = crate::ledger::state::credential_to_hash(&cred);
            self.deposit_tracker.add_deposit(key, DepositType::Governance(id), deposit);
            assert(self@ =~= (LedgerModel {
                deposits: with_deposit(s.deposits, cred.hash(), DepositType::Governance(id), deposit),
                ..s
            }));
            let procedure = ProposalProcedure {
                deposit,
                return_addr: cred,
                gov_action: p.action.dup(),
                anchor: None,
            };
            let _ = self.process_proposal(&id, &procedure);
        }
    }

    fn submit_proposals(&mut self, tx: [u8; 32], proposals: &Vec<ProposalData>)
        requires
            proposals@.len() <= u32::MAX,
        ensures
            final(self)@ == proposals_submitted(old(self)@, tx, proposals@),
    {
        let ghost s = self@;
        let ghost l = proposals@;
        let n: usize = proposals.len();
        let mut i: usize = 0;
        while i < n
            invariant
                i <= n,
                n == l.len(),
                n <= u32::MAX,
                l == proposals@,
                self@ == proposals_submitted(s, tx, l.take(i as int)),
            decreases n - i,
        {
            proof {
                assert(l.take(i + 1).drop_last() =~= l.take(i as int));
                assert(l.take(i + 1).last() == l[i as int]);
            }
            self.submit_proposal(tx, i as u32, &proposals[i]);
            i += 1;
        }
        assert(l.take(i as int) =~= l);
    }

    fn cast_votes(&mut self, votes: &Vec<(Voter, GovActionId, Vote)>)
        ensures
            final(self)@ == votes_cast(old(self)@, votes@),
    {
        let ghost s = self@;
        let ghost l = votes@;
        let mut i: usize = 0;
        while i < votes.len()
            invariant
                i <= votes.len(),
                l == votes@,
                self@ == votes_cast(s, l.take(i as int)),
            decreases votes.len() - i,
        {
            proof {
                assert(l.take(i + 1).drop_last() =~= l.take(i as int));
                assert(l.take(i + 1).last() == l[i as int]);
            }
            self.process_vote(&votes[i].0, &votes[i].1, &VotingProcedure { vote: votes[i].2, anchor: None });
            i += 1;
        }
        assert(l.take(i as int) =~= l);
    }

    fn withdraw_all(&mut self, accounts: &Vec<Vec<u8>>)
        ensures
            final(self)@ == withdrawn(old(self)@, accounts@),
    {
        let ghost s = self@;
        let ghost l = accounts@;
        let mut i: usize = 0;
        while i < accounts.len()
            invariant
                i <= accounts.len(),
                l == accounts@,
                self@ == withdrawn(s, l.take(i as int)),
            decreases accounts.len() - i,
        {
            proof {
                assert(l.take(i + 1).drop_last() =~= l.take(i as int));
                assert(l.take(i + 1).last() == l[i as int]);
            }
            let a: &Vec<u8> = &accounts[i];
            if a.len() >= 29 {
                self.zero_balance(&pad_key(a.as_slice(), 1));
            }
            i += 1;
        }
        assert(l.take(i as int) =~= l);
    }

    fn apply_body(&mut self, tx: &TxData, slot: u64, tx_index: u32)
        requires
            tx.certs@.len() <= u32::MAX,
            tx.proposals@.len() <= u32::MAX,
            old(self)@.governance.drep_registration_count + dreps_in(tx.certs@) <= u64::MAX,
        ensures
            final(self)@ == body_applied(old(self)@, *tx, slot, tx_index),
    {
        self.apply_certs(&tx.certs, tx.conway, slot, tx_index);
        if let Some(u) = &tx.update {
            self.process_ppup_proposal(u);
        }
        self.submit_proposals(tx.hash, &tx.proposals);
        self.cast_votes(&tx.votes);
        if let Some(x) = tx.donation {
            self.treasury = Lovelace(self.treasury.0.saturating_add(x));
        }
        self.withdraw_all(&tx.withdrawals);
    }

    /// Applies a transaction to the ledger: where its scripts succeeded,
    /// certificates, proposed updates, governance proposals, votes, the
    /// donation and withdrawals; and the fee in any case. `consumed` is what
    /// its spent inputs are worth.
    pub fn apply_tx(&mut self, tx: &TxData, slot: u64, tx_index: u32, consumed: u64)
        requires
            tx_fits(old(self)@, *tx, consumed),
        ensures
            final(self)@ == tx_applied(old(self)@, *tx, slot, tx_index, consumed),
    {
        let ghost s = self@;
        let fee: u64 = tx_fee(tx, consumed);
        let fees: u64 = self.epoch_fees.0 + fee;
        if tx.valid {
            self.apply_body(tx, slot, tx_index);
        }
        self.epoch_fees = Lovelace(fees);
    }
}

/// What a transaction pays.
pub fn tx_fee(tx: &TxData, consumed: u64) -> (r: u64)
    ensures
        r == fee_of(*tx, consumed),
{
    if tx.valid {
        match tx.fee {
            Some(f) => f,
            None => 0,
        }
    } else {
        match tx.total_collateral {
            Some(c) => c,
            None => {
                let back: u64 = match tx.collateral_return {
                    Some(v) => v,
                    None => 0,
                };
                consumed.saturating_sub(back)
            },
        }
    }
}

// ---- laws ----

/// A transaction whose scripts failed changes nothing but the fees.
pub proof fn law_failed_tx_pays_only(s: LedgerModel, tx: TxData, slot: u64, tx_index: u32, consumed: u64)
    requires
        !tx.valid,
        tx_fits(s, tx, consumed),
    ensures
        tx_applied(s, tx, slot, tx_index, consumed) == (LedgerModel {
            epoch_fees: Lovelace((s.epoch_fees.0 + fee_of(tx, consumed)) as u64),
            ..s
        }),
{
}

/// What a failed transaction pays, where it does not name its collateral, is
/// what its inputs are worth beyond what it gets back.
pub proof fn law_collateral_covers(tx: TxData, consumed: u64)
    requires
        !tx.valid,
        tx.total_collateral is None,
        tx.collateral_return matches Some(v) ==> v <= consumed,
    ensures
        fee_of(tx, consumed) + (match tx.collateral_return {
            Some(v) => v,
            None => 0,
        }) == consumed,
{
}

/// An output that is spent a second time is no longer found, and takes no
/// stake away.
pub proof fn law_spent_once(t: TrackerModel, e: UtxoEntry)
    ensures
        all_removed(t, found(seq![Some(e), None])) == output_removed(t, e@),
{
    let l = seq![Some(e), None::<UtxoEntry>];
    let a = seq![Some(e)];
    assert(l.drop_last() =~= a);
    assert(a.drop_last() =~= Seq::empty());
    assert(found(Seq::<Option<UtxoEntry>>::empty()) =~= Seq::empty());
    assert(l.last() is None && a.last() == Some(e));
    assert(found(a) == found(a.drop_last()).push(e@));
    let f = found(l);
    assert(f == found(a));
    assert(f =~= seq![e@]);
    assert(f.drop_last() =~= Seq::empty());
    assert(all_removed(t, f.drop_last()) == t);
}

/// Withdrawing keeps every account registered.
pub proof fn law_withdrawals_keep_accounts(s: LedgerModel, l: Seq<Vec<u8>>)
    ensures
        withdrawn(s, l).reward_accounts.dom() == s.reward_accounts.dom(),
    decreases l.len(),
{
    if l.len() > 0 {
        law_withdrawals_keep_accounts(s, l.drop_last());
        assert(withdrawn(s, l).reward_accounts.dom() =~= s.reward_accounts.dom());
    }
}

} // verus!
