//! What the chain's own decoder hands out of blocks, transactions,
//! certificates and governance actions, piece by piece and as plain values.
//!
//! Transactions, certificates and actions travel as the bytes of their
//! encoding. Of each piece a name says what it is for given bytes: every one of
//! them depends on those bytes alone.

use vstd::prelude::*;
use pallas_primitives::alonzo::Certificate as AlonzoCertificate;
use pallas_primitives::alonzo::Certificate::{GenesisKeyDelegation, MoveInstantaneousRewardsCert};
use pallas_primitives::alonzo::InstantaneousRewardSource;
use pallas_primitives::alonzo::InstantaneousRewardTarget::{OtherAccountingPot, StakeCredentials};
use pallas_primitives::byron::TxIn;
use pallas_primitives::conway::Certificate as ConwayCertificate;
use pallas_primitives::conway::Certificate::{
    AuthCommitteeHot, PoolRegistration, PoolRetirement, Reg, RegDRepCert, ResignCommitteeCold, StakeDelegation,
    StakeDeregistration, StakeRegDeleg, StakeRegistration, StakeVoteDeleg, StakeVoteRegDeleg, UnReg, UnRegDRepCert,
    UpdateDRepCert, VoteDeleg, VoteRegDeleg,
};
use pallas_primitives::conway::DRep as ConwayDRep;
use pallas_primitives::conway::DatumOption;
use pallas_primitives::conway::GovAction;
use pallas_primitives::conway::GovAction::{
    HardForkInitiation, Information, NewConstitution, NoConfidence, ParameterChange, TreasuryWithdrawals,
    UpdateCommittee,
};
use pallas_primitives::conway::Vote::{Abstain, No, Yes};
use pallas_primitives::conway::Voter::{
    ConstitutionalCommitteeKey, ConstitutionalCommitteeScript, DRepKey, DRepScript, StakePoolKey,
};
use pallas_primitives::Fragment;
use pallas_primitives::RationalNumber;
use pallas_primitives::StakeCredential;
use pallas_primitives::StakeCredential::{AddrKeyhash, ScriptHash};
use pallas_traverse::{Era, MultiEraBlock, MultiEraCert, MultiEraTx};
use crate::ledger::primitives::{Hash28, Hash32, Vote};
use crate::node::block::DatumData;
use crate::node::pieces::ChainVoter::{CommitteeKey, CommitteeScript, Pool, RepKey, RepScript};

verus! {

// ---- views ----

/// A list that may be missing.
pub open spec fn listed<T>(l: Option<Vec<T>>) -> Option<Seq<T>> {
    match l {
        Some(v) => Some(v@),
        None => None,
    }
}

pub open spec fn byte_lists(l: Seq<Vec<u8>>) -> Seq<Seq<u8>> {
    Seq::new(l.len(), |i: int| l[i]@)
}

// ---- blocks ----

/// The transactions of a block, each with the number of its era and its
/// encoding; or why the bytes are no block.
pub uninterp spec fn raw_txs(bytes: Seq<u8>) -> Result<Seq<(u16, Seq<u8>)>, Seq<char>>;

pub open spec fn raw_view(r: Result<Vec<(u16, Vec<u8>)>, String>) -> Result<Seq<(u16, Seq<u8>)>, Seq<char>> {
    match r {
        Ok(l) => Ok(Seq::new(l@.len(), |i: int| (l@[i].0, l@[i].1@))),
        Err(e) => Err(e@),
    }
}

/// Calls `pallas_traverse::MultiEraBlock::decode` and `txs`, and `era` and
/// `encode` on each transaction. Byron has the number 1, Shelley to Conway 2
/// to 7. The error is what the decoder says of the bytes.
#[verifier::external_body]
pub(crate) fn split_block(bytes: &[u8]) -> (r: Result<Vec<(u16, Vec<u8>)>, String>)
    ensures
        raw_view(r) == raw_txs(bytes@),
{
    let block = MultiEraBlock::decode(bytes).map_err(|e| e.to_string())?;
    Ok(block.txs().iter().map(|tx| (tx.era().into(), tx.encode())).collect())
}

// ---- transactions ----

/// What a transaction says of itself.
pub struct TxHead {
    pub hash: Hash32,
    /// Whether its scripts succeeded.
    pub valid: bool,
    pub conway: bool,
    pub fee: Option<u64>,
    pub total_collateral: Option<u64>,
    /// Lovelace in the collateral return.
    pub collateral_return: Option<u64>,
    pub donation: Option<u64>,
    /// Reward accounts from which is withdrawn, and how much.
    pub withdrawals: Vec<(Vec<u8>, u64)>,
}

pub struct HeadModel {
    pub hash: Hash32,
    pub valid: bool,
    pub conway: bool,
    pub fee: Option<u64>,
    pub total_collateral: Option<u64>,
    pub collateral_return: Option<u64>,
    pub donation: Option<u64>,
    pub withdrawals: Seq<(Seq<u8>, u64)>,
}

pub open spec fn head_view(h: Option<TxHead>) -> Option<HeadModel> {
    match h {
        Some(h) => Some(
            HeadModel {
                hash: h.hash,
                valid: h.valid,
                conway: h.conway,
                fee: h.fee,
                total_collateral: h.total_collateral,
                collateral_return: h.collateral_return,
                donation: h.donation,
                withdrawals: account_amounts(h.withdrawals@),
            },
        ),
        None => None,
    }
}

/// What a transaction says of itself, if the bytes are one of that era.
pub uninterp spec fn head_of(era: u16, tx: Seq<u8>) -> Option<HeadModel>;

/// Calls `pallas_traverse::MultiEraTx::decode_for_era` and reads `hash`,
/// `is_valid`, `fee`, `total_collateral`, the coin of `collateral_return`,
/// `withdrawals`, and the donation of a Conway body. There is
/// nothing where the bytes do not decode.
#[verifier::external_body]
pub(crate) fn tx_head(era: u16, tx: &[u8]) -> (r: Option<TxHead>)
    ensures
        head_view(r) == head_of(era, tx@),
{
    let tx = MultiEraTx::decode_for_era(era.try_into().ok()?, tx).ok()?;
    let withdrawals = tx.withdrawals();
    Some(TxHead {
        hash: *tx.hash(),
        valid: tx.is_valid(),
        conway: tx.as_conway().is_some(),
        fee: tx.fee(),
        total_collateral: tx.total_collateral(),
        collateral_return: tx.collateral_return().map(|o| o.value().coin()),
        donation: tx.as_conway().and_then(|t| t.transaction_body.donation).map(|x| x.into()),
        withdrawals: withdrawals.collect::<Vec<(&[u8], u64)>>().iter().map(|w| (w.0.to_vec(), w.1)).collect(),
    })
}

/// The inputs of a Byron transaction: hash and index, or nothing for an input
/// of a kind that names no output.
pub uninterp spec fn byron_inputs_of(tx: Seq<u8>) -> Option<Seq<Option<(Hash32, u32)>>>;

/// Calls `pallas_traverse::MultiEraTx::decode_for_era` for Byron and reads the
/// inputs of the payload: `TxIn::Variant0` names an output, `TxIn::Other` does
/// not.
#[verifier::external_body]
pub(crate) fn byron_inputs(tx: &[u8]) -> (r: Option<Vec<Option<(Hash32, u32)>>>)
    ensures
        listed(r) == byron_inputs_of(tx@),
{
    let tx = MultiEraTx::decode_for_era(Era::Byron, tx).ok()?;
    Some(tx.as_byron()?.transaction.inputs.iter().map(|i| match i {
        TxIn::Variant0(x) => Some((*(x.0).0, (x.0).1)),
        TxIn::Other(..) => None,
    }).collect())
}

/// The outputs that a transaction of a later era uses up: its inputs, or its
/// collateral where its scripts failed, each once.
pub uninterp spec fn consumed_of(era: u16, tx: Seq<u8>) -> Option<Seq<(Hash32, u64)>>;

/// Calls `pallas_traverse::MultiEraTx::decode_for_era` and `consumes`, which
/// cannot name every input of a Byron transaction: that era is left out.
#[verifier::external_body]
pub(crate) fn consumed_inputs(era: u16, tx: &[u8]) -> (r: Option<Vec<(Hash32, u64)>>)
    requires
        era >= 2,
    ensures
        listed(r) == consumed_of(era, tx@),
{
    let tx = MultiEraTx::decode_for_era(era.try_into().ok()?, tx).ok()?;
    Some(tx.consumes().iter().map(|i| (**i.hash(), i.index())).collect())
}

/// A new output, without its assets.
pub struct OutputPiece {
    pub index: usize,
    /// The address, or why it cannot be read.
    pub address: Result<Vec<u8>, String>,
    pub amount: u64,
    pub datum: DatumData,
}

pub struct OutputModel {
    pub index: usize,
    pub address: Result<Seq<u8>, Seq<char>>,
    pub amount: u64,
    pub datum: DatumModel,
}

/// What the datum of an output holds.
pub enum DatumModel {
    Absent,
    Hash(Seq<u8>),
    Inline(Seq<u8>),
}

pub open spec fn datum_view(d: DatumData) -> DatumModel {
    match d {
        DatumData::Absent => DatumModel::Absent,
        DatumData::Hash(h) => DatumModel::Hash(h@),
        DatumData::Inline(b) => DatumModel::Inline(b@),
    }
}

pub open spec fn output_view(o: OutputPiece) -> OutputModel {
    OutputModel {
        index: o.index,
        address: match o.address {
            Ok(a) => Ok(a@),
            Err(e) => Err(e@),
        },
        amount: o.amount,
        datum: datum_view(o.datum),
    }
}

pub open spec fn outputs_view(l: Option<Vec<OutputPiece>>) -> Option<Seq<OutputModel>> {
    match l {
        Some(v) => Some(Seq::new(v@.len(), |i: int| output_view(v@[i]))),
        None => None,
    }
}

/// The outputs that a transaction makes.
pub uninterp spec fn outputs_of(era: u16, tx: Seq<u8>) -> Option<Seq<OutputModel>>;

/// Calls `pallas_traverse::MultiEraTx::decode_for_era` and `produces`: the
/// outputs, or the collateral return where scripts failed, with their indexes.
/// Of each it reads `address`, `value().coin()` and `datum`.
#[verifier::external_body]
pub(crate) fn produced_outputs(era: u16, tx: &[u8]) -> (r: Option<Vec<OutputPiece>>)
    ensures
        outputs_view(r) == outputs_of(era, tx@),
{
    let tx = MultiEraTx::decode_for_era(era.try_into().ok()?, tx).ok()?;
    Some(tx.produces().iter().map(|(i, o)| OutputPiece {
        index: *i,
        address: o.address().map(|a| a.to_vec()).map_err(|e| e.to_string()),
        amount: o.value().coin(),
        datum: match o.datum() {
            Some(DatumOption::Hash(h)) => DatumData::Hash(h.to_vec()),
            Some(DatumOption::Data(d)) => DatumData::Inline(d.raw_cbor().to_vec()),
            None => DatumData::Absent,
        },
    }).collect())
}

pub open spec fn asset_pieces(l: Seq<(Hash28, Vec<u8>, Option<u64>)>) -> Seq<(Hash28, Seq<u8>, Option<u64>)> {
    Seq::new(l.len(), |i: int| (l[i].0, l[i].1@, l[i].2))
}

pub open spec fn assets_view(l: Option<Vec<Vec<(Hash28, Vec<u8>, Option<u64>)>>>) -> Option<
    Seq<Seq<(Hash28, Seq<u8>, Option<u64>)>>,
> {
    match l {
        Some(v) => Some(Seq::new(v@.len(), |i: int| asset_pieces(v@[i]@))),
        None => None,
    }
}

/// The assets in each of the outputs that a transaction makes: policy, name
/// and amount.
pub uninterp spec fn assets_of(era: u16, tx: Seq<u8>) -> Option<Seq<Seq<(Hash28, Seq<u8>, Option<u64>)>>>;

/// Calls `pallas_traverse::MultiEraTx::decode_for_era` and `produces`, and
/// lists `value().assets()` of each output policy by policy, with `policy`,
/// `name` and `output_coin` of each asset.
#[verifier::external_body]
pub(crate) fn produced_assets(era: u16, tx: &[u8]) -> (r: Option<Vec<Vec<(Hash28, Vec<u8>, Option<u64>)>>>)
    ensures
        assets_view(r) == assets_of(era, tx@),
{
    let tx = MultiEraTx::decode_for_era(era.try_into().ok()?, tx).ok()?;
    Some(tx.produces().iter().map(|(_, o)| o.value().assets().iter().flat_map(|p| {
        p.assets().iter().map(|a| (**a.policy(), a.name().to_vec(), a.output_coin())).collect::<Vec<_>>()
    }).collect()).collect())
}

pub open spec fn encodings(l: Option<Vec<Option<Vec<u8>>>>) -> Option<Seq<Option<Seq<u8>>>> {
    match l {
        Some(v) => Some(
            Seq::new(
                v@.len(),
                |i: int|
                    match v@[i] {
                        Some(b) => Some(b@),
                        None => None,
                    },
            ),
        ),
        None => None,
    }
}

/// The certificates of a transaction, each as its encoding.
pub uninterp spec fn certs_of(era: u16, tx: Seq<u8>) -> Option<Seq<Option<Seq<u8>>>>;

/// Calls `pallas_traverse::MultiEraTx::decode_for_era` and `certs`, and encodes
/// each certificate again with `pallas_primitives::Fragment::encode_fragment`.
#[verifier::external_body]
pub(crate) fn certificates(era: u16, tx: &[u8]) -> (r: Option<Vec<Option<Vec<u8>>>>)
    ensures
        encodings(r) == certs_of(era, tx@),
{
    let tx = MultiEraTx::decode_for_era(era.try_into().ok()?, tx).ok()?;
    Some(tx.certs().iter().map(|c| match c {
        MultiEraCert::AlonzoCompatible(c) => c.encode_fragment().ok(),
        MultiEraCert::Conway(c) => c.encode_fragment().ok(),
        _ => None,
    }).collect())
}

// ---- certificates ----

/// A credential as it stands on the chain.
#[derive(Debug, Clone, Copy)]
pub enum ChainCredential {
    Key(Hash28),
    Script(Hash28),
}

/// A DRep as it stands on the chain.
#[derive(Debug, Clone, Copy)]
pub enum ChainDRep {
    Key(Hash28),
    Script(Hash28),
    Abstain,
    NoConfidence,
}

/// What a certificate of one credential does.
#[derive(Debug, Clone, Copy)]
pub enum CertStep {
    /// Registers a stake key.
    Open,
    /// Deregisters it.
    Close,
    /// Delegates to a pool.
    Delegate(Hash28),
    /// Deregisters a stake key for a refund.
    CloseFor(u64),
    /// Deregisters a DRep for a refund.
    Leave(u64),
}

/// What a certificate on an office does.
#[derive(Debug, Clone, Copy)]
pub enum OfficeStep {
    /// Registers a DRep with a deposit.
    Enrol(u64),
    /// Updates a DRep.
    Renew,
    /// Resigns from the committee.
    Resign,
    /// Names the hot key of a committee member.
    Name(ChainCredential),
}

/// What a certificate on a pool says.
pub enum PoolPiece {
    Register {
        operator: Hash28,
        vrf_keyhash: Hash32,
        pledge: u64,
        cost: u64,
        margin: (u64, u64),
        reward_account: Vec<u8>,
        owners: Vec<Hash28>,
    },
    Retire(Hash28, u64),
}

pub enum PoolPieceModel {
    Register {
        operator: Hash28,
        vrf_keyhash: Hash32,
        pledge: u64,
        cost: u64,
        margin: (u64, u64),
        reward_account: Seq<u8>,
        owners: Seq<Hash28>,
    },
    Retire(Hash28, u64),
}

pub open spec fn pool_view(p: Option<PoolPiece>) -> Option<PoolPieceModel> {
    match p {
        Some(PoolPiece::Register { operator, vrf_keyhash, pledge, cost, margin, reward_account, owners }) => Some(
            PoolPieceModel::Register {
                operator,
                vrf_keyhash,
                pledge,
                cost,
                margin,
                reward_account: reward_account@,
                owners: owners@,
            },
        ),
        Some(PoolPiece::Retire(pool, epoch)) => Some(PoolPieceModel::Retire(pool, epoch)),
        None => None,
    }
}

/// A certificate of the Shelley to Babbage eras on a stake key.
pub uninterp spec fn alonzo_step_of(cert: Seq<u8>) -> Option<(CertStep, ChainCredential)>;

/// Calls `pallas_primitives::alonzo::Certificate::decode_fragment` and reads
/// registrations, deregistrations and delegations of stake keys; nothing of
/// other certificates, or where the bytes do not decode.
#[verifier::external_body]
pub(crate) fn alonzo_step(cert: &[u8]) -> (r: Option<(CertStep, ChainCredential)>)
    ensures
        r == alonzo_step_of(cert@),
{
    let cert = AlonzoCertificate::decode_fragment(cert).ok()?;
    let (step, c) = match &cert {
        AlonzoCertificate::StakeRegistration(c) => (CertStep::Open, c),
        AlonzoCertificate::StakeDeregistration(c) => (CertStep::Close, c),
        AlonzoCertificate::StakeDelegation(c, p) => (CertStep::Delegate(**p), c),
        _ => return None,
    };
    Some((step, match c {
        AddrKeyhash(h) => ChainCredential::Key(**h),
        ScriptHash(h) => ChainCredential::Script(**h),
    }))
}

/// A certificate of the Shelley to Babbage eras on a pool.
pub uninterp spec fn alonzo_pool_of(cert: Seq<u8>) -> Option<PoolPieceModel>;

/// Calls `pallas_primitives::alonzo::Certificate::decode_fragment` and reads
/// registrations and retirements of pools, without relays and metadata;
/// nothing of other certificates, or where the bytes do not decode.
#[verifier::external_body]
pub(crate) fn alonzo_pool(cert: &[u8]) -> (r: Option<PoolPiece>)
    ensures
        pool_view(r) == alonzo_pool_of(cert@),
{
    match AlonzoCertificate::decode_fragment(cert).ok()? {
        AlonzoCertificate::PoolRegistration { operator, vrf_keyhash, pledge, cost, margin, reward_account, pool_owners, .. } => Some(PoolPiece::Register {
            operator: *operator,
            vrf_keyhash: *vrf_keyhash,
            pledge,
            cost,
            margin: (margin.numerator, margin.denominator),
            reward_account: reward_account.to_vec(),
            owners: pool_owners.iter().map(|o| **o).collect(),
        }),
        AlonzoCertificate::PoolRetirement(p, epoch) => Some(PoolPiece::Retire(*p, epoch)),
        _ => None,
    }
}

/// What a certificate of a genesis key or of instantaneous rewards says.
pub enum LegacyPiece {
    /// A genesis key, its delegate and the VRF key of that one.
    Genesis(Vec<u8>, Vec<u8>, Hash32),
    /// Whether rewards come from the treasury, and not from the reserves; and
    /// what each account gets.
    Accounts(bool, Vec<(ChainCredential, i64)>),
    /// Whether lovelace comes from the treasury; and how much goes to the other
    /// pot.
    Pot(bool, u64),
}

pub enum LegacyModel {
    Genesis(Seq<u8>, Seq<u8>, Hash32),
    Accounts(bool, Seq<(ChainCredential, i64)>),
    Pot(bool, u64),
}

pub open spec fn legacy_view(l: Option<LegacyPiece>) -> Option<LegacyModel> {
    match l {
        Some(LegacyPiece::Genesis(key, delegate, vrf)) => Some(LegacyModel::Genesis(key@, delegate@, vrf)),
        Some(LegacyPiece::Accounts(treasury, l)) => Some(LegacyModel::Accounts(treasury, l@)),
        Some(LegacyPiece::Pot(treasury, x)) => Some(LegacyModel::Pot(treasury, x)),
        None => None,
    }
}

/// A certificate of a genesis key or of instantaneous rewards.
pub uninterp spec fn legacy_of(cert: Seq<u8>) -> Option<LegacyModel>;

/// Calls `pallas_primitives::alonzo::Certificate::decode_fragment` and reads
/// delegations of genesis keys and moves of instantaneous rewards; nothing of
/// other certificates, or where the bytes do not decode.
#[verifier::external_body]
pub(crate) fn alonzo_legacy(cert: &[u8]) -> (r: Option<LegacyPiece>)
    ensures
        legacy_view(r) == legacy_of(cert@),
{
    match AlonzoCertificate::decode_fragment(cert).ok()? {
        GenesisKeyDelegation(a, b, c) => Some(LegacyPiece::Genesis(a.to_vec(), b.to_vec(), *c)),
        MoveInstantaneousRewardsCert(m) => {
            let treasury = matches!(m.source, InstantaneousRewardSource::Treasury);
            Some(match m.target {
                StakeCredentials(l) => LegacyPiece::Accounts(treasury, l.iter().map(|(c, x)| (match c {
                    AddrKeyhash(h) => ChainCredential::Key(**h),
                    ScriptHash(h) => ChainCredential::Script(**h),
                }, *x)).collect()),
                OtherAccountingPot(x) => LegacyPiece::Pot(treasury, x),
            })
        }
        _ => None,
    }
}

/// A Conway certificate of one credential.
pub uninterp spec fn conway_step_of(cert: Seq<u8>) -> Option<(CertStep, ChainCredential)>;

/// Calls `pallas_primitives::conway::Certificate::decode_fragment` and reads
/// registrations, deregistrations and delegations of stake keys in their older
/// form, `UnReg` and `UnRegDRepCert`; nothing of other certificates, or where
/// the bytes do not decode.
#[verifier::external_body]
pub(crate) fn conway_step(cert: &[u8]) -> (r: Option<(CertStep, ChainCredential)>)
    ensures
        r == conway_step_of(cert@),
{
    let cert = ConwayCertificate::decode_fragment(cert).ok()?;
    let (step, c) = match &cert {
        StakeRegistration(c) => (CertStep::Open, c),
        StakeDeregistration(c) => (CertStep::Close, c),
        StakeDelegation(c, p) => (CertStep::Delegate(**p), c),
        UnReg(c, x) => (CertStep::CloseFor(*x), c),
        UnRegDRepCert(c, x) => (CertStep::Leave(*x), c),
        _ => return None,
    };
    Some((step, match c {
        AddrKeyhash(h) => ChainCredential::Key(**h),
        ScriptHash(h) => ChainCredential::Script(**h),
    }))
}

/// A Conway certificate that registers a stake key, delegates, or both: the
/// key, the pool and the deposit.
pub uninterp spec fn enrolment_of(cert: Seq<u8>) -> Option<(ChainCredential, Option<Hash28>, Option<u64>)>;

/// Calls `pallas_primitives::conway::Certificate::decode_fragment` and reads
/// `Reg`, `VoteDeleg` and the four certificates that combine them with a
/// delegation to a pool; nothing of other certificates, or where the bytes do
/// not decode.
#[verifier::external_body]
pub(crate) fn enrolment(cert: &[u8]) -> (r: Option<(ChainCredential, Option<Hash28>, Option<u64>)>)
    ensures
        r == enrolment_of(cert@),
{
    let cert = ConwayCertificate::decode_fragment(cert).ok()?;
    let (c, pool, deposit) = match &cert {
        Reg(c, x) | VoteRegDeleg(c, _, x) => (c, None, Some(*x)),
        StakeRegDeleg(c, p, x) | StakeVoteRegDeleg(c, p, _, x) => (c, Some(**p), Some(*x)),
        VoteDeleg(c, _) => (c, None, None),
        StakeVoteDeleg(c, p, _) => (c, Some(**p), None),
        _ => return None,
    };
    Some((match c {
        AddrKeyhash(h) => ChainCredential::Key(**h),
        ScriptHash(h) => ChainCredential::Script(**h),
    }, pool, deposit))
}

/// The DRep to which a Conway certificate delegates.
pub uninterp spec fn drep_of(cert: Seq<u8>) -> Option<ChainDRep>;

/// Calls `pallas_primitives::conway::Certificate::decode_fragment` and reads
/// the DRep of the four certificates that name one; nothing of other
/// certificates, or where the bytes do not decode.
#[verifier::external_body]
pub(crate) fn delegated_drep(cert: &[u8]) -> (r: Option<ChainDRep>)
    ensures
        r == drep_of(cert@),
{
    match ConwayCertificate::decode_fragment(cert).ok()? {
        VoteDeleg(_, d) | StakeVoteDeleg(_, _, d) | VoteRegDeleg(_, d, _) | StakeVoteRegDeleg(_, _, d, _) => Some(match d {
            ConwayDRep::Key(h) => ChainDRep::Key(*h),
            ConwayDRep::Script(h) => ChainDRep::Script(*h),
            ConwayDRep::Abstain => ChainDRep::Abstain,
            ConwayDRep::NoConfidence => ChainDRep::NoConfidence,
        }),
        _ => None,
    }
}

/// A Conway certificate on the office of a DRep or of a committee member.
pub uninterp spec fn office_of(cert: Seq<u8>) -> Option<(OfficeStep, ChainCredential)>;

/// Calls `pallas_primitives::conway::Certificate::decode_fragment` and reads
/// `RegDRepCert`, `UpdateDRepCert`, `ResignCommitteeCold` and
/// `AuthCommitteeHot`, without their anchors; nothing of other certificates, or
/// where the bytes do not decode.
#[verifier::external_body]
pub(crate) fn office(cert: &[u8]) -> (r: Option<(OfficeStep, ChainCredential)>)
    ensures
        r == office_of(cert@),
{
    let cert = ConwayCertificate::decode_fragment(cert).ok()?;
    let (step, c) = match &cert {
        RegDRepCert(c, x, _) => (OfficeStep::Enrol(*x), c),
        UpdateDRepCert(c, _) => (OfficeStep::Renew, c),
        ResignCommitteeCold(c, _) => (OfficeStep::Resign, c),
        AuthCommitteeHot(c, AddrKeyhash(h)) => (OfficeStep::Name(ChainCredential::Key(**h)), c),
        AuthCommitteeHot(c, ScriptHash(h)) => (OfficeStep::Name(ChainCredential::Script(**h)), c),
        _ => return None,
    };
    Some((step, match c {
        AddrKeyhash(h) => ChainCredential::Key(**h),
        ScriptHash(h) => ChainCredential::Script(**h),
    }))
}

pub open spec fn anchor_view(a: Option<(String, Hash32)>) -> Option<(Seq<char>, Hash32)> {
    match a {
        Some(x) => Some((x.0@, x.1)),
        None => None,
    }
}

/// The anchor of a Conway certificate on an office.
pub uninterp spec fn anchor_of(cert: Seq<u8>) -> Option<(Seq<char>, Hash32)>;

/// Calls `pallas_primitives::conway::Certificate::decode_fragment` and reads
/// the anchor of `RegDRepCert`, `UpdateDRepCert` and `ResignCommitteeCold`.
#[verifier::external_body]
pub(crate) fn office_anchor(cert: &[u8]) -> (r: Option<(String, Hash32)>)
    ensures
        anchor_view(r) == anchor_of(cert@),
{
    match ConwayCertificate::decode_fragment(cert).ok()? {
        RegDRepCert(_, _, a) | UpdateDRepCert(_, a) | ResignCommitteeCold(_, a) => a.map(|a| (a.url, *a.content_hash)),
        _ => None,
    }
}

/// A Conway certificate on a pool.
pub uninterp spec fn conway_pool_of(cert: Seq<u8>) -> Option<PoolPieceModel>;

/// Calls `pallas_primitives::conway::Certificate::decode_fragment` and reads
/// registrations and retirements of pools, without relays and metadata;
/// nothing of other certificates, or where the bytes do not decode.
#[verifier::external_body]
pub(crate) fn conway_pool(cert: &[u8]) -> (r: Option<PoolPiece>)
    ensures
        pool_view(r) == conway_pool_of(cert@),
{
    match ConwayCertificate::decode_fragment(cert).ok()? {
        PoolRegistration { operator, vrf_keyhash, pledge, cost, margin, reward_account, pool_owners, .. } => Some(PoolPiece::Register {
            operator: *operator,
            vrf_keyhash: *vrf_keyhash,
            pledge,
            cost,
            margin: (margin.numerator, margin.denominator),
            reward_account: reward_account.to_vec(),
            owners: pool_owners.iter().map(|o| **o).collect(),
        }),
        PoolRetirement(p, epoch) => Some(PoolPiece::Retire(*p, epoch)),
        _ => None,
    }
}

// ---- parameter updates before Conway ----

/// Parameters that a genesis delegate proposes.
#[derive(Debug, Clone, Copy)]
pub struct ProposedPiece {
    /// Fee per byte, constant fee, sizes of a block body, a transaction and a
    /// block header, wanted number of pools.
    pub sizes: (Option<u32>, Option<u32>, Option<u32>, Option<u32>, Option<u32>, Option<u32>),
    /// Key deposit, pool deposit, retirement horizon, least pool cost.
    pub amounts: (Option<u64>, Option<u64>, Option<u64>, Option<u64>),
    /// Pledge influence, expansion, treasury growth, decentralization.
    pub shares: [Option<(u64, u64)>; 4],
    pub version: Option<(u64, u64)>,
}

pub open spec fn updates_view(u: Option<(u64, Vec<(Vec<u8>, ProposedPiece)>)>) -> Option<
    (u64, Seq<(Seq<u8>, ProposedPiece)>),
> {
    match u {
        Some(x) => Some((x.0, Seq::new(x.1@.len(), |i: int| (x.1@[i].0@, x.1@[i].1)))),
        None => None,
    }
}

/// The update that a transaction of the Shelley to Alonzo eras proposes: the
/// epoch, and what each genesis delegate wants.
pub uninterp spec fn alonzo_updates_of(era: u16, tx: Seq<u8>) -> Option<(u64, Seq<(Seq<u8>, ProposedPiece)>)>;

/// Calls `pallas_traverse::MultiEraTx::decode_for_era`, `update` and
/// `as_alonzo`, and reads the proposed parameters that the ledger knows.
#[verifier::external_body]
pub(crate) fn alonzo_updates(era: u16, tx: &[u8]) -> (r: Option<(u64, Vec<(Vec<u8>, ProposedPiece)>)>)
    ensures
        updates_view(r) == alonzo_updates_of(era, tx@),
{
    let tx = MultiEraTx::decode_for_era(era.try_into().ok()?, tx).ok()?;
    let update = tx.update()?;
    let l = update.as_alonzo()?.proposed_protocol_parameter_updates.iter().map(|(k, u)| (k.to_vec(), ProposedPiece {
        sizes: (u.minfee_a, u.minfee_b, u.max_block_body_size, u.max_transaction_size, u.max_block_header_size, u.desired_number_of_stake_pools),
        amounts: (u.key_deposit, u.pool_deposit, u.maximum_epoch, u.min_pool_cost),
        shares: [&u.pool_pledge_influence, &u.expansion_rate, &u.treasury_growth_rate, &u.decentralization_constant]
            .map(|x| x.as_ref().map(|r| (r.numerator, r.denominator))),
        version: u.protocol_version,
    })).collect();
    Some((update.epoch(), l))
}

/// The update that a Babbage transaction proposes.
pub uninterp spec fn babbage_updates_of(era: u16, tx: Seq<u8>) -> Option<(u64, Seq<(Seq<u8>, ProposedPiece)>)>;

/// Calls `pallas_traverse::MultiEraTx::decode_for_era`, `update` and
/// `as_babbage`, and reads the proposed parameters that the ledger knows;
/// decentralization is none of them.
#[verifier::external_body]
pub(crate) fn babbage_updates(era: u16, tx: &[u8]) -> (r: Option<(u64, Vec<(Vec<u8>, ProposedPiece)>)>)
    ensures
        updates_view(r) == babbage_updates_of(era, tx@),
{
    let tx = MultiEraTx::decode_for_era(era.try_into().ok()?, tx).ok()?;
    let update = tx.update()?;
    let l = update.as_babbage()?.proposed_protocol_parameter_updates.iter().map(|(k, u)| (k.to_vec(), ProposedPiece {
        sizes: (u.minfee_a, u.minfee_b, u.max_block_body_size, u.max_transaction_size, u.max_block_header_size, u.desired_number_of_stake_pools),
        amounts: (u.key_deposit, u.pool_deposit, u.maximum_epoch, u.min_pool_cost),
        shares: [&u.pool_pledge_influence, &u.expansion_rate, &u.treasury_growth_rate, &None]
            .map(|x| x.as_ref().map(|r| (r.numerator, r.denominator))),
        version: u.protocol_version,
    })).collect();
    Some((update.epoch(), l))
}

// ---- governance ----

/// A governance proposal, its action as the encoding.
pub struct ProposalPiece {
    pub reward_account: Vec<u8>,
    pub deposit: u64,
    /// The action on which it follows: transaction and index.
    pub previous: Option<(Hash32, u32)>,
    pub action: Option<Vec<u8>>,
}

pub struct ProposalPieceModel {
    pub reward_account: Seq<u8>,
    pub deposit: u64,
    pub previous: Option<(Hash32, u32)>,
    pub action: Option<Seq<u8>>,
}

pub open spec fn proposal_view(p: ProposalPiece) -> ProposalPieceModel {
    ProposalPieceModel {
        reward_account: p.reward_account@,
        deposit: p.deposit,
        previous: p.previous,
        action: match p.action {
            Some(a) => Some(a@),
            None => None,
        },
    }
}

pub open spec fn proposals_view(l: Option<Vec<ProposalPiece>>) -> Option<Seq<ProposalPieceModel>> {
    match l {
        Some(v) => Some(Seq::new(v@.len(), |i: int| proposal_view(v@[i]))),
        None => None,
    }
}

/// The governance proposals of a transaction.
pub uninterp spec fn proposals_of(era: u16, tx: Seq<u8>) -> Option<Seq<ProposalPieceModel>>;

/// Calls `pallas_traverse::MultiEraTx::decode_for_era` and `gov_proposals`, and
/// of each `reward_account`, `deposit` and the `id` of its action, which it
/// encodes again with `pallas_primitives::Fragment::encode_fragment`.
#[verifier::external_body]
pub(crate) fn gov_proposals(era: u16, tx: &[u8]) -> (r: Option<Vec<ProposalPiece>>)
    ensures
        proposals_view(r) == proposals_of(era, tx@),
{
    let tx = MultiEraTx::decode_for_era(era.try_into().ok()?, tx).ok()?;
    Some(tx.gov_proposals().iter().map(|x| ProposalPiece {
        reward_account: x.reward_account().to_vec(),
        deposit: x.deposit(),
        previous: x.gov_action().id().map(|i| (*i.transaction_id, i.action_index)),
        action: x.as_conway().and_then(|x| x.gov_action.encode_fragment().ok()),
    }).collect())
}

/// What a governance action asks for. Parameters and committees are pieces of
/// their own.
pub enum ActionPiece {
    Parameters,
    HardFork((u64, u64)),
    /// Reward accounts and amounts.
    Treasury(Vec<(Vec<u8>, u64)>),
    NoConfidence,
    Committee,
    /// Anchor and guardrail script.
    Constitution(String, Hash32, Option<Hash28>),
    Information,
}

pub enum ActionPieceModel {
    Parameters,
    HardFork((u64, u64)),
    Treasury(Seq<(Seq<u8>, u64)>),
    NoConfidence,
    Committee,
    Constitution(Seq<char>, Hash32, Option<Hash28>),
    Information,
}

pub open spec fn account_amounts(l: Seq<(Vec<u8>, u64)>) -> Seq<(Seq<u8>, u64)> {
    Seq::new(l.len(), |i: int| (l[i].0@, l[i].1))
}

pub open spec fn action_view(a: Option<ActionPiece>) -> Option<ActionPieceModel> {
    match a {
        Some(ActionPiece::Parameters) => Some(ActionPieceModel::Parameters),
        Some(ActionPiece::HardFork(v)) => Some(ActionPieceModel::HardFork(v)),
        Some(ActionPiece::Treasury(l)) => Some(ActionPieceModel::Treasury(account_amounts(l@))),
        Some(ActionPiece::NoConfidence) => Some(ActionPieceModel::NoConfidence),
        Some(ActionPiece::Committee) => Some(ActionPieceModel::Committee),
        Some(ActionPiece::Constitution(url, hash, script)) => Some(
            ActionPieceModel::Constitution(url@, hash, script),
        ),
        Some(ActionPiece::Information) => Some(ActionPieceModel::Information),
        None => None,
    }
}

/// What a governance action asks for, if the bytes are one.
pub uninterp spec fn action_of(action: Seq<u8>) -> Option<ActionPieceModel>;

/// Calls `pallas_primitives::conway::GovAction::decode_fragment` and tells the
/// seven actions apart.
#[verifier::external_body]
pub(crate) fn action_kind(action: &[u8]) -> (r: Option<ActionPiece>)
    ensures
        action_view(r) == action_of(action@),
{
    Some(match GovAction::decode_fragment(action).ok()? {
        ParameterChange(..) => ActionPiece::Parameters,
        HardForkInitiation(_, v) => ActionPiece::HardFork(v),
        TreasuryWithdrawals(l, _) => ActionPiece::Treasury(l.iter().map(|(a, x)| (a.to_vec(), *x)).collect()),
        NoConfidence(_) => ActionPiece::NoConfidence,
        UpdateCommittee(..) => ActionPiece::Committee,
        NewConstitution(_, c) => ActionPiece::Constitution(c.anchor.url, *c.anchor.content_hash, c.guardrail_script.map(|h| *h)),
        Information => ActionPiece::Information,
    })
}

/// A change of the committee.
pub struct CommitteePiece {
    pub removed: Vec<ChainCredential>,
    /// New members and the epochs in which their terms end.
    pub added: Vec<(ChainCredential, u64)>,
    pub quorum: (u64, u64),
}

pub struct CommitteeModel {
    pub removed: Seq<ChainCredential>,
    pub added: Seq<(ChainCredential, u64)>,
    pub quorum: (u64, u64),
}

pub open spec fn committee_view(c: Option<CommitteePiece>) -> Option<CommitteeModel> {
    match c {
        Some(x) => Some(CommitteeModel { removed: x.removed@, added: x.added@, quorum: x.quorum }),
        None => None,
    }
}

/// The change of the committee that an action asks for.
pub uninterp spec fn committee_of(action: Seq<u8>) -> Option<CommitteeModel>;

/// Calls `pallas_primitives::conway::GovAction::decode_fragment` and reads
/// `UpdateCommittee`; nothing of other actions.
#[verifier::external_body]
pub(crate) fn committee_change(action: &[u8]) -> (r: Option<CommitteePiece>)
    ensures
        committee_view(r) == committee_of(action@),
{
    let chain = |c: &StakeCredential| match c {
        AddrKeyhash(h) => ChainCredential::Key(**h),
        ScriptHash(h) => ChainCredential::Script(**h),
    };
    match GovAction::decode_fragment(action).ok()? {
        UpdateCommittee(_, gone, new, quorum) => Some(CommitteePiece {
            removed: gone.iter().map(chain).collect(),
            added: new.iter().map(|(c, e)| (chain(c), *e)).collect(),
            quorum: (quorum.numerator, quorum.denominator),
        }),
        _ => None,
    }
}

/// Parameters that an action changes.
#[derive(Debug, Clone, Copy)]
pub struct TermsPiece {
    /// Fee per byte, constant fee, sizes of a block body, a transaction and a
    /// block header, wanted number of pools.
    pub sizes: (Option<u64>, Option<u64>, Option<u64>, Option<u64>, Option<u64>, Option<u64>),
    /// Key deposit, pool deposit, retirement horizon, least pool cost.
    pub amounts: (Option<u64>, Option<u64>, Option<u64>, Option<u64>),
    /// DRep deposit and activity, lifetime and deposit of an action, least
    /// committee size, longest term.
    pub governance: (Option<u64>, Option<u64>, Option<u64>, Option<u64>, Option<u64>, Option<u64>),
    /// Pledge influence, expansion, treasury growth, fee per byte of reference
    /// scripts.
    pub shares: (Option<(u64, u64)>, Option<(u64, u64)>, Option<(u64, u64)>, Option<(u64, u64)>),
}

/// The parameters that an action changes, thresholds aside.
pub uninterp spec fn terms_of(action: Seq<u8>) -> Option<TermsPiece>;

/// Calls `pallas_primitives::conway::GovAction::decode_fragment` and reads the
/// numbers and shares of `ParameterChange` that the ledger knows; nothing of
/// other actions.
#[verifier::external_body]
pub(crate) fn changed_terms(action: &[u8]) -> (r: Option<TermsPiece>)
    ensures
        r == terms_of(action@),
{
    let share = |x: &Option<RationalNumber>| x.as_ref().map(|r| (r.numerator, r.denominator));
    match GovAction::decode_fragment(action).ok()? {
        ParameterChange(_, u, _) => Some(TermsPiece {
            sizes: (u.minfee_a, u.minfee_b, u.max_block_body_size, u.max_transaction_size, u.max_block_header_size, u.desired_number_of_stake_pools),
            amounts: (u.key_deposit, u.pool_deposit, u.maximum_epoch, u.min_pool_cost),
            governance: (u.drep_deposit, u.drep_inactivity_period, u.governance_action_validity_period, u.governance_action_deposit, u.min_committee_size, u.committee_term_limit),
            shares: (share(&u.pool_pledge_influence), share(&u.expansion_rate), share(&u.treasury_growth_rate), share(&u.minfee_refscript_cost_per_byte)),
        }),
        _ => None,
    }
}

/// Voting thresholds that an action sets.
#[derive(Debug, Clone, Copy)]
pub struct ThresholdsPiece {
    /// Of DReps: no confidence, committee with and without confidence,
    /// constitution, hard fork, network, economic, technical and governance
    /// parameters, treasury.
    pub dreps: Option<[(u64, u64); 10]>,
    /// Of pools: no confidence, committee with and without confidence, hard
    /// fork, security parameters.
    pub pools: Option<[(u64, u64); 5]>,
}

/// The voting thresholds that an action sets.
pub uninterp spec fn thresholds_of(action: Seq<u8>) -> Option<ThresholdsPiece>;

/// Calls `pallas_primitives::conway::GovAction::decode_fragment` and reads the
/// thresholds of `ParameterChange`; nothing of other actions.
#[verifier::external_body]
pub(crate) fn changed_thresholds(action: &[u8]) -> (r: Option<ThresholdsPiece>)
    ensures
        r == thresholds_of(action@),
{
    let share = |r: &RationalNumber| (r.numerator, r.denominator);
    match GovAction::decode_fragment(action).ok()? {
        ParameterChange(_, u, _) => Some(ThresholdsPiece {
            dreps: u.drep_voting_thresholds.map(|t| [
                &t.motion_no_confidence, &t.committee_normal, &t.committee_no_confidence, &t.update_constitution, &t.hard_fork_initiation,
                &t.pp_network_group, &t.pp_economic_group, &t.pp_technical_group, &t.pp_governance_group, &t.treasury_withdrawal,
            ].map(share)),
            pools: u.pool_voting_thresholds.map(|t| [
                &t.motion_no_confidence, &t.committee_normal, &t.committee_no_confidence, &t.hard_fork_initiation, &t.security_voting_threshold,
            ].map(share)),
        }),
        _ => None,
    }
}

/// A voter as it stands on the chain.
#[derive(Debug, Clone, Copy)]
pub enum ChainVoter {
    CommitteeKey(Hash28),
    CommitteeScript(Hash28),
    RepKey(Hash28),
    RepScript(Hash28),
    Pool(Hash28),
}

pub open spec fn vote_views(l: Seq<(ChainVoter, Vec<((Hash32, u32), Vote)>)>) -> Seq<
    (ChainVoter, Seq<((Hash32, u32), Vote)>),
> {
    Seq::new(l.len(), |i: int| (l[i].0, l[i].1@))
}

pub open spec fn votes_view(l: Option<Vec<(ChainVoter, Vec<((Hash32, u32), Vote)>)>>) -> Option<
    Seq<(ChainVoter, Seq<((Hash32, u32), Vote)>)>,
> {
    match l {
        Some(v) => Some(vote_views(v@)),
        None => None,
    }
}

/// The votes of a Conway transaction: each voter with the actions, by
/// transaction and index, and the votes on them.
pub uninterp spec fn votes_of(era: u16, tx: Seq<u8>) -> Option<Seq<(ChainVoter, Seq<((Hash32, u32), Vote)>)>>;

/// Calls `pallas_traverse::MultiEraTx::decode_for_era` and `as_conway` and
/// reads the voting procedures of the body, without anchors; nothing where
/// there are none.
#[verifier::external_body]
pub(crate) fn tx_votes(era: u16, tx: &[u8]) -> (r: Option<Vec<(ChainVoter, Vec<((Hash32, u32), Vote)>)>>)
    ensures
        votes_view(r) == votes_of(era, tx@),
{
    let tx = MultiEraTx::decode_for_era(era.try_into().ok()?, tx).ok()?;
    Some(tx.as_conway()?.transaction_body.voting_procedures.as_ref()?.iter().map(|(v, l)| (match v {
        ConstitutionalCommitteeKey(h) => CommitteeKey(**h),
        ConstitutionalCommitteeScript(h) => CommitteeScript(**h),
        DRepKey(h) => RepKey(**h),
        DRepScript(h) => RepScript(**h),
        StakePoolKey(h) => Pool(**h),
    }, l.iter().map(|(i, p)| ((*i.transaction_id, i.action_index), match p.vote {
        Yes => Vote::Yes,
        No => Vote::No,
        Abstain => Vote::Abstain,
    })).collect())).collect())
}

} // verus!
