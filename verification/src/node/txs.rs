//! The transactions of a raw block, put together from their pieces.

use vstd::prelude::*;
use crate::ledger::primitives::{
    no_update, pad_key, padded_key, ActionModel, Anchor, Certificate, Constitution, Credential, DRep, EpochNo,
    GovActionId, GovernanceAction, Hash28, Hash32, Lovelace, MIRSource, MIRTarget, PoolParams, ProtocolParamUpdate, Rational, Relay, Vote,
    Voter,
};
use crate::item::Item;
use crate::node::block::{
    account_credential, credential_of_account, fit_key, fitted_key, raw_assets, DatumData, OutputData, ProposalData, TxData, UpdateData,
};
use crate::node::pieces::{
    account_amounts, action_kind, action_of, action_view, alonzo_legacy, alonzo_pool, alonzo_pool_of, alonzo_step, alonzo_step_of, alonzo_updates,
    alonzo_updates_of, anchor_of, anchor_view, asset_pieces, assets_of, babbage_updates, babbage_updates_of, byron_inputs,
    byron_inputs_of, byte_lists, certificates, certs_of, changed_terms, changed_thresholds, committee_change,
    committee_of, committee_view, consumed_inputs, consumed_of, conway_pool, conway_pool_of, conway_step, conway_step_of, datum_view,
    delegated_drep, drep_of, encodings, enrolment, enrolment_of, gov_proposals, head_of, legacy_of, legacy_view, listed, office, office_anchor,
    office_of, output_view, outputs_of, pool_view, produced_assets, produced_outputs, proposal_view, proposals_of, raw_txs,
    split_block, terms_of, thresholds_of, tx_head, tx_votes, updates_view, vote_views, votes_of, ActionPiece, ActionPieceModel, CertStep,
    ChainCredential, ChainDRep, ChainVoter, CommitteeModel, CommitteePiece, LegacyModel, LegacyPiece, OfficeStep, OutputModel, OutputPiece,
    PoolPieceModel, PoolPiece, ProposalPieceModel, ProposalPiece, ProposedPiece, TermsPiece, ThresholdsPiece,
};

verus! {

/// A transaction of a block with what it spends and what it makes.
#[derive(Debug)]
pub struct BlockTx {
    pub data: TxData,
    /// The outputs that it uses up: hash and index. Of a Byron transaction its
    /// inputs; of a later one its inputs or its collateral, each once.
    pub spent: Vec<(Hash32, u32)>,
    /// The outputs that it makes; of one whose address cannot be read, why.
    pub outputs: Vec<Result<OutputData, String>>,
}

// ---- credentials ----

pub open spec fn credential_from(c: ChainCredential) -> Credential {
    match c {
        ChainCredential::Key(h) => Credential::Key(padded_key(h@)),
        ChainCredential::Script(h) => Credential::Script(padded_key(h@)),
    }
}

fn pad_hash(h: &Hash28) -> (r: Hash32)
    ensures
        r == padded_key(h@),
{
    assert(h@.subrange(0, 28) =~= h@);
    pad_key(h.as_slice(), 0)
}

/// A credential of the chain, padded.
pub fn read_credential(c: ChainCredential) -> (r: Credential)
    ensures
        r == credential_from(c),
{
    match c {
        ChainCredential::Key(h) => Credential::Key(pad_hash(&h)),
        ChainCredential::Script(h) => Credential::Script(pad_hash(&h)),
    }
}

pub open spec fn drep_from(d: ChainDRep) -> DRep {
    match d {
        ChainDRep::Key(h) => DRep::KeyHash(padded_key(h@)),
        ChainDRep::Script(h) => DRep::ScriptHash(padded_key(h@)),
        ChainDRep::Abstain => DRep::AlwaysAbstain,
        ChainDRep::NoConfidence => DRep::AlwaysNoConfidence,
    }
}

/// A DRep of the chain, padded.
pub fn read_drep(d: ChainDRep) -> (r: DRep)
    ensures
        r == drep_from(d),
{
    match d {
        ChainDRep::Key(h) => DRep::KeyHash(pad_hash(&h)),
        ChainDRep::Script(h) => DRep::ScriptHash(pad_hash(&h)),
        ChainDRep::Abstain => DRep::AlwaysAbstain,
        ChainDRep::NoConfidence => DRep::AlwaysNoConfidence,
    }
}

pub open spec fn voter_from(v: ChainVoter) -> Voter {
    match v {
        ChainVoter::CommitteeKey(h) => Voter::ConstitutionalCommittee(Credential::Key(padded_key(h@))),
        ChainVoter::CommitteeScript(h) => Voter::ConstitutionalCommittee(Credential::Script(padded_key(h@))),
        ChainVoter::RepKey(h) => Voter::DRep(Credential::Key(padded_key(h@))),
        ChainVoter::RepScript(h) => Voter::DRep(Credential::Script(padded_key(h@))),
        ChainVoter::Pool(h) => Voter::StakePool(h),
    }
}

/// A voter of the chain, padded.
pub fn read_voter(v: ChainVoter) -> (r: Voter)
    ensures
        r == voter_from(v),
{
    match v {
        ChainVoter::CommitteeKey(h) => Voter::ConstitutionalCommittee(Credential::Key(pad_hash(&h))),
        ChainVoter::CommitteeScript(h) => Voter::ConstitutionalCommittee(Credential::Script(pad_hash(&h))),
        ChainVoter::RepKey(h) => Voter::DRep(Credential::Key(pad_hash(&h))),
        ChainVoter::RepScript(h) => Voter::DRep(Credential::Script(pad_hash(&h))),
        ChainVoter::Pool(h) => Voter::StakePool(h),
    }
}

pub open spec fn rational_from(r: (u64, u64)) -> Rational {
    Rational { numerator: r.0, denominator: r.1 }
}

pub open spec fn share_from(r: Option<(u64, u64)>) -> Option<Rational> {
    match r {
        Some(x) => Some(rational_from(x)),
        None => None,
    }
}

fn read_share(r: Option<(u64, u64)>) -> (s: Option<Rational>)
    ensures
        s == share_from(r),
{
    match r {
        Some(x) => Some(Rational { numerator: x.0, denominator: x.1 }),
        None => None,
    }
}

pub open spec fn action_id_from(i: (Hash32, u32)) -> GovActionId {
    GovActionId { tx_hash: i.0, index: i.1 }
}

// ---- certificates ----

pub open spec fn step_cert(step: CertStep, credential: Credential) -> Certificate {
    match step {
        CertStep::Open => Certificate::StakeRegistration(credential),
        CertStep::Close => Certificate::StakeDeregistration(credential),
        CertStep::Delegate(pool_hash) => Certificate::StakeDelegation { credential, pool_hash },
        CertStep::CloseFor(x) => Certificate::ConwayStakeDeregistration { credential, refund: Lovelace(x) },
        CertStep::Leave(x) => Certificate::UnregDRep { credential, refund: Lovelace(x) },
    }
}

/// A certificate of one credential.
pub fn read_step(step: CertStep, credential: Credential) -> (r: Certificate)
    ensures
        r == step_cert(step, credential),
{
    match step {
        CertStep::Open => Certificate::StakeRegistration(credential),
        CertStep::Close => Certificate::StakeDeregistration(credential),
        CertStep::Delegate(pool_hash) => Certificate::StakeDelegation { credential, pool_hash },
        CertStep::CloseFor(x) => Certificate::ConwayStakeDeregistration { credential, refund: Lovelace(x) },
        CertStep::Leave(x) => Certificate::UnregDRep { credential, refund: Lovelace(x) },
    }
}

/// A certificate that registers, delegates, or both: which one it is shows in
/// what it names.
pub open spec fn enrolment_cert(
    credential: Credential,
    pool: Option<Hash28>,
    drep: Option<DRep>,
    deposit: Option<u64>,
) -> Option<Certificate> {
    match (pool, drep, deposit) {
        (None, None, Some(x)) => Some(Certificate::ConwayStakeRegistration { credential, deposit: Lovelace(x) }),
        (Some(pool_hash), None, Some(x)) => Some(
            Certificate::RegStakeDeleg { credential, pool_hash, deposit: Lovelace(x) },
        ),
        (None, Some(drep), None) => Some(Certificate::VoteDelegation { credential, drep }),
        (Some(pool_hash), Some(drep), None) => Some(Certificate::StakeVoteDelegation { credential, pool_hash, drep }),
        (None, Some(drep), Some(x)) => Some(
            Certificate::VoteRegDeleg { credential, drep, deposit: Lovelace(x) },
        ),
        (Some(pool_hash), Some(drep), Some(x)) => Some(
            Certificate::RegStakeVoteDeleg { credential, pool_hash, drep, deposit: Lovelace(x) },
        ),
        _ => None,
    }
}

/// A certificate that registers, delegates, or both.
pub fn read_enrolment(credential: Credential, pool: Option<Hash28>, drep: Option<DRep>, deposit: Option<u64>) -> (r: Option<
    Certificate,
>)
    ensures
        r == enrolment_cert(credential, pool, drep, deposit),
{
    match (pool, drep, deposit) {
        (None, None, Some(x)) => Some(Certificate::ConwayStakeRegistration { credential, deposit: Lovelace(x) }),
        (Some(pool_hash), None, Some(x)) => Some(
            Certificate::RegStakeDeleg { credential, pool_hash, deposit: Lovelace(x) },
        ),
        (None, Some(drep), None) => Some(Certificate::VoteDelegation { credential, drep }),
        (Some(pool_hash), Some(drep), None) => Some(Certificate::StakeVoteDelegation { credential, pool_hash, drep }),
        (None, Some(drep), Some(x)) => Some(
            Certificate::VoteRegDeleg { credential, drep, deposit: Lovelace(x) },
        ),
        (Some(pool_hash), Some(drep), Some(x)) => Some(
            Certificate::RegStakeVoteDeleg { credential, pool_hash, drep, deposit: Lovelace(x) },
        ),
        _ => None,
    }
}

/// Whether an anchor is what stands on the chain.
pub open spec fn anchor_read(piece: Option<(Seq<char>, Hash32)>, a: Option<Anchor>) -> bool {
    match piece {
        Some(x) => a matches Some(y) && y.url@ == x.0 && y.hash == x.1,
        None => a is None,
    }
}

/// Whether a certificate on an office is what stands on the chain.
pub open spec fn office_read(
    step: OfficeStep,
    credential: Credential,
    anchor: Option<(Seq<char>, Hash32)>,
    c: Certificate,
) -> bool {
    match step {
        OfficeStep::Enrol(x) => c matches Certificate::RegDRep { credential: k, deposit, anchor: a } && k == credential
            && deposit == Lovelace(x) && anchor_read(anchor, a),
        OfficeStep::Renew => c matches Certificate::UpdateDRep { credential: k, anchor: a } && k == credential
            && anchor_read(anchor, a),
        OfficeStep::Resign => c matches Certificate::CommitteeColdResign { cold_credential, anchor: a }
            && cold_credential == credential && anchor_read(anchor, a),
        OfficeStep::Name(hot) => c == (Certificate::CommitteeHotAuth {
            cold_credential: credential,
            hot_credential: credential_from(hot),
        }),
    }
}

/// A certificate on an office.
pub fn read_office(step: OfficeStep, credential: Credential, anchor: Option<(String, Hash32)>) -> (r: Certificate)
    ensures
        office_read(step, credential, anchor_view(anchor), r),
{
    let anchor: Option<Anchor> = match anchor {
        Some(x) => Some(Anchor { url: x.0, hash: x.1 }),
        None => None,
    };
    match step {
        OfficeStep::Enrol(x) => Certificate::RegDRep { credential, deposit: Lovelace(x), anchor },
        OfficeStep::Renew => Certificate::UpdateDRep { credential, anchor },
        OfficeStep::Resign => Certificate::CommitteeColdResign { cold_credential: credential, anchor },
        OfficeStep::Name(hot) => Certificate::CommitteeHotAuth {
            cold_credential: credential,
            hot_credential: read_credential(hot),
        },
    }
}

/// Whether a certificate on a pool is what stands on the chain. Relays and
/// metadata are left out.
pub open spec fn pool_read(p: PoolPieceModel, c: Certificate) -> bool {
    match p {
        PoolPieceModel::Register { operator, vrf_keyhash, pledge, cost, margin, reward_account, owners } => {
            &&& c matches Certificate::PoolRegistration(q)
            &&& q.operator == operator
            &&& q.vrf_keyhash == vrf_keyhash
            &&& q.pledge == Lovelace(pledge)
            &&& q.cost == Lovelace(cost)
            &&& q.margin == rational_from(margin)
            &&& q.reward_account@ == reward_account
            &&& q.pool_owners@ == owners
            &&& q.relays@.len() == 0
            &&& q.pool_metadata is None
        },
        PoolPieceModel::Retire(pool_hash, epoch) => c == (Certificate::PoolRetirement { pool_hash, epoch }),
    }
}

/// A certificate on a pool.
pub fn read_pool(p: PoolPiece) -> (r: Certificate)
    ensures
        pool_read(pool_view(Some(p))->0, r),
{
    match p {
        PoolPiece::Register { operator, vrf_keyhash, pledge, cost, margin, reward_account, owners } => {
            let relays: Vec<Relay> = Vec::new();
            Certificate::PoolRegistration(
                PoolParams {
                    operator,
                    vrf_keyhash,
                    pledge: Lovelace(pledge),
                    cost: Lovelace(cost),
                    margin: Rational { numerator: margin.0, denominator: margin.1 },
                    reward_account,
                    pool_owners: owners,
                    relays,
                    pool_metadata: None,
                },
            )
        },
        PoolPiece::Retire(pool_hash, epoch) => Certificate::PoolRetirement { pool_hash, epoch },
    }
}

/// What accounts get of instantaneous rewards; a negative amount counts as
/// none.
pub open spec fn moved_to(l: Seq<(ChainCredential, i64)>) -> Seq<(Credential, Lovelace)> {
    Seq::new(
        l.len(),
        |i: int|
            (
                credential_from(l[i].0),
                Lovelace(
                    if l[i].1 < 0 {
                        0
                    } else {
                        l[i].1 as u64
                    },
                ),
            ),
    )
}

pub open spec fn mir_source(treasury: bool) -> MIRSource {
    if treasury {
        MIRSource::Treasury
    } else {
        MIRSource::Reserves
    }
}

/// Whether a certificate of a genesis key or of instantaneous rewards is what
/// stands on the chain.
pub open spec fn legacy_read(l: LegacyModel, c: Certificate) -> bool {
    match l {
        LegacyModel::Genesis(key, delegate, vrf_keyhash) => c == (Certificate::GenesisKeyDelegation {
            genesis_hash: fitted_key(key),
            genesis_delegate_hash: fitted_key(delegate),
            vrf_keyhash,
        }),
        LegacyModel::Accounts(treasury, to) => {
            &&& c matches Certificate::MoveInstantaneousRewardsCert { source, target }
            &&& source == mir_source(treasury)
            &&& target matches MIRTarget::StakeCredentials(paid) && paid@ == moved_to(to)
        },
        LegacyModel::Pot(treasury, x) => c == (Certificate::MoveInstantaneousRewardsCert {
            source: mir_source(treasury),
            target: MIRTarget::OtherPot(Lovelace(x)),
        }),
    }
}

/// A certificate of a genesis key or of instantaneous rewards.
pub fn read_legacy(l: LegacyPiece) -> (r: Certificate)
    ensures
        legacy_read(legacy_view(Some(l))->0, r),
{
    match l {
        LegacyPiece::Genesis(key, delegate, vrf_keyhash) => Certificate::GenesisKeyDelegation {
            genesis_hash: fit_key(&key),
            genesis_delegate_hash: fit_key(&delegate),
            vrf_keyhash,
        },
        LegacyPiece::Accounts(treasury, to) => {
            let mut paid: Vec<(Credential, Lovelace)> = Vec::new();
            let mut i: usize = 0;
            while i < to.len()
                invariant
                    i <= to@.len(),
                    paid@ == moved_to(to@).take(i as int),
                decreases to@.len() - i,
            {
                let amount: u64 = if to[i].1 < 0 {
                    0
                } else {
                    to[i].1 as u64
                };
                paid.push((read_credential(to[i].0), Lovelace(amount)));
                assert(paid@ =~= moved_to(to@).take(i + 1));
                i += 1;
            }
            assert(paid@ =~= moved_to(to@));
            let source = if treasury {
                MIRSource::Treasury
            } else {
                MIRSource::Reserves
            };
            Certificate::MoveInstantaneousRewardsCert { source, target: MIRTarget::StakeCredentials(paid) }
        },
        LegacyPiece::Pot(treasury, x) => {
            let source = if treasury {
                MIRSource::Treasury
            } else {
                MIRSource::Reserves
            };
            Certificate::MoveInstantaneousRewardsCert { source, target: MIRTarget::OtherPot(Lovelace(x)) }
        },
    }
}

/// Whether a certificate of the Shelley to Babbage eras is what its pieces
/// say. Without pieces there is none.
pub open spec fn alonzo_cert_read(
    step: Option<(CertStep, ChainCredential)>,
    pool: Option<PoolPieceModel>,
    legacy: Option<LegacyModel>,
    c: Option<Certificate>,
) -> bool {
    match step {
        Some(x) => c == Some(step_cert(x.0, credential_from(x.1))),
        None => match pool {
            Some(p) => c matches Some(q) && pool_read(p, q),
            None => match legacy {
                Some(l) => c matches Some(q) && legacy_read(l, q),
                None => c is None,
            },
        },
    }
}

/// The pieces of a Conway certificate.
pub struct ConwayPieces {
    pub step: Option<(CertStep, ChainCredential)>,
    pub enrolment: Option<(ChainCredential, Option<Hash28>, Option<u64>)>,
    pub drep: Option<ChainDRep>,
    pub office: Option<(OfficeStep, ChainCredential)>,
    pub anchor: Option<(String, Hash32)>,
    pub pool: Option<PoolPiece>,
}

pub struct ConwayPiecesModel {
    pub step: Option<(CertStep, ChainCredential)>,
    pub enrolment: Option<(ChainCredential, Option<Hash28>, Option<u64>)>,
    pub drep: Option<ChainDRep>,
    pub office: Option<(OfficeStep, ChainCredential)>,
    pub anchor: Option<(Seq<char>, Hash32)>,
    pub pool: Option<PoolPieceModel>,
}

impl ConwayPieces {
    pub open spec fn view(&self) -> ConwayPiecesModel {
        ConwayPiecesModel {
            step: self.step,
            enrolment: self.enrolment,
            drep: self.drep,
            office: self.office,
            anchor: anchor_view(self.anchor),
            pool: pool_view(self.pool),
        }
    }
}

/// The pieces of an encoded Conway certificate.
pub open spec fn conway_pieces_of(b: Seq<u8>) -> ConwayPiecesModel {
    ConwayPiecesModel {
        step: conway_step_of(b),
        enrolment: enrolment_of(b),
        drep: drep_of(b),
        office: office_of(b),
        anchor: anchor_of(b),
        pool: conway_pool_of(b),
    }
}

/// Whether a Conway certificate is what its pieces say.
pub open spec fn conway_cert_read(p: ConwayPiecesModel, c: Option<Certificate>) -> bool {
    match p.step {
        Some(x) => c == Some(step_cert(x.0, credential_from(x.1))),
        None => match p.enrolment {
            Some(x) => c == enrolment_cert(
                credential_from(x.0),
                x.1,
                match p.drep {
                    Some(d) => Some(drep_from(d)),
                    None => None,
                },
                x.2,
            ),
            None => match p.office {
                Some(x) => c matches Some(q) && office_read(x.0, credential_from(x.1), p.anchor, q),
                None => match p.pool {
                    Some(q) => c matches Some(r) && pool_read(q, r),
                    None => c is None,
                },
            },
        },
    }
}

/// Whether a certificate is what an encoding stands for.
pub open spec fn cert_read(conway: bool, b: Option<Seq<u8>>, c: Option<Certificate>) -> bool {
    match b {
        Some(x) => if conway {
            conway_cert_read(conway_pieces_of(x), c)
        } else {
            alonzo_cert_read(alonzo_step_of(x), alonzo_pool_of(x), legacy_of(x), c)
        },
        None => c is None,
    }
}

/// Puts a certificate of the Shelley to Babbage eras together.
pub fn read_alonzo_cert(
    step: Option<(CertStep, ChainCredential)>,
    pool: Option<PoolPiece>,
    legacy: Option<LegacyPiece>,
) -> (r: Option<Certificate>)
    ensures
        alonzo_cert_read(step, pool_view(pool), legacy_view(legacy), r),
{
    match step {
        Some((step, c)) => Some(read_step(step, read_credential(c))),
        None => match pool {
            Some(p) => Some(read_pool(p)),
            None => match legacy {
                Some(l) => Some(read_legacy(l)),
                None => None,
            },
        },
    }
}

/// Puts a Conway certificate together.
pub fn read_conway_cert(p: ConwayPieces) -> (r: Option<Certificate>)
    ensures
        conway_cert_read(p@, r),
{
    if let Some((step, c)) = p.step {
        return Some(read_step(step, read_credential(c)));
    }
    if let Some((c, pool, deposit)) = p.enrolment {
        let drep: Option<DRep> = match p.drep {
            Some(d) => Some(read_drep(d)),
            None => None,
        };
        return read_enrolment(read_credential(c), pool, drep, deposit);
    }
    if let Some((step, c)) = p.office {
        return Some(read_office(step, read_credential(c), p.anchor));
    }
    match p.pool {
        Some(q) => Some(read_pool(q)),
        None => None,
    }
}

fn find_cert(conway: bool, b: &[u8]) -> (r: Option<Certificate>)
    ensures
        cert_read(conway, Some(b@), r),
{
    if conway {
        read_conway_cert(
            ConwayPieces {
                step: conway_step(b),
                enrolment: enrolment(b),
                drep: delegated_drep(b),
                office: office(b),
                anchor: office_anchor(b),
                pool: conway_pool(b),
            },
        )
    } else {
        read_alonzo_cert(alonzo_step(b), alonzo_pool(b), alonzo_legacy(b))
    }
}

/// Whether encodings are certificates, all of them.
pub open spec fn certs_readable(conway: bool, l: Seq<Option<Seq<u8>>>) -> bool {
    forall|i: int| 0 <= i < l.len() ==> !cert_read(conway, #[trigger] l[i], None)
}

/// Whether certificates are what encodings stand for.
pub open spec fn certs_read(conway: bool, l: Seq<Option<Seq<u8>>>, certs: Seq<Certificate>) -> bool {
    &&& certs.len() == l.len()
    &&& forall|i: int| 0 <= i < l.len() ==> cert_read(conway, l[i], Some(#[trigger] certs[i]))
}

pub(crate) fn find_certs(conway: bool, l: &Vec<Option<Vec<u8>>>) -> (r: Option<Vec<Certificate>>)
    ensures
        match r {
            Some(v) => certs_readable(conway, encodings(Some(*l))->0) && certs_read(
                conway,
                encodings(Some(*l))->0,
                v@,
            ),
            None => !certs_readable(conway, encodings(Some(*l))->0),
        },
{
    let ghost s = encodings(Some(*l))->0;
    let mut r: Vec<Certificate> = Vec::new();
    let mut i: usize = 0;
    while i < l.len()
        invariant
            i <= l@.len(),
            s == encodings(Some(*l))->0,
            s.len() == l@.len(),
            r@.len() == i,
            forall|j: int| 0 <= j < i ==> !cert_read(conway, #[trigger] s[j], None),
            forall|j: int| 0 <= j < i ==> cert_read(conway, s[j], Some(#[trigger] r@[j])),
        decreases l@.len() - i,
    {
        let c: Option<Certificate> = match &l[i] {
            Some(b) => find_cert(conway, b.as_slice()),
            None => None,
        };
        assert(cert_read(conway, s[i as int], c));
        match c {
            Some(x) => {
                assert(!cert_read(conway, s[i as int], None));
                r.push(x);
            },
            None => {
                return None;
            },
        }
        i += 1;
    }
    Some(r)
}

// ---- parameters ----

pub open spec fn widened(x: Option<u32>) -> Option<u64> {
    match x {
        Some(v) => Some(v as u64),
        None => None,
    }
}

fn widen(x: Option<u32>) -> (r: Option<u64>)
    ensures
        r == widened(x),
{
    match x {
        Some(v) => Some(v as u64),
        None => None,
    }
}

/// What a genesis delegate proposes.
pub open spec fn update_proposed_by(p: ProposedPiece) -> ProtocolParamUpdate {
    ProtocolParamUpdate {
        min_fee_a: widened(p.sizes.0),
        min_fee_b: widened(p.sizes.1),
        max_block_body_size: widened(p.sizes.2),
        max_transaction_size: widened(p.sizes.3),
        max_block_header_size: widened(p.sizes.4),
        n_opt: widened(p.sizes.5),
        key_deposit: p.amounts.0,
        pool_deposit: p.amounts.1,
        e_max: p.amounts.2,
        min_pool_cost: p.amounts.3,
        a0: share_from(p.shares@[0]),
        rho: share_from(p.shares@[1]),
        tau: share_from(p.shares@[2]),
        decentralization: share_from(p.shares@[3]),
        protocol_version: p.version,
        ..no_update()
    }
}

/// What a genesis delegate proposes.
pub fn read_proposed(p: &ProposedPiece) -> (r: ProtocolParamUpdate)
    ensures
        r == update_proposed_by(*p),
{
    let mut r: ProtocolParamUpdate = ProtocolParamUpdate::default();
    r.min_fee_a = widen(p.sizes.0);
    r.min_fee_b = widen(p.sizes.1);
    r.max_block_body_size = widen(p.sizes.2);
    r.max_transaction_size = widen(p.sizes.3);
    r.max_block_header_size = widen(p.sizes.4);
    r.n_opt = widen(p.sizes.5);
    r.key_deposit = p.amounts.0;
    r.pool_deposit = p.amounts.1;
    r.e_max = p.amounts.2;
    r.min_pool_cost = p.amounts.3;
    r.a0 = read_share(p.shares[0]);
    r.rho = read_share(p.shares[1]);
    r.tau = read_share(p.shares[2]);
    r.decentralization = read_share(p.shares[3]);
    r.protocol_version = p.version;
    r
}

/// Whether an update is what a transaction proposes.
pub open spec fn update_read(piece: Option<(u64, Seq<(Seq<u8>, ProposedPiece)>)>, u: Option<UpdateData>) -> bool {
    match piece {
        Some(x) => {
            &&& u matches Some(y)
            &&& y.epoch == x.0
            &&& y.proposals@.len() == x.1.len()
            &&& forall|i: int|
                0 <= i < x.1.len() ==> (#[trigger] y.proposals@[i]).0@ == x.1[i].0 && y.proposals@[i].1
                    == update_proposed_by(x.1[i].1)
        },
        None => u is None,
    }
}

/// The update that a transaction proposes, whatever its era.
pub open spec fn updates_in(era: u16, tx: Seq<u8>) -> Option<(u64, Seq<(Seq<u8>, ProposedPiece)>)> {
    match alonzo_updates_of(era, tx) {
        Some(x) => Some(x),
        None => babbage_updates_of(era, tx),
    }
}

/// The update that genesis delegates propose for an epoch.
pub fn read_update(epoch: u64, l: Vec<(Vec<u8>, ProposedPiece)>) -> (r: UpdateData)
    ensures
        update_read(updates_view(Some((epoch, l))), Some(r)),
{
    let mut proposals: Vec<(Vec<u8>, ProtocolParamUpdate)> = Vec::new();
    let mut i: usize = 0;
    while i < l.len()
        invariant
            i <= l@.len(),
            proposals@.len() == i,
            forall|j: int|
                0 <= j < i ==> (#[trigger] proposals@[j]).0@ == l@[j].0@ && proposals@[j].1 == update_proposed_by(
                    l@[j].1,
                ),
        decreases l@.len() - i,
    {
        proposals.push((l[i].0.dup(), read_proposed(&l[i].1)));
        i += 1;
    }
    UpdateData { epoch, proposals }
}

fn find_update(era: u16, tx: &[u8]) -> (r: Option<UpdateData>)
    ensures
        update_read(updates_in(era, tx@), r),
{
    if let Some((epoch, l)) = alonzo_updates(era, tx) {
        return Some(read_update(epoch, l));
    }
    match babbage_updates(era, tx) {
        Some((epoch, l)) => Some(read_update(epoch, l)),
        None => None,
    }
}

/// A threshold of a list that may be missing.
pub open spec fn threshold_at<const N: usize>(l: Option<[(u64, u64); N]>, i: int) -> Option<Rational> {
    match l {
        Some(a) => Some(rational_from(a@[i])),
        None => None,
    }
}

fn read_threshold<const N: usize>(l: &Option<[(u64, u64); N]>, i: usize) -> (r: Option<Rational>)
    requires
        i < N,
    ensures
        r == threshold_at(*l, i as int),
{
    match l {
        Some(a) => Some(Rational { numerator: a[i].0, denominator: a[i].1 }),
        None => None,
    }
}

/// What a governance action changes of the parameters.
pub open spec fn update_of_terms(t: TermsPiece, v: ThresholdsPiece) -> ProtocolParamUpdate {
    ProtocolParamUpdate {
        min_fee_a: t.sizes.0,
        min_fee_b: t.sizes.1,
        max_block_body_size: t.sizes.2,
        max_transaction_size: t.sizes.3,
        max_block_header_size: t.sizes.4,
        protocol_version: None,
        key_deposit: t.amounts.0,
        pool_deposit: t.amounts.1,
        min_pool_cost: t.amounts.3,
        rho: share_from(t.shares.1),
        tau: share_from(t.shares.2),
        a0: share_from(t.shares.0),
        n_opt: t.sizes.5,
        e_max: t.amounts.2,
        decentralization: None,
        drep_deposit: t.governance.0,
        drep_activity: t.governance.1,
        gov_action_lifetime: t.governance.2,
        gov_action_deposit: t.governance.3,
        committee_min_size: t.governance.4,
        committee_max_term_length: t.governance.5,
        min_fee_ref_script_cost_per_byte: share_from(t.shares.3),
        dvt_motion_no_confidence: threshold_at(v.dreps, 0),
        dvt_committee_normal: threshold_at(v.dreps, 1),
        dvt_committee_no_confidence: threshold_at(v.dreps, 2),
        dvt_update_to_constitution: threshold_at(v.dreps, 3),
        dvt_hard_fork_initiation: threshold_at(v.dreps, 4),
        dvt_pp_network_group: threshold_at(v.dreps, 5),
        dvt_pp_economic_group: threshold_at(v.dreps, 6),
        dvt_pp_technical_group: threshold_at(v.dreps, 7),
        dvt_pp_gov_group: threshold_at(v.dreps, 8),
        dvt_treasury_withdrawal: threshold_at(v.dreps, 9),
        pvt_motion_no_confidence: threshold_at(v.pools, 0),
        pvt_committee_normal: threshold_at(v.pools, 1),
        pvt_committee_no_confidence: threshold_at(v.pools, 2),
        pvt_hard_fork_initiation: threshold_at(v.pools, 3),
        pvt_pp_security_group: threshold_at(v.pools, 4),
    }
}

/// What a governance action changes of the parameters.
pub fn read_terms(t: &TermsPiece, v: &ThresholdsPiece) -> (r: ProtocolParamUpdate)
    ensures
        r == update_of_terms(*t, *v),
{
    ProtocolParamUpdate {
        min_fee_a: t.sizes.0,
        min_fee_b: t.sizes.1,
        max_block_body_size: t.sizes.2,
        max_transaction_size: t.sizes.3,
        max_block_header_size: t.sizes.4,
        protocol_version: None,
        key_deposit: t.amounts.0,
        pool_deposit: t.amounts.1,
        min_pool_cost: t.amounts.3,
        rho: read_share(t.shares.1),
        tau: read_share(t.shares.2),
        a0: read_share(t.shares.0),
        n_opt: t.sizes.5,
        e_max: t.amounts.2,
        decentralization: None,
        drep_deposit: t.governance.0,
        drep_activity: t.governance.1,
        gov_action_lifetime: t.governance.2,
        gov_action_deposit: t.governance.3,
        committee_min_size: t.governance.4,
        committee_max_term_length: t.governance.5,
        min_fee_ref_script_cost_per_byte: read_share(t.shares.3),
        dvt_motion_no_confidence: read_threshold(&v.dreps, 0),
        dvt_committee_normal: read_threshold(&v.dreps, 1),
        dvt_committee_no_confidence: read_threshold(&v.dreps, 2),
        dvt_update_to_constitution: read_threshold(&v.dreps, 3),
        dvt_hard_fork_initiation: read_threshold(&v.dreps, 4),
        dvt_pp_network_group: read_threshold(&v.dreps, 5),
        dvt_pp_economic_group: read_threshold(&v.dreps, 6),
        dvt_pp_technical_group: read_threshold(&v.dreps, 7),
        dvt_pp_gov_group: read_threshold(&v.dreps, 8),
        dvt_treasury_withdrawal: read_threshold(&v.dreps, 9),
        pvt_motion_no_confidence: read_threshold(&v.pools, 0),
        pvt_committee_normal: read_threshold(&v.pools, 1),
        pvt_committee_no_confidence: read_threshold(&v.pools, 2),
        pvt_hard_fork_initiation: read_threshold(&v.pools, 3),
        pvt_pp_security_group: read_threshold(&v.pools, 4),
    }
}

// ---- governance ----

/// What is paid to accounts; a reward account that is too short gets nothing.
pub open spec fn payments(l: Seq<(Seq<u8>, u64)>) -> Seq<(Credential, Lovelace)>
    decreases l.len(),
{
    if l.len() == 0 {
        Seq::empty()
    } else {
        match account_credential(l.last().0) {
            Some(c) => payments(l.drop_last()).push((c, Lovelace(l.last().1))),
            None => payments(l.drop_last()),
        }
    }
}

/// What is paid to reward accounts.
pub fn read_payments(l: &Vec<(Vec<u8>, u64)>) -> (r: Vec<(Credential, Lovelace)>)
    ensures
        r@ == payments(account_amounts(l@)),
{
    let ghost s = account_amounts(l@);
    let mut r: Vec<(Credential, Lovelace)> = Vec::new();
    let mut i: usize = 0;
    while i < l.len()
        invariant
            i <= l@.len(),
            s == account_amounts(l@),
            r@ == payments(s.take(i as int)),
        decreases l@.len() - i,
    {
        proof {
            assert(s.take(i + 1).drop_last() =~= s.take(i as int));
            assert(s.take(i + 1).last() == s[i as int]);
        }
        if let Some(c) = credential_of_account(l[i].0.as_slice()) {
            r.push((c, Lovelace(l[i].1)));
        }
        i += 1;
    }
    assert(s.take(i as int) =~= s);
    r
}

pub open spec fn credentials_from(l: Seq<ChainCredential>) -> Seq<Credential> {
    Seq::new(l.len(), |i: int| credential_from(l[i]))
}

pub open spec fn terms_from(l: Seq<(ChainCredential, u64)>) -> Seq<(Credential, EpochNo)> {
    Seq::new(l.len(), |i: int| (credential_from(l[i].0), EpochNo(l[i].1)))
}

/// A change of the committee.
pub fn read_committee(c: &CommitteePiece, prev_action_id: Option<GovActionId>) -> (r: GovernanceAction)
    ensures
        r.model() == (ActionModel::UpdateCommittee {
            prev_action_id,
            members_to_remove: credentials_from(c.removed@),
            members_to_add: terms_from(c.added@),
            quorum: rational_from(c.quorum),
        }),
{
    let mut members_to_remove: Vec<Credential> = Vec::new();
    let mut i: usize = 0;
    while i < c.removed.len()
        invariant
            i <= c.removed@.len(),
            members_to_remove@ == credentials_from(c.removed@).take(i as int),
        decreases c.removed@.len() - i,
    {
        members_to_remove.push(read_credential(c.removed[i]));
        assert(members_to_remove@ =~= credentials_from(c.removed@).take(i + 1));
        i += 1;
    }
    assert(members_to_remove@ =~= credentials_from(c.removed@));
    let mut members_to_add: Vec<(Credential, EpochNo)> = Vec::new();
    let mut k: usize = 0;
    while k < c.added.len()
        invariant
            k <= c.added@.len(),
            members_to_add@ == terms_from(c.added@).take(k as int),
        decreases c.added@.len() - k,
    {
        members_to_add.push((read_credential(c.added[k].0), EpochNo(c.added[k].1)));
        assert(members_to_add@ =~= terms_from(c.added@).take(k + 1));
        k += 1;
    }
    assert(members_to_add@ =~= terms_from(c.added@));
    GovernanceAction::UpdateCommittee {
        prev_action_id,
        members_to_remove,
        members_to_add,
        quorum: Rational { numerator: c.quorum.0, denominator: c.quorum.1 },
    }
}

/// The pieces of a governance action.
pub struct ActionPieces {
    pub kind: ActionPiece,
    pub terms: Option<TermsPiece>,
    pub thresholds: Option<ThresholdsPiece>,
    pub committee: Option<CommitteePiece>,
}

pub struct ActionPiecesModel {
    pub kind: ActionPieceModel,
    pub terms: Option<TermsPiece>,
    pub thresholds: Option<ThresholdsPiece>,
    pub committee: Option<CommitteeModel>,
}

impl ActionPieces {
    pub open spec fn view(&self) -> ActionPiecesModel {
        ActionPiecesModel {
            kind: action_view(Some(self.kind))->0,
            terms: self.terms,
            thresholds: self.thresholds,
            committee: committee_view(self.committee),
        }
    }
}

/// The pieces of an encoded governance action, if the bytes are one.
pub open spec fn action_pieces_of(b: Seq<u8>) -> Option<ActionPiecesModel> {
    match action_of(b) {
        Some(kind) => Some(
            ActionPiecesModel {
                kind,
                terms: terms_of(b),
                thresholds: thresholds_of(b),
                committee: committee_of(b),
            },
        ),
        None => None,
    }
}

/// Whether the pieces that an action needs are there.
pub open spec fn action_complete(p: ActionPiecesModel) -> bool {
    match p.kind {
        ActionPieceModel::Parameters => p.terms is Some && p.thresholds is Some,
        ActionPieceModel::Committee => p.committee is Some,
        _ => true,
    }
}

/// Whether bytes are a governance action.
pub open spec fn action_readable(b: Option<Seq<u8>>) -> bool {
    b matches Some(x) && action_pieces_of(x) matches Some(p) && action_complete(p)
}

/// Whether a governance action is what its pieces say.
pub open spec fn action_read(x: ActionPiecesModel, previous: Option<(Hash32, u32)>, a: ActionModel) -> bool {
    let prev_action_id = match previous {
        Some(i) => Some(action_id_from(i)),
        None => None,
    };
    match x.kind {
        ActionPieceModel::Parameters => a == (ActionModel::ParameterChange {
            prev_action_id,
            update: update_of_terms(x.terms->0, x.thresholds->0),
            guardrails_hash: None,
        }),
        ActionPieceModel::HardFork(protocol_version) => a == (ActionModel::HardForkInitiation {
            prev_action_id,
            protocol_version,
        }),
        ActionPieceModel::Treasury(l) => a == (ActionModel::TreasuryWithdrawals {
            withdrawals: payments(l),
            guardrails_hash: None,
        }),
        ActionPieceModel::NoConfidence => a == (ActionModel::NoConfidence { prev_action_id }),
        ActionPieceModel::Committee => {
            let c: CommitteeModel = x.committee->0;
            a == (ActionModel::UpdateCommittee {
                prev_action_id,
                members_to_remove: credentials_from(c.removed),
                members_to_add: terms_from(c.added),
                quorum: rational_from(c.quorum),
            })
        },
        ActionPieceModel::Constitution(url, hash, script) => {
            &&& a matches ActionModel::NewConstitution { prev_action_id: p, constitution }
            &&& p == prev_action_id
            &&& anchor_read(Some((url, hash)), constitution.anchor)
            &&& constitution.script_hash == match script {
                Some(h) => Some(padded_key(h@)),
                None => None,
            }
        },
        ActionPieceModel::Information => a == ActionModel::InfoAction,
    }
}

/// Puts a governance action together. There is none where a piece is missing.
pub fn read_action(p: ActionPieces, previous: Option<(Hash32, u32)>) -> (r: Option<GovernanceAction>)
    ensures
        match r {
            Some(a) => action_complete(p@) && action_read(p@, previous, a.model()),
            None => !action_complete(p@),
        },
{
    let prev_action_id: Option<GovActionId> = match previous {
        Some(i) => Some(GovActionId { tx_hash: i.0, index: i.1 }),
        None => None,
    };
    match p.kind {
        ActionPiece::Parameters => match (p.terms, p.thresholds) {
            (Some(t), Some(v)) => Some(
                GovernanceAction::ParameterChange {
                    prev_action_id,
                    update: read_terms(&t, &v),
                    guardrails_hash: None,
                },
            ),
            _ => None,
        },
        ActionPiece::HardFork(protocol_version) => Some(
            GovernanceAction::HardForkInitiation { prev_action_id, protocol_version },
        ),
        ActionPiece::Treasury(l) => Some(
            GovernanceAction::TreasuryWithdrawals { withdrawals: read_payments(&l), guardrails_hash: None },
        ),
        ActionPiece::NoConfidence => Some(GovernanceAction::NoConfidence { prev_action_id }),
        ActionPiece::Committee => match p.committee {
            Some(c) => Some(read_committee(&c, prev_action_id)),
            None => None,
        },
        ActionPiece::Constitution(url, hash, script) => {
            let script_hash: Option<Hash32> = match script {
                Some(h) => Some(pad_hash(&h)),
                None => None,
            };
            Some(
                GovernanceAction::NewConstitution {
                    prev_action_id,
                    constitution: Constitution { anchor: Some(Anchor { url, hash }), script_hash },
                },
            )
        },
        ActionPiece::Information => Some(GovernanceAction::InfoAction),
    }
}

fn find_action(b: &[u8], previous: Option<(Hash32, u32)>) -> (r: Option<GovernanceAction>)
    ensures
        match r {
            Some(a) => action_readable(Some(b@)) && action_read(action_pieces_of(b@)->0, previous, a.model()),
            None => !action_readable(Some(b@)),
        },
{
    match action_kind(b) {
        Some(kind) => read_action(
            ActionPieces {
                kind,
                terms: changed_terms(b),
                thresholds: changed_thresholds(b),
                committee: committee_change(b),
            },
            previous,
        ),
        None => None,
    }
}

/// Whether a proposal is what stands in a transaction.
pub open spec fn proposal_read(p: ProposalPieceModel, d: ProposalData) -> bool {
    &&& d.reward_account@ == p.reward_account
    &&& d.deposit == p.deposit
    &&& p.action matches Some(b) && action_read(action_pieces_of(b)->0, p.previous, d.action.model())
}

pub open spec fn proposals_readable(l: Seq<ProposalPieceModel>) -> bool {
    forall|i: int| 0 <= i < l.len() ==> action_readable((#[trigger] l[i]).action)
}

fn find_proposals(l: &Vec<ProposalPiece>) -> (r: Option<Vec<ProposalData>>)
    ensures
        match r {
            Some(v) => {
                &&& forall|i: int| 0 <= i < l@.len() ==> action_readable(proposal_view(#[trigger] l@[i]).action)
                &&& v@.len() == l@.len()
                &&& forall|i: int| 0 <= i < l@.len() ==> proposal_read(proposal_view(l@[i]), #[trigger] v@[i])
            },
            None => exists|i: int| 0 <= i < l@.len() && !action_readable(proposal_view(#[trigger] l@[i]).action),
        },
{
    let mut r: Vec<ProposalData> = Vec::new();
    let mut i: usize = 0;
    while i < l.len()
        invariant
            i <= l@.len(),
            r@.len() == i,
            forall|j: int| 0 <= j < i ==> action_readable(proposal_view(#[trigger] l@[j]).action),
            forall|j: int| 0 <= j < i ==> proposal_read(proposal_view(l@[j]), #[trigger] r@[j]),
        decreases l@.len() - i,
    {
        let ghost p = l@[i as int];
        match &l[i].action {
            Some(b) => match find_action(b.as_slice(), l[i].previous) {
                Some(action) => {
                    r.push(
                        ProposalData { reward_account: l[i].reward_account.dup(), deposit: l[i].deposit, action },
                    );
                },
                None => {
                    assert(!action_readable(proposal_view(l@[i as int]).action));
                    return None;
                },
            },
            None => {
                assert(!action_readable(proposal_view(l@[i as int]).action));
                return None;
            },
        }
        i += 1;
    }
    Some(r)
}

/// The votes of one voter.
pub open spec fn votes_by(voter: Voter, l: Seq<((Hash32, u32), Vote)>) -> Seq<(Voter, GovActionId, Vote)> {
    Seq::new(l.len(), |i: int| (voter, action_id_from(l[i].0), l[i].1))
}

/// All votes, voter by voter.
pub open spec fn votes_from(l: Seq<(ChainVoter, Seq<((Hash32, u32), Vote)>)>) -> Seq<(Voter, GovActionId, Vote)>
    decreases l.len(),
{
    if l.len() == 0 {
        Seq::empty()
    } else {
        votes_from(l.drop_last()) + votes_by(voter_from(l.last().0), l.last().1)
    }
}

pub open spec fn votes_in(era: u16, tx: Seq<u8>) -> Seq<(Voter, GovActionId, Vote)> {
    match votes_of(era, tx) {
        Some(l) => votes_from(l),
        None => Seq::empty(),
    }
}

/// All votes, voter by voter.
pub fn read_votes(l: &Vec<(ChainVoter, Vec<((Hash32, u32), Vote)>)>) -> (r: Vec<(Voter, GovActionId, Vote)>)
    ensures
        r@ == votes_from(vote_views(l@)),
{
    let mut r: Vec<(Voter, GovActionId, Vote)> = Vec::new();
    let ghost s = vote_views(l@);
    let mut i: usize = 0;
    while i < l.len()
        invariant
            i <= l@.len(),
            s == vote_views(l@),
            r@ == votes_from(s.take(i as int)),
        decreases l@.len() - i,
    {
        let voter = read_voter(l[i].0);
        let votes: &Vec<((Hash32, u32), Vote)> = &l[i].1;
        let ghost before = r@;
        let ghost all = votes_by(voter, votes@);
        let mut k: usize = 0;
        while k < votes.len()
            invariant
                k <= votes@.len(),
                all == votes_by(voter, votes@),
                r@ == before + all.take(k as int),
            decreases votes@.len() - k,
        {
            r.push((voter, GovActionId { tx_hash: (votes[k].0).0, index: (votes[k].0).1 }, votes[k].1));
            assert(r@ =~= before + all.take(k + 1));
            k += 1;
        }
        proof {
            assert(all.take(k as int) =~= all);
            assert(s.take(i + 1).drop_last() =~= s.take(i as int));
            assert(s.take(i + 1).last() == s[i as int]);
        }
        i += 1;
    }
    assert(s.take(i as int) =~= s);
    r
}

fn find_votes(era: u16, tx: &[u8]) -> (r: Vec<(Voter, GovActionId, Vote)>)
    ensures
        r@ == votes_in(era, tx@),
{
    match tx_votes(era, tx) {
        Some(l) => read_votes(&l),
        None => Vec::new(),
    }
}

// ---- outputs ----

/// The assets of an output as they are stored; one without an amount counts
/// as none.
pub open spec fn assets_from(l: Seq<(Hash28, Seq<u8>, Option<u64>)>) -> Seq<(Seq<u8>, Seq<u8>, u64)> {
    Seq::new(
        l.len(),
        |i: int|
            (
                l[i].0@,
                l[i].1,
                match l[i].2 {
                    Some(x) => x,
                    None => 0u64,
                },
            ),
    )
}

/// The assets of an output.
pub fn read_assets(l: &Vec<(Hash28, Vec<u8>, Option<u64>)>) -> (r: Vec<(Vec<u8>, Vec<u8>, u64)>)
    ensures
        raw_assets(r@) == assets_from(asset_pieces(l@)),
{
    let ghost s = assets_from(asset_pieces(l@));
    let mut r: Vec<(Vec<u8>, Vec<u8>, u64)> = Vec::new();
    assert(raw_assets(r@) =~= s.take(0));
    let mut i: usize = 0;
    while i < l.len()
        invariant
            i <= l@.len(),
            s == assets_from(asset_pieces(l@)),
            r@.len() == i,
            raw_assets(r@) == s.take(i as int),
        decreases l@.len() - i,
    {
        let amount: u64 = match l[i].2 {
            Some(x) => x,
            None => 0,
        };
        let ghost before = r@;
        r.push((vstd::slice::slice_to_vec(l[i].0.as_slice()), l[i].1.dup(), amount));
        proof {
            assert(r@[i as int].0@ =~= l@[i as int].0@);
            assert forall|k: int| 0 <= k < i implies raw_assets(r@)[k] == raw_assets(before)[k] by {}
            assert(raw_assets(before) == s.take(i as int));
            assert(raw_assets(r@) =~= s.take(i + 1));
        }
        i += 1;
    }
    assert(s.take(i as int) =~= s);
    r
}

/// Whether an output is what a transaction makes.
pub open spec fn output_read(
    o: OutputModel,
    assets: Seq<(Hash28, Seq<u8>, Option<u64>)>,
    d: Result<OutputData, String>,
) -> bool {
    match o.address {
        Ok(a) => {
            &&& d matches Ok(x)
            &&& x.index == o.index as u32
            &&& x.address@ == a
            &&& x.amount == o.amount
            &&& raw_assets(x.assets@) == assets_from(assets)
            &&& datum_view(x.datum) == o.datum
        },
        Err(e) => d matches Err(x) && x@ == e,
    }
}

fn dup_datum(d: &DatumData) -> (r: DatumData)
    ensures
        datum_view(r) == datum_view(*d),
{
    match d {
        DatumData::Absent => DatumData::Absent,
        DatumData::Hash(h) => DatumData::Hash(h.dup()),
        DatumData::Inline(b) => DatumData::Inline(b.dup()),
    }
}

/// The outputs that a transaction makes, with their assets.
pub fn read_outputs(l: &Vec<OutputPiece>, assets: &Vec<Vec<(Hash28, Vec<u8>, Option<u64>)>>) -> (r: Vec<
    Result<OutputData, String>,
>)
    requires
        assets@.len() == l@.len(),
    ensures
        r@.len() == l@.len(),
        forall|i: int|
            0 <= i < l@.len() ==> output_read(output_view(l@[i]), asset_pieces(assets@[i]@), #[trigger] r@[i]),
{
    let mut r: Vec<Result<OutputData, String>> = Vec::new();
    let mut i: usize = 0;
    while i < l.len()
        invariant
            i <= l@.len(),
            assets@.len() == l@.len(),
            r@.len() == i,
            forall|j: int|
                0 <= j < i ==> output_read(output_view(l@[j]), asset_pieces(assets@[j]@), #[trigger] r@[j]),
        decreases l@.len() - i,
    {
        match &l[i].address {
            Ok(a) => {
                let index: u32 = #[verifier::truncate]
                (l[i].index as u32);
                r.push(
                    Ok(
                        OutputData {
                            index,
                            address: a.dup(),
                            amount: l[i].amount,
                            assets: read_assets(&assets[i]),
                            datum: dup_datum(&l[i].datum),
                        },
                    ),
                );
            },
            Err(e) => {
                r.push(Err(e.dup()));
            },
        }
        i += 1;
    }
    r
}

// ---- inputs ----

/// The outputs that Byron inputs name. There is nothing where one names none.
pub open spec fn byron_spent(l: Seq<Option<(Hash32, u32)>>) -> Option<Seq<(Hash32, u32)>> {
    if forall|i: int| 0 <= i < l.len() ==> (#[trigger] l[i]) is Some {
        Some(Seq::new(l.len(), |i: int| l[i]->0))
    } else {
        None
    }
}

/// The outputs that later inputs name, by the low 32 bits of their indexes.
pub open spec fn later_spent(l: Seq<(Hash32, u64)>) -> Seq<(Hash32, u32)> {
    Seq::new(l.len(), |i: int| (l[i].0, l[i].1 as u32))
}

/// The outputs that a transaction uses up. There is nothing where an input
/// names none.
pub open spec fn spent_by(era: u16, tx: Seq<u8>) -> Option<Seq<(Hash32, u32)>> {
    if era < 2 {
        match byron_inputs_of(tx) {
            Some(l) => byron_spent(l),
            None => None,
        }
    } else {
        match consumed_of(era, tx) {
            Some(l) => Some(later_spent(l)),
            None => None,
        }
    }
}

/// The outputs that Byron inputs name.
pub fn read_byron_inputs(l: &Vec<Option<(Hash32, u32)>>) -> (r: Option<Vec<(Hash32, u32)>>)
    ensures
        listed(r) == byron_spent(l@),
{
    let mut r: Vec<(Hash32, u32)> = Vec::new();
    let mut i: usize = 0;
    while i < l.len()
        invariant
            i <= l@.len(),
            r@.len() == i,
            forall|j: int| 0 <= j < i ==> (#[trigger] l@[j]) is Some,
            forall|j: int| 0 <= j < i ==> #[trigger] r@[j] == l@[j]->0,
        decreases l@.len() - i,
    {
        match l[i] {
            Some(x) => {
                r.push(x);
            },
            None => {
                assert(l@[i as int] is None);
                return None;
            },
        }
        i += 1;
    }
    assert(r@ =~= Seq::new(l@.len(), |i: int| l@[i]->0));
    Some(r)
}

/// The outputs that later inputs name.
pub fn read_consumed(l: &Vec<(Hash32, u64)>) -> (r: Vec<(Hash32, u32)>)
    ensures
        r@ == later_spent(l@),
{
    let mut r: Vec<(Hash32, u32)> = Vec::new();
    let mut i: usize = 0;
    while i < l.len()
        invariant
            i <= l@.len(),
            r@ == later_spent(l@).take(i as int),
        decreases l@.len() - i,
    {
        let index: u32 = #[verifier::truncate]
        (l[i].1 as u32);
        r.push((l[i].0, index));
        assert(r@ =~= later_spent(l@).take(i + 1));
        i += 1;
    }
    assert(later_spent(l@).take(i as int) =~= later_spent(l@));
    r
}

fn find_spent(era: u16, tx: &[u8]) -> (r: Option<Vec<(Hash32, u32)>>)
    ensures
        listed(r) == spent_by(era, tx@),
{
    if era < 2 {
        match byron_inputs(tx) {
            Some(l) => read_byron_inputs(&l),
            None => None,
        }
    } else {
        match consumed_inputs(era, tx) {
            Some(l) => Some(read_consumed(&l)),
            None => None,
        }
    }
}

// ---- transactions ----

/// The accounts of withdrawals.
pub open spec fn accounts_in(l: Seq<(Seq<u8>, u64)>) -> Seq<Seq<u8>> {
    Seq::new(l.len(), |i: int| l[i].0)
}

fn read_accounts(l: &Vec<(Vec<u8>, u64)>) -> (r: Vec<Vec<u8>>)
    ensures
        byte_lists(r@) == accounts_in(account_amounts(l@)),
{
    let ghost s = accounts_in(account_amounts(l@));
    let mut r: Vec<Vec<u8>> = Vec::new();
    let mut i: usize = 0;
    while i < l.len()
        invariant
            i <= l@.len(),
            s == accounts_in(account_amounts(l@)),
            r@.len() == i,
            forall|j: int| 0 <= j < i ==> (#[trigger] r@[j])@ == s[j],
        decreases l@.len() - i,
    {
        r.push(l[i].0.dup());
        i += 1;
    }
    assert(byte_lists(r@) =~= s);
    r
}

/// Whether all of a transaction decodes.
pub open spec fn tx_readable(era: u16, tx: Seq<u8>) -> bool {
    &&& head_of(era, tx) is Some
    &&& spent_by(era, tx) is Some
    &&& outputs_of(era, tx) is Some
    &&& assets_of(era, tx) matches Some(a) && a.len() == outputs_of(era, tx)->0.len()
    &&& certs_of(era, tx) matches Some(l) && certs_readable((head_of(era, tx)->0).conway, l)
    &&& proposals_of(era, tx) matches Some(l) && proposals_readable(l)
}

/// Whether a transaction is what an encoding stands for.
pub open spec fn tx_read(era: u16, tx: Seq<u8>, t: BlockTx) -> bool {
    let head = head_of(era, tx)->0;
    let outputs = outputs_of(era, tx)->0;
    let assets = assets_of(era, tx)->0;
    let certs = certs_of(era, tx)->0;
    let proposals = proposals_of(era, tx)->0;
    &&& t.data.hash == head.hash
    &&& t.data.valid == head.valid
    &&& t.data.conway == head.conway
    &&& t.data.fee == head.fee
    &&& t.data.total_collateral == head.total_collateral
    &&& t.data.collateral_return == head.collateral_return
    &&& t.data.donation == head.donation
    &&& byte_lists(t.data.withdrawals@) == accounts_in(head.withdrawals)
    &&& certs_read(head.conway, certs, t.data.certs@)
    &&& update_read(updates_in(era, tx), t.data.update)
    &&& t.data.proposals@.len() == proposals.len()
    &&& forall|i: int| 0 <= i < proposals.len() ==> proposal_read(proposals[i], #[trigger] t.data.proposals@[i])
    &&& t.data.votes@ == votes_in(era, tx)
    &&& t.spent@ == spent_by(era, tx)->0
    &&& t.outputs@.len() == outputs.len()
    &&& forall|i: int| 0 <= i < outputs.len() ==> output_read(outputs[i], assets[i], #[trigger] t.outputs@[i])
}

pub(crate) fn undecoded() -> (r: String)
    ensures
        r@ == "Failed to decode transaction"@,
{
    "Failed to decode transaction".to_string()
}

/// Reads a transaction of an era from its encoding. It fails on bytes that do
/// not decode and on an input that names no output.
pub fn parse_transaction(era: u16, tx: &[u8]) -> (r: Result<BlockTx, String>)
    ensures
        match r {
            Ok(t) => tx_readable(era, tx@) && tx_read(era, tx@, t),
            Err(e) => !tx_readable(era, tx@) && e@ == "Failed to decode transaction"@,
        },
{
    let head = match tx_head(era, tx) {
        Some(h) => h,
        None => {
            return Err(undecoded());
        },
    };
    let spent = match find_spent(era, tx) {
        Some(l) => l,
        None => {
            return Err(undecoded());
        },
    };
    let outputs = match produced_outputs(era, tx) {
        Some(l) => l,
        None => {
            return Err(undecoded());
        },
    };
    let assets = match produced_assets(era, tx) {
        Some(l) => l,
        None => {
            return Err(undecoded());
        },
    };
    let ghost models = outputs_of(era, tx@)->0;
    if assets.len() != outputs.len() {
        return Err(undecoded());
    }
    let raw_certs = match certificates(era, tx) {
        Some(l) => l,
        None => {
            return Err(undecoded());
        },
    };
    let certs = match find_certs(head.conway, &raw_certs) {
        Some(l) => l,
        None => {
            return Err(undecoded());
        },
    };
    let raw_proposals = match gov_proposals(era, tx) {
        Some(l) => l,
        None => {
            return Err(undecoded());
        },
    };
    let ghost wanted = proposals_of(era, tx@)->0;
    let proposals = match find_proposals(&raw_proposals) {
        Some(l) => l,
        None => {
            proof {
                let i = choose|i: int|
                    0 <= i < raw_proposals@.len() && !action_readable(proposal_view(#[trigger] raw_proposals@[i]).action);
                assert(!action_readable(wanted[i].action));
            }
            return Err(undecoded());
        },
    };
    assert(proposals_readable(wanted)) by {
        assert forall|i: int| 0 <= i < wanted.len() implies action_readable((#[trigger] wanted[i]).action) by {
            assert(wanted[i] == proposal_view(raw_proposals@[i]));
        }
    }
    let made = read_outputs(&outputs, &assets);
    let data = TxData {
        hash: head.hash,
        valid: head.valid,
        conway: head.conway,
        certs,
        update: find_update(era, tx),
        proposals,
        votes: find_votes(era, tx),
        donation: head.donation,
        withdrawals: read_accounts(&head.withdrawals),
        fee: head.fee,
        total_collateral: head.total_collateral,
        collateral_return: head.collateral_return,
    };
    let t = BlockTx { data, spent, outputs: made };
    proof {
        let all = assets_of(era, tx@)->0;
        assert forall|i: int| 0 <= i < models.len() implies output_read(models[i], all[i], #[trigger] t.outputs@[i]) by {
            assert(models[i] == output_view(outputs@[i]));
            assert(all[i] == asset_pieces(assets@[i]@));
        }
        assert forall|i: int| 0 <= i < wanted.len() implies proposal_read(wanted[i], #[trigger] t.data.proposals@[i]) by {
            assert(wanted[i] == proposal_view(raw_proposals@[i]));
        }
    }
    Ok(t)
}

/// Whether all transactions of a block decode.
pub open spec fn txs_readable(l: Seq<(u16, Seq<u8>)>) -> bool {
    forall|i: int| 0 <= i < l.len() ==> tx_readable((#[trigger] l[i]).0, l[i].1)
}

/// Reads the transactions of a raw block, in their order. It fails on bytes
/// that are no block of any era, with what the decoder says of them, and where
/// one of the transactions does not decode.
pub fn parse_transactions(block_bytes: &[u8]) -> (r: Result<Vec<BlockTx>, String>)
    ensures
        match r {
            Ok(l) => {
                &&& raw_txs(block_bytes@) matches Ok(raw)
                &&& txs_readable(raw)
                &&& l@.len() == raw.len()
                &&& forall|i: int| 0 <= i < raw.len() ==> tx_read(raw[i].0, raw[i].1, #[trigger] l@[i])
            },
            Err(e) => match raw_txs(block_bytes@) {
                Ok(raw) => !txs_readable(raw) && e@ == "Failed to decode transaction"@,
                Err(x) => e@ == x,
            },
        },
{
    let raw = match split_block(block_bytes) {
        Ok(l) => l,
        Err(e) => {
            return Err(e);
        },
    };
    let ghost s = raw_txs(block_bytes@)->Ok_0;
    let mut r: Vec<BlockTx> = Vec::new();
    let mut i: usize = 0;
    while i < raw.len()
        invariant
            i <= raw@.len(),
            raw_txs(block_bytes@) == Ok::<Seq<(u16, Seq<u8>)>, Seq<char>>(s),
            s == Seq::new(raw@.len(), |k: int| (raw@[k].0, raw@[k].1@)),
            r@.len() == i,
            forall|j: int| 0 <= j < i ==> tx_readable((#[trigger] s[j]).0, s[j].1),
            forall|j: int| 0 <= j < i ==> tx_read(s[j].0, s[j].1, #[trigger] r@[j]),
        decreases raw@.len() - i,
    {
        match parse_transaction(raw[i].0, raw[i].1.as_slice()) {
            Ok(t) => {
                r.push(t);
            },
            Err(e) => {
                assert(!tx_readable(s[i as int].0, s[i as int].1));
                return Err(e);
            },
        }
        i += 1;
    }
    Ok(r)
}

} // verus!
