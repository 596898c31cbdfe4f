//! What the pieces of a transaction stand for.

use vstd::prelude::*;
use crate::ledger::primitives::{
    padded, padded_key, ActionModel, Certificate, Credential, DRep, GovActionId, Hash28, Hash32, Lovelace, MIRTarget,
    Rational, Vote, Voter,
};
use crate::ledger::registry::{arrival, departure, drep_choice, pool_choice};
use crate::node::block::{account_credential, UpdateData};
use crate::node::pieces::{
    alonzo_pool_of, alonzo_step_of, anchor_of, assets_of, byron_inputs_of, byte_lists, certs_of, consumed_of, conway_pool_of,
    conway_step_of, drep_of, enrolment_of, head_of, legacy_of, office_of, outputs_of, proposals_of, votes_of, ActionPieceModel,
    CertStep, ChainCredential, ChainDRep, ChainVoter, LegacyModel, OfficeStep, PoolPieceModel, ProposedPiece,
    TermsPiece, ThresholdsPiece,
};
use crate::node::registry::price;
use crate::ledger::state::LedgerModel;
use crate::node::txs::{
    action_read, assets_from, byron_spent, cert_read, credential_from, credentials_from, drep_from, enrolment_cert,
    later_spent, legacy_read, office_read, payments, pool_read, step_cert, terms_from, update_of_terms, update_proposed_by,
    voter_from, votes_by, votes_from, tx_read, tx_readable, update_read, ActionPiecesModel, BlockTx,
};

verus! {

/// 28 bytes with four zeros behind them.
pub open spec fn padding(h: Hash32, bytes: Seq<u8>) -> bool {
    h@ == bytes + Seq::new(4, |i: int| 0u8)
}

proof fn lemma_padding(h: Hash32, b: Hash28)
    requires
        padding(h, b@),
    ensures
        padded_key(b@) == h,
{
    assert(h@ =~= padded(b@));
    let k = padded_key(b@);
    assert(k@ == padded(b@));
    assert(k =~= h);
}

/// Credentials, representatives and voters keep their kinds, and their hashes
/// are padded; a pool keeps its hash.
pub proof fn law_names_read(b: Hash28, h: Hash32)
    requires
        padding(h, b@),
    ensures
        credential_from(ChainCredential::Key(b)) == Credential::Key(h),
        credential_from(ChainCredential::Script(b)) == Credential::Script(h),
        drep_from(ChainDRep::Key(b)) == DRep::KeyHash(h),
        drep_from(ChainDRep::Script(b)) == DRep::ScriptHash(h),
        drep_from(ChainDRep::Abstain) == DRep::AlwaysAbstain,
        drep_from(ChainDRep::NoConfidence) == DRep::AlwaysNoConfidence,
        voter_from(ChainVoter::CommitteeKey(b)) == Voter::ConstitutionalCommittee(Credential::Key(h)),
        voter_from(ChainVoter::CommitteeScript(b)) == Voter::ConstitutionalCommittee(Credential::Script(h)),
        voter_from(ChainVoter::RepKey(b)) == Voter::DRep(Credential::Key(h)),
        voter_from(ChainVoter::RepScript(b)) == Voter::DRep(Credential::Script(h)),
        voter_from(ChainVoter::Pool(b)) == Voter::StakePool(b),
{
    lemma_padding(h, b);
}

/// A certificate names the pool and the representative that stand on the chain,
/// and registers its credential where a deposit stands there, for that deposit.
pub proof fn law_enrolment_read(
    s: LedgerModel,
    credential: Credential,
    pool: Option<Hash28>,
    drep: Option<DRep>,
    deposit: Option<u64>,
)
    ensures
        enrolment_cert(credential, pool, drep, deposit) is None == (drep is None && deposit is None),
        enrolment_cert(credential, pool, drep, deposit) matches Some(c) ==> {
            &&& pool is None ==> pool_choice(c) is None
            &&& pool matches Some(p) ==> pool_choice(c) == Some((credential.hash(), p))
            &&& drep is None ==> drep_choice(c) is None
            &&& drep matches Some(d) ==> drep_choice(c) == Some((credential.hash(), d))
            &&& deposit is None ==> arrival(c) is None
            &&& deposit matches Some(x) ==> arrival(c) == Some(credential) && price(s, c) == Lovelace(x)
            &&& departure(c) is None
        },
{
}

/// A certificate of one credential registers it, deregisters it or names its
/// pool, as stands on the chain.
pub proof fn law_step_read(step: CertStep, credential: Credential)
    ensures
        step is Open ==> arrival(step_cert(step, credential)) == Some(credential) && pool_choice(
            step_cert(step, credential),
        ) is None,
        step is Close || step is CloseFor ==> departure(step_cert(step, credential)) == Some(credential),
        step matches CertStep::Delegate(p) ==> pool_choice(step_cert(step, credential)) == Some((credential.hash(), p))
            && arrival(step_cert(step, credential)) is None,
        step matches CertStep::Leave(x) ==> step_cert(step, credential) == (Certificate::UnregDRep {
            credential,
            refund: Lovelace(x),
        }),
{
}

/// A certificate on an office is the one that stands on the chain, with its
/// deposit and its anchor.
pub proof fn law_office_read(step: OfficeStep, credential: Credential, anchor: Option<(Seq<char>, Hash32)>, c: Certificate)
    requires
        office_read(step, credential, anchor, c),
    ensures
        step matches OfficeStep::Enrol(x) ==> (c matches Certificate::RegDRep { credential: k, deposit, anchor: a } && k
            == credential && deposit.0 == x && a is Some == anchor is Some && (a matches Some(y) ==> y.url@ == (
        anchor->0).0 && y.hash == (anchor->0).1)),
        step is Renew ==> (c matches Certificate::UpdateDRep { credential: k, anchor: a } && k == credential && a is Some
            == anchor is Some && (a matches Some(y) ==> y.url@ == (anchor->0).0 && y.hash == (anchor->0).1)),
        step is Resign ==> (c matches Certificate::CommitteeColdResign { cold_credential, .. } && cold_credential
            == credential),
        step matches OfficeStep::Name(hot) ==> (c matches Certificate::CommitteeHotAuth { cold_credential, hot_credential }
            && cold_credential == credential && hot_credential == credential_from(hot)),
{
}

/// A pool registers with what stands on the chain, and retires at the epoch
/// that stands there.
pub proof fn law_pool_read(p: PoolPieceModel, c: Certificate)
    requires
        pool_read(p, c),
    ensures
        p matches PoolPieceModel::Register { operator, vrf_keyhash, pledge, cost, margin, reward_account, owners } ==> (
        c matches Certificate::PoolRegistration(q) && q.operator == operator && q.vrf_keyhash == vrf_keyhash
            && q.pledge.0 == pledge && q.cost.0 == cost && q.margin.numerator == margin.0 && q.margin.denominator
            == margin.1 && q.reward_account@ == reward_account && q.pool_owners@ == owners),
        p matches PoolPieceModel::Retire(pool, e) ==> (c matches Certificate::PoolRetirement { pool_hash, epoch }
            && pool_hash == pool && epoch == e),
{
}

/// Instantaneous rewards come from the pot that stands on the chain, and go to
/// the credentials that stand there; an amount below zero counts as none.
pub proof fn law_legacy_read(l: LegacyModel, c: Certificate, i: int)
    requires
        legacy_read(l, c),
    ensures
        l matches LegacyModel::Pot(treasury, x) ==> (c matches Certificate::MoveInstantaneousRewardsCert { source, target }
            && source is Treasury == treasury && target == MIRTarget::OtherPot(Lovelace(x))),
        l matches LegacyModel::Accounts(treasury, to) ==> (c matches Certificate::MoveInstantaneousRewardsCert {
            source,
            target,
        } && source is Treasury == treasury && (target matches MIRTarget::StakeCredentials(v) && v@.len() == to.len() && (0
            <= i < to.len() ==> v@[i].0 == credential_from(to[i].0) && v@[i].1.0 == (if to[i].1 < 0 {
            0
        } else {
            to[i].1 as int
        })))),
        l is Genesis ==> c is GenesisKeyDelegation,
{
}

/// What is paid from the treasury goes to the accounts that are proper ones,
/// in their order.
pub proof fn law_payments(l: Seq<(Seq<u8>, u64)>, x: (Seq<u8>, u64))
    ensures
        payments(Seq::empty()).len() == 0,
        account_credential(x.0) is None ==> payments(l.push(x)) == payments(l),
        account_credential(x.0) matches Some(c) ==> payments(l.push(x)) == payments(l).push((c, Lovelace(x.1))),
{
    assert(l.push(x).drop_last() =~= l);
}

/// The votes of a transaction, voter by voter: each names its action and says
/// what stands on the chain.
pub proof fn law_votes_read(
    l: Seq<(ChainVoter, Seq<((Hash32, u32), Vote)>)>,
    x: (ChainVoter, Seq<((Hash32, u32), Vote)>),
    i: int,
)
    requires
        0 <= i < x.1.len(),
    ensures
        ({
            let (m, n) = (votes_from(l), votes_from(l.push(x)));
            &&& votes_from(Seq::empty()).len() == 0
            &&& n.len() == m.len() + x.1.len()
            &&& n.take(m.len() as int) == m
            &&& n[m.len() + i].0 == voter_from(x.0)
            &&& n[m.len() + i].1.tx_hash == (x.1[i].0).0
            &&& n[m.len() + i].1.index == (x.1[i].0).1
            &&& n[m.len() + i].2 == x.1[i].1
        }),
{
    assert(l.push(x).drop_last() =~= l);
    let (m, n) = (votes_from(l), votes_from(l.push(x)));
    assert(n == m + votes_by(voter_from(x.0), x.1));
    assert(n.take(m.len() as int) =~= m);
}

/// Inputs name the outputs that they spend, in their order.
pub proof fn law_inputs_read(l: Seq<(Hash32, u64)>, b: Seq<Option<(Hash32, u32)>>, i: int)
    ensures
        later_spent(l).len() == l.len(),
        0 <= i < l.len() && l[i].1 <= u32::MAX ==> later_spent(l)[i].0 == l[i].0 && later_spent(l)[i].1 == l[i].1,
        0 <= i < b.len() && b[i] is None ==> byron_spent(b) is None,
        byron_spent(b) matches Some(s) ==> s.len() == b.len() && (0 <= i < b.len() ==> b[i] == Some(s[i])),
{
}

/// A share of the chain as a fraction.
pub open spec fn as_share(x: Option<(u64, u64)>, r: Option<Rational>) -> bool {
    &&& x is Some == r is Some
    &&& x matches Some(v) ==> (r matches Some(q) && q.numerator == v.0 && q.denominator == v.1)
}

/// A number of the chain in more bits.
pub open spec fn as_number(x: Option<u32>, r: Option<u64>) -> bool {
    &&& x is Some == r is Some
    &&& x matches Some(v) ==> (r matches Some(q) && q == v)
}

/// A genesis delegate proposes the parameters that stand on the chain, and no
/// others.
pub proof fn law_proposed_update(p: ProposedPiece)
    ensures
        ({
            let u = update_proposed_by(p);
            &&& as_number(p.sizes.0, u.min_fee_a)
            &&& as_number(p.sizes.1, u.min_fee_b)
            &&& as_number(p.sizes.2, u.max_block_body_size)
            &&& as_number(p.sizes.3, u.max_transaction_size)
            &&& as_number(p.sizes.4, u.max_block_header_size)
            &&& as_number(p.sizes.5, u.n_opt)
            &&& u.key_deposit == p.amounts.0
            &&& u.pool_deposit == p.amounts.1
            &&& u.e_max == p.amounts.2
            &&& u.min_pool_cost == p.amounts.3
            &&& as_share(p.shares@[0], u.a0)
            &&& as_share(p.shares@[1], u.rho)
            &&& as_share(p.shares@[2], u.tau)
            &&& as_share(p.shares@[3], u.decentralization)
            &&& u.protocol_version == p.version
            &&& u.drep_deposit is None && u.drep_activity is None && u.gov_action_deposit is None
                && u.gov_action_lifetime is None && u.committee_min_size is None && u.committee_max_term_length is None
                && u.min_fee_ref_script_cost_per_byte is None
            &&& u.dvt_motion_no_confidence is None && u.dvt_committee_normal is None && u.dvt_committee_no_confidence is None
                && u.dvt_update_to_constitution is None && u.dvt_hard_fork_initiation is None && u.dvt_pp_network_group is None
                && u.dvt_pp_economic_group is None && u.dvt_pp_technical_group is None && u.dvt_pp_gov_group is None
                && u.dvt_treasury_withdrawal is None
            &&& u.pvt_motion_no_confidence is None && u.pvt_committee_normal is None && u.pvt_committee_no_confidence is None
                && u.pvt_hard_fork_initiation is None && u.pvt_pp_security_group is None
        }),
{
}

/// A governance action changes the parameters that stand on the chain: the
/// voting thresholds by their place in the lists.
pub proof fn law_action_update(t: TermsPiece, v: ThresholdsPiece)
    ensures
        ({
            let u = update_of_terms(t, v);
            let d = |i: int| match v.dreps {
                Some(a) => Some(a@[i]),
                None => None,
            };
            let p = |i: int| match v.pools {
                Some(a) => Some(a@[i]),
                None => None,
            };
            &&& u.min_fee_a == t.sizes.0
            &&& u.min_fee_b == t.sizes.1
            &&& u.max_block_body_size == t.sizes.2
            &&& u.max_transaction_size == t.sizes.3
            &&& u.max_block_header_size == t.sizes.4
            &&& u.n_opt == t.sizes.5
            &&& u.key_deposit == t.amounts.0
            &&& u.pool_deposit == t.amounts.1
            &&& u.e_max == t.amounts.2
            &&& u.min_pool_cost == t.amounts.3
            &&& u.drep_deposit == t.governance.0
            &&& u.drep_activity == t.governance.1
            &&& u.gov_action_lifetime == t.governance.2
            &&& u.gov_action_deposit == t.governance.3
            &&& u.committee_min_size == t.governance.4
            &&& u.committee_max_term_length == t.governance.5
            &&& as_share(t.shares.0, u.a0)
            &&& as_share(t.shares.1, u.rho)
            &&& as_share(t.shares.2, u.tau)
            &&& as_share(t.shares.3, u.min_fee_ref_script_cost_per_byte)
            &&& u.protocol_version is None && u.decentralization is None
            &&& as_share(d(0), u.dvt_motion_no_confidence)
            &&& as_share(d(1), u.dvt_committee_normal)
            &&& as_share(d(2), u.dvt_committee_no_confidence)
            &&& as_share(d(3), u.dvt_update_to_constitution)
            &&& as_share(d(4), u.dvt_hard_fork_initiation)
            &&& as_share(d(5), u.dvt_pp_network_group)
            &&& as_share(d(6), u.dvt_pp_economic_group)
            &&& as_share(d(7), u.dvt_pp_technical_group)
            &&& as_share(d(8), u.dvt_pp_gov_group)
            &&& as_share(d(9), u.dvt_treasury_withdrawal)
            &&& as_share(p(0), u.pvt_motion_no_confidence)
            &&& as_share(p(1), u.pvt_committee_normal)
            &&& as_share(p(2), u.pvt_committee_no_confidence)
            &&& as_share(p(3), u.pvt_hard_fork_initiation)
            &&& as_share(p(4), u.pvt_pp_security_group)
        }),
{
}

/// A governance action is of the kind that stands on the chain, follows on the
/// action that it names, and asks for what stands there.
pub proof fn law_action_read(x: ActionPiecesModel, previous: Option<(Hash32, u32)>, a: ActionModel)
    requires
        action_read(x, previous, a),
    ensures
        ({
            let after = |p: Option<GovActionId>| p is Some == previous is Some && (previous matches Some(i) ==> (
            p matches Some(q) && q.tx_hash == i.0 && q.index == i.1));
            &&& x.kind is Parameters ==> (a matches ActionModel::ParameterChange { prev_action_id, update, .. } && after(
                prev_action_id,
            ) && update == update_of_terms(x.terms->0, x.thresholds->0))
            &&& x.kind matches ActionPieceModel::HardFork(v) ==> (a matches ActionModel::HardForkInitiation {
                prev_action_id,
                protocol_version,
            } && after(prev_action_id) && protocol_version == v)
            &&& x.kind matches ActionPieceModel::Treasury(l) ==> (a matches ActionModel::TreasuryWithdrawals {
                withdrawals,
                ..
            } && withdrawals == payments(l))
            &&& x.kind is NoConfidence ==> (a matches ActionModel::NoConfidence { prev_action_id } && after(
                prev_action_id,
            ))
            &&& x.kind is Committee ==> (a matches ActionModel::UpdateCommittee {
                prev_action_id,
                members_to_remove,
                members_to_add,
                quorum,
            } && after(prev_action_id) && members_to_remove == credentials_from((x.committee->0).removed)
                && members_to_add == terms_from((x.committee->0).added) && quorum.numerator == (x.committee->0).quorum.0
                && quorum.denominator == (x.committee->0).quorum.1)
            &&& x.kind is Constitution ==> (a matches ActionModel::NewConstitution { prev_action_id, .. } && after(
                prev_action_id,
            ))
            &&& x.kind is Information ==> a is InfoAction
        }),
{
}

/// Members of the committee are named in their order, new ones with the epochs
/// in which their terms end.
pub proof fn law_members_read(gone: Seq<ChainCredential>, new: Seq<(ChainCredential, u64)>, i: int)
    ensures
        credentials_from(gone).len() == gone.len(),
        terms_from(new).len() == new.len(),
        0 <= i < gone.len() ==> credentials_from(gone)[i] == credential_from(gone[i]),
        0 <= i < new.len() ==> terms_from(new)[i].0 == credential_from(new[i].0) && terms_from(new)[i].1.0 == new[i].1,
{
}

/// A transaction has the hash, the fee, the collateral and the donation that
/// its encoding says, spends the inputs that stand there and makes the outputs.
pub proof fn law_transaction_read(era: u16, tx: Seq<u8>, t: BlockTx, i: int)
    requires
        tx_readable(era, tx),
        tx_read(era, tx, t),
    ensures
        ({
            let h = head_of(era, tx)->0;
            let d = t.data;
            &&& d.hash == h.hash
            &&& d.valid == h.valid
            &&& d.conway == h.conway
            &&& d.fee == h.fee
            &&& d.total_collateral == h.total_collateral
            &&& d.collateral_return == h.collateral_return
            &&& d.donation == h.donation
            &&& d.withdrawals@.len() == h.withdrawals.len()
            &&& 0 <= i < h.withdrawals.len() ==> d.withdrawals@[i]@ == h.withdrawals[i].0
            &&& d.certs@.len() == (certs_of(era, tx)->0).len()
            &&& d.proposals@.len() == (proposals_of(era, tx)->0).len()
            &&& 0 <= i < (proposals_of(era, tx)->0).len() ==> d.proposals@[i].deposit == (proposals_of(era, tx)->0)[i].deposit
                && d.proposals@[i].reward_account@ == (proposals_of(era, tx)->0)[i].reward_account
            &&& votes_of(era, tx) is None ==> d.votes@.len() == 0
            &&& votes_of(era, tx) matches Some(l) ==> d.votes@ == votes_from(l)
            &&& t.outputs@.len() == (outputs_of(era, tx)->0).len()
            &&& 0 <= i < t.outputs@.len() ==> (t.outputs@[i] matches Ok(o) ==> o.amount == (outputs_of(era, tx)->0)[i].amount
                && (outputs_of(era, tx)->0)[i].address == Ok::<Seq<u8>, Seq<char>>(o.address@))
            &&& era < 2 ==> (byron_inputs_of(tx) matches Some(l) && byron_spent(l) == Some(t.spent@))
            &&& era >= 2 ==> (consumed_of(era, tx) matches Some(l) && t.spent@ == later_spent(l))
        }),
{
    let h = head_of(era, tx)->0;
    if 0 <= i < h.withdrawals.len() {
        assert(byte_lists(t.data.withdrawals@)[i] == crate::node::txs::accounts_in(h.withdrawals)[i]);
    }
    assert(byte_lists(t.data.withdrawals@).len() == h.withdrawals.len());
    if 0 <= i < (proposals_of(era, tx)->0).len() {
        let p = t.data.proposals@[i];
        assert(crate::node::txs::proposal_read((proposals_of(era, tx)->0)[i], p));
    }
    if 0 <= i < t.outputs@.len() {
        let o = t.outputs@[i];
        assert(crate::node::txs::output_read((outputs_of(era, tx)->0)[i], (assets_of(era, tx)->0)[i], o));
    }
}

/// A transaction can be read where each of its parts can.
pub proof fn law_transaction_readable(era: u16, tx: Seq<u8>)
    ensures
        tx_readable(era, tx) ==> head_of(era, tx) is Some && outputs_of(era, tx) is Some && certs_of(era, tx) is Some
            && proposals_of(era, tx) is Some,
        head_of(era, tx) is None ==> !tx_readable(era, tx),
        era >= 2 && consumed_of(era, tx) is None ==> !tx_readable(era, tx),
{
}

/// A certificate is read by the pieces of its era: Conway certificates by their
/// own, earlier ones by theirs.
pub proof fn law_certificate_read(b: Seq<u8>, c: Certificate)
    ensures
        cert_read(true, Some(b), Some(c)) ==> ({
            &&& conway_step_of(b) matches Some(x) ==> c == step_cert(x.0, credential_from(x.1))
            &&& conway_step_of(b) is None ==> (enrolment_of(b) matches Some(x) ==> enrolment_cert(
                credential_from(x.0),
                x.1,
                match drep_of(b) {
                    Some(d) => Some(drep_from(d)),
                    None => None,
                },
                x.2,
            ) == Some(c))
            &&& conway_step_of(b) is None && enrolment_of(b) is None ==> (office_of(b) matches Some(x) ==> office_read(
                x.0,
                credential_from(x.1),
                anchor_of(b),
                c,
            ))
            &&& conway_step_of(b) is None && enrolment_of(b) is None && office_of(b) is None ==> (conway_pool_of(
                b,
            ) matches Some(p) && pool_read(p, c))
        }),
        cert_read(false, Some(b), Some(c)) ==> ({
            &&& alonzo_step_of(b) matches Some(x) ==> c == step_cert(x.0, credential_from(x.1))
            &&& alonzo_step_of(b) is None ==> (alonzo_pool_of(b) matches Some(p) ==> pool_read(p, c))
            &&& alonzo_step_of(b) is None && alonzo_pool_of(b) is None ==> (legacy_of(b) matches Some(l) && legacy_read(
                l,
                c,
            ))
        }),
        !cert_read(true, None, Some(c)),
        !cert_read(false, None, Some(c)),
{
}

/// Proposed updates are for the epoch that stands on the chain, and each is
/// that of its delegate.
pub proof fn law_update_read(piece: (u64, Seq<(Seq<u8>, ProposedPiece)>), u: UpdateData, i: int)
    requires
        update_read(Some(piece), Some(u)),
    ensures
        u.epoch == piece.0,
        u.proposals@.len() == piece.1.len(),
        0 <= i < piece.1.len() ==> u.proposals@[i].0@ == piece.1[i].0 && u.proposals@[i].1 == update_proposed_by(
            piece.1[i].1,
        ),
        !update_read(Some(piece), None),
{
    if 0 <= i < piece.1.len() {
        let x = u.proposals@[i];
    }
}

/// The assets of an output keep their policies and names; one without an
/// amount counts as none.
pub proof fn law_assets_read(l: Seq<(Hash28, Seq<u8>, Option<u64>)>, i: int)
    ensures
        assets_from(l).len() == l.len(),
        0 <= i < l.len() ==> assets_from(l)[i].0 == l[i].0@ && assets_from(l)[i].1 == l[i].1 && assets_from(l)[i].2 == (
        if l[i].2 is Some {
            l[i].2->0
        } else {
            0
        }),
{
}

} // verus!
