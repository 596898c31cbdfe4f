//! What parameter updates and governance actions do, value by value.

use vstd::prelude::*;
use crate::ledger::enact::{
    deposit_returned, enacted, enacted_all, treasury_left, treasury_paid, updated_params, with_members, without_members,
};
use crate::ledger::primitives::{
    ActionModel, Credential, EpochNo, GovActionId, Hash32, Lovelace, ProtocolParamUpdate, ProtocolParameters,
};
use crate::ledger::state::{
    amount_of, deposit_staking, deposit_total, deposits_of, gov_position, gov_total, refund_amount, with_deposit, without_deposit,
    DepositType, DepositsModel, EnactmentModel, GovernanceModel, LedgerModel,
};

verus! {

// ---- parameters ----

/// A parameter that an update sets has the value that it sets, and one that it
/// does not set stays as it was.
pub proof fn law_param_updates(p: ProtocolParameters, u: ProtocolParamUpdate)
    ensures
        ({
            let q = updated_params(p, u);
            &&& u.min_fee_a matches Some(x) ==> q.min_fee_a == x
            &&& u.min_fee_a is None ==> q.min_fee_a == p.min_fee_a
            &&& u.min_fee_b matches Some(x) ==> q.min_fee_b == x
            &&& u.min_fee_b is None ==> q.min_fee_b == p.min_fee_b
            &&& u.max_block_body_size matches Some(x) ==> q.max_block_body_size == x
            &&& u.max_block_body_size is None ==> q.max_block_body_size == p.max_block_body_size
            &&& u.max_transaction_size matches Some(x) ==> q.max_transaction_size == x
            &&& u.max_transaction_size is None ==> q.max_transaction_size == p.max_transaction_size
            &&& u.max_block_header_size matches Some(x) ==> q.max_block_header_size == x
            &&& u.max_block_header_size is None ==> q.max_block_header_size == p.max_block_header_size
            &&& u.key_deposit matches Some(x) ==> q.key_deposit == x
            &&& u.key_deposit is None ==> q.key_deposit == p.key_deposit
            &&& u.pool_deposit matches Some(x) ==> q.pool_deposit == x
            &&& u.pool_deposit is None ==> q.pool_deposit == p.pool_deposit
            &&& u.min_pool_cost matches Some(x) ==> q.min_pool_cost == x
            &&& u.min_pool_cost is None ==> q.min_pool_cost == p.min_pool_cost
            &&& u.min_pool_cost matches Some(x) ==> q.min_pool_cost_lovelace == x
            &&& u.min_pool_cost is None ==> q.min_pool_cost_lovelace == p.min_pool_cost_lovelace
            &&& u.rho matches Some(x) ==> q.rho == x
            &&& u.rho is None ==> q.rho == p.rho
            &&& u.tau matches Some(x) ==> q.tau == x
            &&& u.tau is None ==> q.tau == p.tau
            &&& u.a0 matches Some(x) ==> q.a0 == x
            &&& u.a0 is None ==> q.a0 == p.a0
            &&& u.n_opt matches Some(x) ==> q.n_opt == x
            &&& u.n_opt is None ==> q.n_opt == p.n_opt
            &&& u.e_max matches Some(x) ==> q.e_max == x
            &&& u.e_max is None ==> q.e_max == p.e_max
            &&& u.drep_deposit matches Some(x) ==> q.drep_deposit == x
            &&& u.drep_deposit is None ==> q.drep_deposit == p.drep_deposit
            &&& u.drep_activity matches Some(x) ==> q.drep_activity_period == x
            &&& u.drep_activity is None ==> q.drep_activity_period == p.drep_activity_period
            &&& u.gov_action_lifetime matches Some(x) ==> q.gov_action_lifetime == x
            &&& u.gov_action_lifetime is None ==> q.gov_action_lifetime == p.gov_action_lifetime
            &&& u.gov_action_deposit matches Some(x) ==> q.gov_action_deposit == x
            &&& u.gov_action_deposit is None ==> q.gov_action_deposit == p.gov_action_deposit
            &&& u.committee_min_size matches Some(x) ==> q.committee_min_size == x
            &&& u.committee_min_size is None ==> q.committee_min_size == p.committee_min_size
            &&& u.committee_max_term_length matches Some(x) ==> q.committee_max_term_length == x
            &&& u.committee_max_term_length is None ==> q.committee_max_term_length == p.committee_max_term_length
            &&& u.dvt_motion_no_confidence matches Some(x) ==> q.dvt_motion_no_confidence == x
            &&& u.dvt_motion_no_confidence is None ==> q.dvt_motion_no_confidence == p.dvt_motion_no_confidence
            &&& u.dvt_committee_normal matches Some(x) ==> q.dvt_committee_normal == x
            &&& u.dvt_committee_normal is None ==> q.dvt_committee_normal == p.dvt_committee_normal
            &&& u.dvt_committee_no_confidence matches Some(x) ==> q.dvt_committee_no_confidence == x
            &&& u.dvt_committee_no_confidence is None ==> q.dvt_committee_no_confidence == p.dvt_committee_no_confidence
            &&& u.dvt_update_to_constitution matches Some(x) ==> q.dvt_constitution == x
            &&& u.dvt_update_to_constitution is None ==> q.dvt_constitution == p.dvt_constitution
            &&& u.dvt_hard_fork_initiation matches Some(x) ==> q.dvt_hard_fork == x
            &&& u.dvt_hard_fork_initiation is None ==> q.dvt_hard_fork == p.dvt_hard_fork
            &&& u.dvt_pp_network_group matches Some(x) ==> q.dvt_pp_network_group == x
            &&& u.dvt_pp_network_group is None ==> q.dvt_pp_network_group == p.dvt_pp_network_group
            &&& u.dvt_pp_economic_group matches Some(x) ==> q.dvt_pp_economic_group == x
            &&& u.dvt_pp_economic_group is None ==> q.dvt_pp_economic_group == p.dvt_pp_economic_group
            &&& u.dvt_pp_technical_group matches Some(x) ==> q.dvt_pp_technical_group == x
            &&& u.dvt_pp_technical_group is None ==> q.dvt_pp_technical_group == p.dvt_pp_technical_group
            &&& u.dvt_pp_gov_group matches Some(x) ==> q.dvt_pp_gov_group == x
            &&& u.dvt_pp_gov_group is None ==> q.dvt_pp_gov_group == p.dvt_pp_gov_group
            &&& u.dvt_treasury_withdrawal matches Some(x) ==> q.dvt_treasury_withdrawal == x
            &&& u.dvt_treasury_withdrawal is None ==> q.dvt_treasury_withdrawal == p.dvt_treasury_withdrawal
            &&& u.pvt_motion_no_confidence matches Some(x) ==> q.pvt_motion_no_confidence == x
            &&& u.pvt_motion_no_confidence is None ==> q.pvt_motion_no_confidence == p.pvt_motion_no_confidence
            &&& u.pvt_committee_normal matches Some(x) ==> q.pvt_committee_normal == x
            &&& u.pvt_committee_normal is None ==> q.pvt_committee_normal == p.pvt_committee_normal
            &&& u.pvt_committee_no_confidence matches Some(x) ==> q.pvt_committee_no_confidence == x
            &&& u.pvt_committee_no_confidence is None ==> q.pvt_committee_no_confidence == p.pvt_committee_no_confidence
            &&& u.pvt_hard_fork_initiation matches Some(x) ==> q.pvt_hard_fork == x
            &&& u.pvt_hard_fork_initiation is None ==> q.pvt_hard_fork == p.pvt_hard_fork
            &&& u.pvt_pp_security_group matches Some(x) ==> q.pvt_pp_security_group == x
            &&& u.pvt_pp_security_group is None ==> q.pvt_pp_security_group == p.pvt_pp_security_group
        }),
{
}

/// The version changes as a whole. A price per byte is rounded down. The
/// decentralization is as the update sets it; else it ends with version 7.
pub proof fn law_version_updates(p: ProtocolParameters, u: ProtocolParamUpdate)
    ensures
        ({
            let q = updated_params(p, u);
            &&& u.protocol_version matches Some(v) ==> q.protocol_version_major == v.0 && q.protocol_version_minor == v.1
            &&& u.protocol_version is None ==> q.protocol_version_major == p.protocol_version_major
                && q.protocol_version_minor == p.protocol_version_minor
            &&& u.decentralization matches Some(d) ==> q.decentralization == d
            &&& u.decentralization is None && (u.protocol_version matches Some(v) && v.0 >= 7) ==> q.decentralization.numerator
                == 0
            &&& u.decentralization is None && !(u.protocol_version matches Some(v) && v.0 >= 7) ==> q.decentralization
                == p.decentralization
            &&& u.min_fee_ref_script_cost_per_byte is None ==> q.min_fee_ref_script_cost_per_byte
                == p.min_fee_ref_script_cost_per_byte
            &&& u.min_fee_ref_script_cost_per_byte matches Some(v) ==> (v.denominator > 0
                ==> q.min_fee_ref_script_cost_per_byte * v.denominator <= v.numerator < (
            q.min_fee_ref_script_cost_per_byte + 1) * v.denominator)
            &&& u.min_fee_ref_script_cost_per_byte matches Some(v) ==> (v.denominator == 0
                ==> q.min_fee_ref_script_cost_per_byte == v.numerator)
        }),
{
    if let Some(v) = u.min_fee_ref_script_cost_per_byte {
        if v.denominator > 0 {
            let (n, d) = (v.numerator as int, v.denominator as int);
            vstd::arithmetic::div_mod::lemma_fundamental_div_mod(n, d);
            vstd::arithmetic::div_mod::lemma_mod_bound(n, d);
            let q = n / d;
            assert(q * d == d * q && (q + 1) * d == d * q + d) by (nonlinear_arith);
        }
    }
}

/// Parameters that no update names stay as they were.
pub proof fn law_params_untouched(p: ProtocolParameters, u: ProtocolParamUpdate)
    ensures
        ({
            let q = updated_params(p, u);
            &&& q.utxo_cost_per_byte == p.utxo_cost_per_byte
            &&& q.price_mem == p.price_mem
            &&& q.price_step == p.price_step
            &&& q.max_tx_execution_units_mem == p.max_tx_execution_units_mem
            &&& q.max_tx_execution_units_steps == p.max_tx_execution_units_steps
            &&& q.max_block_execution_units_mem == p.max_block_execution_units_mem
            &&& q.max_block_execution_units_steps == p.max_block_execution_units_steps
            &&& q.max_value_size == p.max_value_size
            &&& q.collateral_percentage == p.collateral_percentage
            &&& q.max_collateral_inputs == p.max_collateral_inputs
            &&& q.extra_entropy == p.extra_entropy
            &&& q.active_slot_coefficient == p.active_slot_coefficient
            &&& q.dvt_no_confidence == p.dvt_no_confidence
        }),
{
}

// ---- actions ----

/// A parameter change that takes effect changes the parameters by its update;
/// those before it are remembered.
pub proof fn law_parameter_change(s: LedgerModel, a: ActionModel)
    requires
        a is ParameterChange,
    ensures
        ({
            let t = enacted(s, a);
            let (g, h) = (s.governance, t.governance);
            &&& t.protocol_params == updated_params(s.protocol_params, a->ParameterChange_update)
            &&& g.conway_cur_params is None ==> t.prev_protocol_params == Some(s.protocol_params) && h.conway_cur_params is None
            &&& g.conway_cur_params is Some ==> t.prev_protocol_params == g.conway_cur_params && h.conway_cur_params
                == Some(t.protocol_params)
            &&& t == (LedgerModel {
                protocol_params: t.protocol_params,
                prev_protocol_params: t.prev_protocol_params,
                governance: GovernanceModel { conway_cur_params: h.conway_cur_params, ..g },
                ..s
            })
        }),
{
}

/// A hard fork changes the version, and no other parameter.
pub proof fn law_hard_fork(s: LedgerModel, a: ActionModel)
    requires
        a is HardForkInitiation,
    ensures
        ({
            let t = enacted(s, a);
            let v = a->HardForkInitiation_protocol_version;
            let (g, h) = (s.governance, t.governance);
            &&& t.protocol_params.protocol_version_major == v.0
            &&& t.protocol_params.protocol_version_minor == v.1
            &&& t.protocol_params == (ProtocolParameters {
                protocol_version_major: t.protocol_params.protocol_version_major,
                protocol_version_minor: t.protocol_params.protocol_version_minor,
                ..s.protocol_params
            })
            &&& h.conway_cur_params is Some == g.conway_cur_params is Some
            &&& g.conway_cur_params matches Some(c) ==> h.conway_cur_params == Some(
                ProtocolParameters { protocol_version_major: v.0, protocol_version_minor: v.1, ..c },
            )
            &&& t == (LedgerModel {
                protocol_params: t.protocol_params,
                governance: GovernanceModel { conway_cur_params: h.conway_cur_params, ..g },
                ..s
            })
        }),
{
}

/// A motion of no confidence ends the terms of all members.
pub proof fn law_no_confidence(s: LedgerModel, a: ActionModel)
    requires
        a is NoConfidence,
    ensures
        ({
            let t = enacted(s, a);
            let (g, h) = (s.governance, t.governance);
            &&& h.no_confidence
            &&& h.committee_threshold is None
            &&& forall|c: Hash32| !#[trigger] h.committee_expiration.dom().contains(c)
            &&& forall|c: Hash32| !#[trigger] h.committee_hot_keys.dom().contains(c)
            &&& t == (LedgerModel {
                governance: GovernanceModel {
                    committee_hot_keys: h.committee_hot_keys,
                    committee_expiration: h.committee_expiration,
                    committee_threshold: h.committee_threshold,
                    no_confidence: h.no_confidence,
                    ..g
                },
                ..s
            })
        }),
{
}

/// Whether a list names a credential.
pub open spec fn names(l: Seq<Credential>, c: Hash32) -> bool {
    exists|i: int| #![trigger l[i]] 0 <= i < l.len() && l[i].hash() == c
}

/// Whether a list of new members names a credential.
pub open spec fn seats(l: Seq<(Credential, EpochNo)>, c: Hash32) -> bool {
    exists|i: int| #![trigger l[i]] 0 <= i < l.len() && l[i].0.hash() == c
}

/// Whether an entry is the last in a list that names a credential.
pub open spec fn seated_by(l: Seq<(Credential, EpochNo)>, c: Hash32, i: int) -> bool {
    &&& 0 <= i < l.len()
    &&& l[i].0.hash() == c
    &&& forall|j: int| #![trigger l[j]] i < j < l.len() ==> l[j].0.hash() != c
}

proof fn lemma_without_members<V>(m: Map<Hash32, V>, l: Seq<Credential>, c: Hash32)
    ensures
        without_members(m, l).dom().contains(c) == (m.dom().contains(c) && !names(l, c)),
        without_members(m, l).dom().contains(c) ==> without_members(m, l)[c] == m[c],
    decreases l.len(),
{
    if l.len() > 0 {
        let k = l.drop_last();
        lemma_without_members(m, k, c);
        assert(l.last() == l[l.len() - 1]);
        if names(k, c) {
            let i = choose|i: int| #![trigger k[i]] 0 <= i < k.len() && k[i].hash() == c;
            assert(l[i] == k[i]);
        }
        if names(l, c) {
            let i = choose|i: int| #![trigger l[i]] 0 <= i < l.len() && l[i].hash() == c;
            if i < k.len() {
                assert(k[i] == l[i]);
            }
        }
    }
}

proof fn lemma_with_members(m: Map<Hash32, EpochNo>, l: Seq<(Credential, EpochNo)>, c: Hash32)
    ensures
        with_members(m, l).dom().contains(c) == (m.dom().contains(c) || seats(l, c)),
        !seats(l, c) && m.dom().contains(c) ==> with_members(m, l)[c] == m[c],
    decreases l.len(),
{
    if l.len() > 0 {
        let k = l.drop_last();
        lemma_with_members(m, k, c);
        assert(l.last() == l[l.len() - 1]);
        if seats(k, c) {
            let i = choose|i: int| #![trigger k[i]] 0 <= i < k.len() && k[i].0.hash() == c;
            assert(l[i] == k[i]);
        }
        if seats(l, c) {
            let i = choose|i: int| #![trigger l[i]] 0 <= i < l.len() && l[i].0.hash() == c;
            if i < k.len() {
                assert(k[i] == l[i]);
            }
        }
    }
}

proof fn lemma_seat_term(m: Map<Hash32, EpochNo>, l: Seq<(Credential, EpochNo)>, c: Hash32, i: int)
    requires
        seated_by(l, c, i),
    ensures
        with_members(m, l)[c] == l[i].1,
    decreases l.len(),
{
    if i < l.len() - 1 {
        let k = l.drop_last();
        assert(l[l.len() - 1].0.hash() != c);
        assert forall|j: int| #![trigger k[j]] i < j < k.len() implies k[j].0.hash() != c by {
            assert(k[j] == l[j]);
        }
        lemma_seat_term(m, k, c, i);
    }
}

/// A committee update takes the listed members out with their hot keys and
/// resignations, seats the new ones for their terms, sets the quorum, and ends
/// a state of no confidence. All other members stay.
pub proof fn law_committee_update(s: LedgerModel, a: ActionModel, c: Hash32, i: int)
    requires
        a is UpdateCommittee,
    ensures
        ({
            let t = enacted(s, a);
            let (g, h) = (s.governance, t.governance);
            let gone = a->UpdateCommittee_members_to_remove;
            let new = a->UpdateCommittee_members_to_add;
            &&& h.committee_expiration.dom().contains(c) == (seats(new, c) || (g.committee_expiration.dom().contains(c)
                && !names(gone, c)))
            &&& h.committee_expiration.dom().contains(c) && !seats(new, c) ==> h.committee_expiration[c]
                == g.committee_expiration[c]
            &&& seated_by(new, c, i) ==> h.committee_expiration[c] == new[i].1
            &&& h.committee_hot_keys.dom().contains(c) == (g.committee_hot_keys.dom().contains(c) && !names(gone, c))
            &&& h.committee_hot_keys.dom().contains(c) ==> h.committee_hot_keys[c] == g.committee_hot_keys[c]
            &&& h.committee_resigned.dom().contains(c) == (g.committee_resigned.dom().contains(c) && !names(gone, c))
            &&& h.committee_resigned.dom().contains(c) ==> h.committee_resigned[c] == g.committee_resigned[c]
            &&& h.committee_threshold == Some(a->UpdateCommittee_quorum)
            &&& !h.no_confidence
            &&& t == (LedgerModel {
                governance: GovernanceModel {
                    committee_hot_keys: h.committee_hot_keys,
                    committee_expiration: h.committee_expiration,
                    committee_resigned: h.committee_resigned,
                    committee_threshold: h.committee_threshold,
                    no_confidence: h.no_confidence,
                    ..g
                },
                ..s
            })
        }),
{
    let g = s.governance;
    let gone = a->UpdateCommittee_members_to_remove;
    let new = a->UpdateCommittee_members_to_add;
    lemma_without_members(g.committee_expiration, gone, c);
    lemma_without_members(g.committee_hot_keys, gone, c);
    lemma_without_members(g.committee_resigned, gone, c);
    lemma_with_members(without_members(g.committee_expiration, gone), new, c);
    if seated_by(new, c, i) {
        lemma_seat_term(without_members(g.committee_expiration, gone), new, c, i);
    }
}

/// A new constitution replaces the old one; an info action changes nothing.
pub proof fn law_constitution(s: LedgerModel, a: ActionModel)
    ensures
        a is InfoAction ==> enacted(s, a) == s,
        a is NewConstitution ==> enacted(s, a).governance.constitution == Some(a->NewConstitution_constitution)
            && enacted(s, a) == (LedgerModel {
            governance: GovernanceModel { constitution: enacted(s, a).governance.constitution, ..s.governance },
            ..s
        }),
{
}

/// One more withdrawal takes what it asks for from what the others left in the
/// treasury, or all of that where it is less, and gives it to its account. The
/// other accounts stay as they were.
pub proof fn law_withdrawal_pays(
    accounts: Map<Hash32, Lovelace>,
    treasury: u64,
    w: Seq<(Credential, Lovelace)>,
    x: (Credential, Lovelace),
    other: Hash32,
)
    ensures
        ({
            let left = treasury_left(treasury, w);
            let amount = if x.1.0 <= left { x.1.0 } else { left };
            let before = treasury_paid(accounts, treasury, w);
            let after = treasury_paid(accounts, treasury, w.push(x));
            let c = x.0.hash();
            &&& treasury_left(treasury, w.push(x)) == left - amount
            &&& amount > 0 && before.dom().contains(c) && before[c].0 + amount <= u64::MAX ==> after.dom().contains(c)
                && after[c].0 == before[c].0 + amount
            &&& amount > 0 && !before.dom().contains(c) ==> after.dom().contains(c) && after[c].0 == amount
            &&& amount == 0 ==> after == before
            &&& other != c ==> after.dom().contains(other) == before.dom().contains(other) && after[other]
                == before[other]
            &&& treasury_left(treasury, Seq::empty()) == treasury
            &&& treasury_paid(accounts, treasury, Seq::empty()) == accounts
        }),
{
    assert(w.push(x).drop_last() =~= w);
}

/// Withdrawals that take effect change the treasury and the accounts, and
/// nothing else.
pub proof fn law_withdrawals_enacted(s: LedgerModel, a: ActionModel)
    requires
        a is TreasuryWithdrawals,
    ensures
        ({
            let t = enacted(s, a);
            let w = a->TreasuryWithdrawals_withdrawals;
            &&& t.treasury.0 == treasury_left(s.treasury.0, w)
            &&& t.reward_accounts == treasury_paid(s.reward_accounts, s.treasury.0, w)
            &&& t == (LedgerModel { treasury: t.treasury, reward_accounts: t.reward_accounts, ..s })
        }),
{
}

/// The deposit of a proposal goes to the account that it names, and is not
/// tracked any more; other accounts and other deposits stay.
pub proof fn law_deposit_goes_back(s: LedgerModel, id: GovActionId, cred: Hash32, deposit: Lovelace, other: Hash32)
    requires
        deposit.0 > 0,
        s.reward_accounts.dom().contains(cred),
        s.reward_accounts[cred].0 + deposit.0 <= u64::MAX,
        other != cred,
    ensures
        ({
            let t = deposit_returned(s, id, cred, deposit);
            &&& t.reward_accounts.dom().contains(cred)
            &&& t.reward_accounts[cred].0 == s.reward_accounts[cred].0 + deposit.0
            &&& t.reward_accounts.dom().contains(other) == s.reward_accounts.dom().contains(other)
            &&& t.reward_accounts[other] == s.reward_accounts[other]
            &&& deposits_of(t.deposits, other) == deposits_of(s.deposits, other)
            &&& deposits_of(t.deposits, cred).pool == deposits_of(s.deposits, cred).pool
            &&& deposits_of(t.deposits, cred).stake == deposits_of(s.deposits, cred).stake
            &&& deposits_of(t.deposits, cred).drep == deposits_of(s.deposits, cred).drep
            &&& gov_position(deposits_of(s.deposits, cred).governance, id) is Some ==> deposits_of(
                t.deposits,
                cred,
            ).governance.len() == deposits_of(s.deposits, cred).governance.len() - 1
            &&& t == (LedgerModel { reward_accounts: t.reward_accounts, deposits: t.deposits, ..s })
        }),
{
    crate::ledger::state::lemma_gov_position_range(deposits_of(s.deposits, cred).governance, id);
}

/// Nothing is paid where nothing was deposited. An account that is not there
/// is opened with the deposit.
pub proof fn law_deposit_edges(s: LedgerModel, id: GovActionId, cred: Hash32, deposit: Lovelace)
    ensures
        deposit.0 == 0 ==> deposit_returned(s, id, cred, deposit) == s,
        deposit.0 > 0 && !s.reward_accounts.dom().contains(cred) ==> deposit_returned(
            s,
            id,
            cred,
            deposit,
        ).reward_accounts.dom().contains(cred) && deposit_returned(s, id, cred, deposit).reward_accounts[cred]
            == deposit,
{
}

/// Ratified actions take effect one after the other, each with its deposit
/// given back.
pub proof fn law_enacted_in_turn(s: LedgerModel, l: Seq<EnactmentModel>, e: EnactmentModel)
    ensures
        enacted_all(s, Seq::empty()) == s,
        enacted_all(s, l.push(e)) == deposit_returned(
            enacted(enacted_all(s, l), e.gov_action),
            e.action_id,
            e.return_cred_hash,
            e.deposit,
        ),
{
    assert(l.push(e).drop_last() =~= l);
}

// ---- deposits ----

/// A deposit is on record under its credential and its kind; deposits of other
/// kinds and of other credentials stay. A refund takes just that one off.
pub proof fn law_deposit_kinds(m: Map<Hash32, DepositsModel>, c: Hash32, kind: DepositType, x: Lovelace, other: Hash32)
    ensures
        ({
            let (a, b) = (deposits_of(m, c), deposits_of(with_deposit(m, c, kind, x), c));
            let r = deposits_of(without_deposit(m, c, kind), c);
            &&& kind is Pool ==> b.pool == Some(x) && r.pool is None
            &&& kind is Stake ==> b.stake == Some(x) && r.stake is None
            &&& kind is DRep ==> b.drep == Some(x) && r.drep is None
            &&& kind matches DepositType::Governance(id) ==> b.governance == a.governance.push((id, x))
            &&& !(kind is Pool) ==> b.pool == a.pool && r.pool == a.pool
            &&& !(kind is Stake) ==> b.stake == a.stake && r.stake == a.stake
            &&& !(kind is DRep) ==> b.drep == a.drep && r.drep == a.drep
            &&& !(kind is Governance) ==> b.governance == a.governance && r.governance == a.governance
            &&& kind is Pool ==> refund_amount(m, c, kind) == a.pool
            &&& kind is Stake ==> refund_amount(m, c, kind) == a.stake
            &&& kind is DRep ==> refund_amount(m, c, kind) == a.drep
            &&& other != c ==> deposits_of(with_deposit(m, c, kind, x), other) == deposits_of(m, other)
            &&& other != c ==> deposits_of(without_deposit(m, c, kind), other) == deposits_of(m, other)
        }),
{
}

/// What a credential has deposited: for its pool, its stake key and as a
/// representative, and for its proposals. Only the first two count for block
/// production.
pub proof fn law_deposit_sums(d: DepositsModel, id: GovActionId, x: Lovelace)
    ensures
        deposit_total(d) == amount_of(d.pool) + amount_of(d.stake) + amount_of(d.drep) + gov_total(d.governance),
        deposit_staking(d) == amount_of(d.pool) + amount_of(d.stake),
        amount_of(None) == 0,
        amount_of(Some(x)) == x.0,
        gov_total(Seq::empty()) == 0,
        gov_total(d.governance.push((id, x))) == gov_total(d.governance) + x.0,
{
    assert(d.governance.push((id, x)).drop_last() =~= d.governance);
}

/// A refund of a proposal's deposit gives the first amount that is on record
/// for it, and takes that entry off.
pub proof fn law_proposal_refund(m: Map<Hash32, DepositsModel>, c: Hash32, id: GovActionId, i: int)
    requires
        m.dom().contains(c),
        0 <= i < m[c].governance.len(),
        m[c].governance[i].0 == id,
        forall|j: int| #![trigger m[c].governance[j]] 0 <= j < i ==> m[c].governance[j].0 != id,
    ensures
        refund_amount(m, c, DepositType::Governance(id)) == Some(m[c].governance[i].1),
        deposits_of(without_deposit(m, c, DepositType::Governance(id)), c).governance == m[c].governance.remove(i),
{
    lemma_first_position(m[c].governance, id, i);
}

proof fn lemma_first_position(s: Seq<(GovActionId, Lovelace)>, id: GovActionId, i: int)
    requires
        0 <= i < s.len(),
        s[i].0 == id,
        forall|j: int| #![trigger s[j]] 0 <= j < i ==> s[j].0 != id,
    ensures
        gov_position(s, id) == Some(i),
    decreases s.len(),
{
    let t = s.drop_last();
    if i < t.len() {
        assert(t[i] == s[i]);
        assert forall|j: int| #![trigger t[j]] 0 <= j < i implies t[j].0 != id by {
            assert(t[j] == s[j]);
        }
        lemma_first_position(t, id, i);
    } else {
        crate::ledger::state::lemma_gov_position_range(t, id);
        if let Some(k) = gov_position(t, id) {
            assert(t[k] == s[k]);
        }
    }
}

/// A credential that is not on record has deposited nothing.
pub proof fn law_deposits_on_record(m: Map<Hash32, DepositsModel>, c: Hash32)
    ensures
        m.dom().contains(c) ==> deposits_of(m, c) == m[c],
        !m.dom().contains(c) ==> deposit_total(deposits_of(m, c)) == 0 && deposits_of(m, c).pool is None && deposits_of(
            m,
            c,
        ).stake is None && deposits_of(m, c).drep is None && deposits_of(m, c).governance.len() == 0,
{
}

} // verus!
