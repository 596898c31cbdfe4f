//! Governance actions in words.

use vstd::prelude::*;
use crate::item::Item;
use crate::ledger::changes::{ratio_chars, ratio_text, version_chars, version_text};
use crate::ledger::eras::{era_chars, era_name};
use crate::ledger::primitives::{
    ActionModel, Credential, GovernanceAction, Lovelace, ProtocolParamUpdate, ProtocolParameters, Rational,
};
use crate::text::{decimal, decimal_chars, starts_with};

verus! {

/// A list of changes with one more; commas set them apart.
#[verifier::opaque]
pub open spec fn joined(t: Seq<char>, change: Seq<char>) -> Seq<char> {
    if t.len() == 0 {
        change
    } else {
        t + ", "@ + change
    }
}

fn join(t: &mut String, change: &String)
    ensures
        final(t)@ == joined(old(t)@, change@),
{
    proof {
        reveal(joined);
    }
    let ghost before = t@;
    if t.as_str().unicode_len() > 0 {
        t.append(", ");
    }
    t.append(change.as_str());
    assert(t@ =~= joined(before, change@));
}

/// A name, a value and its new value.
pub open spec fn change_chars(name: Seq<char>, current: Seq<char>, new: Seq<char>) -> Seq<char> {
    name + ": "@ + current + "→"@ + new
}

fn change_text(name: &str, current: &String, new: &String) -> (r: String)
    ensures
        r@ == change_chars(name@, current@, new@),
{
    let mut r = name.to_string();
    r.append(": ");
    r.append(current.as_str());
    r.append("→");
    r.append(new.as_str());
    r
}

pub open spec fn number_listed(t: Seq<char>, name: Seq<char>, current: u64, new: Option<u64>) -> Seq<char> {
    match new {
        Some(v) => if v != current {
            joined(t, change_chars(name, decimal_chars(current as nat), decimal_chars(v as nat)))
        } else {
            t
        },
        None => t,
    }
}

fn list_number(t: &mut String, name: &str, current: u64, new: Option<u64>)
    ensures
        final(t)@ == number_listed(old(t)@, name@, current, new),
{
    if let Some(v) = new {
        if v != current {
            join(t, &change_text(name, &decimal(current), &decimal(v)));
        }
    }
}

pub open spec fn ratio_listed(t: Seq<char>, name: Seq<char>, current: Rational, new: Option<Rational>) -> Seq<char> {
    match new {
        Some(v) => if v != current {
            joined(t, change_chars(name, ratio_chars(current), ratio_chars(v)))
        } else {
            t
        },
        None => t,
    }
}

fn list_ratio(t: &mut String, name: &str, current: Rational, new: Option<Rational>)
    ensures
        final(t)@ == ratio_listed(old(t)@, name@, current, new),
{
    if let Some(v) = new {
        if v != current {
            join(t, &change_text(name, &ratio_text(current), &ratio_text(v)));
        }
    }
}

/// Fees, pools and deposits.
#[verifier::opaque]
pub open spec fn economic_listed(t: Seq<char>, p: ProtocolParameters, u: ProtocolParamUpdate) -> Seq<char> {
    let t = number_listed(t, "minFeeA"@, p.min_fee_a, u.min_fee_a);
    let t = number_listed(t, "minFeeB"@, p.min_fee_b, u.min_fee_b);
    let t = number_listed(t, "nOpt"@, p.n_opt, u.n_opt);
    let t = number_listed(t, "keyDeposit"@, p.key_deposit, u.key_deposit);
    let t = number_listed(t, "poolDeposit"@, p.pool_deposit, u.pool_deposit);
    let t = number_listed(t, "eMax"@, p.e_max, u.e_max);
    let t = number_listed(t, "minPoolCost"@, p.min_pool_cost, u.min_pool_cost);
    let t = ratio_listed(t, "rho"@, p.rho, u.rho);
    let t = ratio_listed(t, "tau"@, p.tau, u.tau);
    let t = ratio_listed(t, "a0"@, p.a0, u.a0);
    t
}

fn list_economic(t: &mut String, p: &ProtocolParameters, u: &ProtocolParamUpdate)
    ensures
        final(t)@ == economic_listed(old(t)@, *p, *u),
{
    proof {
        reveal(economic_listed);
    }
    list_number(t, "minFeeA", p.min_fee_a, u.min_fee_a);
    list_number(t, "minFeeB", p.min_fee_b, u.min_fee_b);
    list_number(t, "nOpt", p.n_opt, u.n_opt);
    list_number(t, "keyDeposit", p.key_deposit, u.key_deposit);
    list_number(t, "poolDeposit", p.pool_deposit, u.pool_deposit);
    list_number(t, "eMax", p.e_max, u.e_max);
    list_number(t, "minPoolCost", p.min_pool_cost, u.min_pool_cost);
    list_ratio(t, "rho", p.rho, u.rho);
    list_ratio(t, "tau", p.tau, u.tau);
    list_ratio(t, "a0", p.a0, u.a0);
}

/// Governance parameters.
#[verifier::opaque]
pub open spec fn governance_listed(t: Seq<char>, p: ProtocolParameters, u: ProtocolParamUpdate) -> Seq<char> {
    let t = number_listed(t, "drepDeposit"@, p.drep_deposit, u.drep_deposit);
    let t = number_listed(t, "drepActivity"@, p.drep_activity_period, u.drep_activity);
    let t = number_listed(t, "govActionLifetime"@, p.gov_action_lifetime, u.gov_action_lifetime);
    let t = number_listed(t, "govActionDeposit"@, p.gov_action_deposit, u.gov_action_deposit);
    let t = number_listed(t, "committeeMinSize"@, p.committee_min_size, u.committee_min_size);
    let t = number_listed(t, "committeeMaxTermLength"@, p.committee_max_term_length, u.committee_max_term_length);
    t
}

fn list_governance(t: &mut String, p: &ProtocolParameters, u: &ProtocolParamUpdate)
    ensures
        final(t)@ == governance_listed(old(t)@, *p, *u),
{
    proof {
        reveal(governance_listed);
    }
    list_number(t, "drepDeposit", p.drep_deposit, u.drep_deposit);
    list_number(t, "drepActivity", p.drep_activity_period, u.drep_activity);
    list_number(t, "govActionLifetime", p.gov_action_lifetime, u.gov_action_lifetime);
    list_number(t, "govActionDeposit", p.gov_action_deposit, u.gov_action_deposit);
    list_number(t, "committeeMinSize", p.committee_min_size, u.committee_min_size);
    list_number(t, "committeeMaxTermLength", p.committee_max_term_length, u.committee_max_term_length);
}

pub open spec fn version_listed(t: Seq<char>, p: ProtocolParameters, u: ProtocolParamUpdate) -> Seq<char> {
    let current = (p.protocol_version_major, p.protocol_version_minor);
    match u.protocol_version {
        Some(v) => if v != current {
            joined(t, "protocolVersion: v"@ + version_chars(current) + "→v"@ + version_chars(v))
        } else {
            t
        },
        None => t,
    }
}

fn list_version(t: &mut String, p: &ProtocolParameters, u: &ProtocolParamUpdate)
    ensures
        final(t)@ == version_listed(old(t)@, *p, *u),
{
    if let Some(v) = u.protocol_version {
        let current: (u64, u64) = (p.protocol_version_major, p.protocol_version_minor);
        if v.0 != current.0 || v.1 != current.1 {
            let mut c = "protocolVersion: v".to_string();
            c.append(version_text(current).as_str());
            c.append("→v");
            c.append(version_text(v).as_str());
            join(t, &c);
        }
    }
}

/// One, where a threshold changes.
pub open spec fn moved(current: Rational, new: Option<Rational>) -> nat {
    match new {
        Some(v) => if v != current {
            1
        } else {
            0
        },
        None => 0,
    }
}

fn moves(current: Rational, new: Option<Rational>) -> (r: u64)
    ensures
        r == moved(current, new),
        r <= 1,
{
    match new {
        Some(v) => if v != current {
            1
        } else {
            0
        },
        None => 0,
    }
}

/// How many voting thresholds change.
pub open spec fn thresholds_moved(p: ProtocolParameters, u: ProtocolParamUpdate) -> nat {
    moved(p.dvt_motion_no_confidence, u.dvt_motion_no_confidence)
        + moved(p.dvt_committee_normal, u.dvt_committee_normal)
        + moved(p.dvt_committee_no_confidence, u.dvt_committee_no_confidence)
        + moved(p.dvt_hard_fork, u.dvt_hard_fork_initiation)
        + moved(p.dvt_pp_network_group, u.dvt_pp_network_group)
        + moved(p.dvt_pp_economic_group, u.dvt_pp_economic_group)
        + moved(p.dvt_pp_technical_group, u.dvt_pp_technical_group)
        + moved(p.dvt_pp_gov_group, u.dvt_pp_gov_group)
        + moved(p.dvt_treasury_withdrawal, u.dvt_treasury_withdrawal)
        + moved(p.pvt_motion_no_confidence, u.pvt_motion_no_confidence)
        + moved(p.pvt_committee_normal, u.pvt_committee_normal)
        + moved(p.pvt_committee_no_confidence, u.pvt_committee_no_confidence)
        + moved(p.pvt_hard_fork, u.pvt_hard_fork_initiation)
        + moved(p.pvt_pp_security_group, u.pvt_pp_security_group)
}

fn count_thresholds(p: &ProtocolParameters, u: &ProtocolParamUpdate) -> (r: u64)
    ensures
        r == thresholds_moved(*p, *u),
{
    moves(p.dvt_motion_no_confidence, u.dvt_motion_no_confidence)
        + moves(p.dvt_committee_normal, u.dvt_committee_normal)
        + moves(p.dvt_committee_no_confidence, u.dvt_committee_no_confidence)
        + moves(p.dvt_hard_fork, u.dvt_hard_fork_initiation)
        + moves(p.dvt_pp_network_group, u.dvt_pp_network_group)
        + moves(p.dvt_pp_economic_group, u.dvt_pp_economic_group)
        + moves(p.dvt_pp_technical_group, u.dvt_pp_technical_group)
        + moves(p.dvt_pp_gov_group, u.dvt_pp_gov_group)
        + moves(p.dvt_treasury_withdrawal, u.dvt_treasury_withdrawal)
        + moves(p.pvt_motion_no_confidence, u.pvt_motion_no_confidence)
        + moves(p.pvt_committee_normal, u.pvt_committee_normal)
        + moves(p.pvt_committee_no_confidence, u.pvt_committee_no_confidence)
        + moves(p.pvt_hard_fork, u.pvt_hard_fork_initiation)
        + moves(p.pvt_pp_security_group, u.pvt_pp_security_group)
}

/// All changes of an update.
pub open spec fn update_listed(p: ProtocolParameters, u: ProtocolParamUpdate) -> Seq<char> {
    let t = version_listed(governance_listed(economic_listed(Seq::empty(), p, u), p, u), p, u);
    if thresholds_moved(p, u) > 0 {
        joined(t, decimal_chars(thresholds_moved(p, u)) + " voting threshold(s)"@)
    } else {
        t
    }
}

fn list_update(p: &ProtocolParameters, u: &ProtocolParamUpdate) -> (r: String)
    ensures
        r@ == update_listed(*p, *u),
{
    let mut t = String::new();
    assert(t@ =~= Seq::empty());
    list_economic(&mut t, p, u);
    list_governance(&mut t, p, u);
    list_version(&mut t, p, u);
    let n: u64 = count_thresholds(p, u);
    if n > 0 {
        let mut c = decimal(n);
        c.append(" voting threshold(s)");
        join(&mut t, &c);
    }
    t
}

pub open spec fn withdrawal_sum(l: Seq<(Credential, Lovelace)>) -> nat
    decreases l.len(),
{
    if l.len() == 0 {
        0
    } else {
        withdrawal_sum(l.drop_last()) + l.last().1.0 as nat
    }
}

proof fn lemma_withdrawal_prefix(l: Seq<(Credential, Lovelace)>, i: int)
    requires
        0 <= i <= l.len(),
    ensures
        withdrawal_sum(l.take(i)) <= withdrawal_sum(l),
    decreases l.len() - i,
{
    if i == l.len() {
        assert(l.take(i) =~= l);
    } else {
        assert(l.take(i + 1).drop_last() =~= l.take(i));
        lemma_withdrawal_prefix(l, i + 1);
    }
}

fn sum_withdrawals(withdrawals: &Vec<(Credential, Lovelace)>) -> (r: u64)
    requires
        withdrawal_sum(withdrawals@) <= u64::MAX,
    ensures
        r == withdrawal_sum(withdrawals@),
{
    let ghost l = withdrawals@;
    let mut total: u64 = 0;
    let mut i: usize = 0;
    while i < withdrawals.len()
        invariant
            i <= withdrawals.len(),
            l == withdrawals@,
            withdrawal_sum(l) <= u64::MAX,
            total == withdrawal_sum(l.take(i as int)),
        decreases withdrawals.len() - i,
    {
        proof {
            assert(l.take(i + 1).drop_last() =~= l.take(i as int));
            lemma_withdrawal_prefix(l, i + 1);
        }
        total += withdrawals[i].1.0;
        i += 1;
    }
    assert(l.take(i as int) =~= l);
    total
}

/// A governance action in words, seen from the current parameters.
pub open spec fn action_chars(a: ActionModel, p: ProtocolParameters) -> Seq<char> {
    match a {
        ActionModel::HardForkInitiation { protocol_version, .. } => {
            let from = era_chars(p.protocol_version_major);
            let to = era_chars(protocol_version.0);
            if from != to {
                "HardFork "@ + from + "→"@ + to
            } else {
                "HardFork "@ + from + " v"@ + version_chars((p.protocol_version_major, p.protocol_version_minor))
                    + "→v"@ + version_chars(protocol_version)
            }
        },
        ActionModel::ParameterChange { update, .. } => if update_listed(p, update).len() == 0 {
            "ParameterChange (no fields changed)"@
        } else {
            "ParameterChange: "@ + update_listed(p, update)
        },
        ActionModel::TreasuryWithdrawals { withdrawals, .. } => "TreasuryWithdrawals ("@ + decimal_chars(
            withdrawals.len(),
        ) + " recipients, "@ + decimal_chars(withdrawal_sum(withdrawals) / 1_000_000) + " ADA)"@,
        ActionModel::NoConfidence { .. } => "NoConfidence"@,
        ActionModel::UpdateCommittee { members_to_add, members_to_remove, .. } => "UpdateCommittee (+"@
            + decimal_chars(members_to_add.len()) + " -"@ + decimal_chars(members_to_remove.len()) + " members)"@,
        ActionModel::NewConstitution { .. } => "NewConstitution"@,
        ActionModel::InfoAction => "InfoAction"@,
    }
}

fn same_text(a: &str, b: &str) -> (r: bool)
    ensures
        r == (a@ == b@),
{
    let n: usize = a.unicode_len();
    let k: usize = b.unicode_len();
    assert(a@.take(n as int) =~= a@);
    n == k && starts_with(a, b)
}

/// A governance action in words.
pub fn describe_gov_action(action: &GovernanceAction, params: &ProtocolParameters) -> (r: String)
    requires
        action.model() matches ActionModel::TreasuryWithdrawals { withdrawals, .. } ==> withdrawal_sum(withdrawals)
            <= u64::MAX,
    ensures
        r@ == action_chars(action.model(), *params),
{
    match action {
        GovernanceAction::HardForkInitiation { protocol_version, .. } => {
            let from = era_name(params.protocol_version_major);
            let to = era_name(protocol_version.0);
            let mut r = "HardFork ".to_string();
            r.append(from);
            if same_text(from, to) {
                r.append(" v");
                r.append(version_text((params.protocol_version_major, params.protocol_version_minor)).as_str());
                r.append("→v");
                r.append(version_text(*protocol_version).as_str());
            } else {
                r.append("→");
                r.append(to);
            }
            r
        },
        GovernanceAction::ParameterChange { update, .. } => {
            let changes = list_update(params, update);
            if changes.as_str().unicode_len() == 0 {
                "ParameterChange (no fields changed)".to_string()
            } else {
                let mut r = "ParameterChange: ".to_string();
                r.append(changes.as_str());
                r
            }
        },
        GovernanceAction::TreasuryWithdrawals { withdrawals, .. } => {
            let total: u64 = sum_withdrawals(withdrawals);
            let mut r = "TreasuryWithdrawals (".to_string();
            r.append(decimal(withdrawals.len() as u64).as_str());
            r.append(" recipients, ");
            r.append(decimal(total / 1_000_000).as_str());
            r.append(" ADA)");
            r
        },
        GovernanceAction::NoConfidence { .. } => "NoConfidence".to_string(),
        GovernanceAction::UpdateCommittee { members_to_add, members_to_remove, .. } => {
            let mut r = "UpdateCommittee (+".to_string();
            r.append(decimal(members_to_add.len() as u64).as_str());
            r.append(" -");
            r.append(decimal(members_to_remove.len() as u64).as_str());
            r.append(" members)");
            r
        },
        GovernanceAction::NewConstitution { .. } => "NewConstitution".to_string(),
        GovernanceAction::InfoAction => "InfoAction".to_string(),
    }
}

} // verus!
