//! Parameter updates in words.

use vstd::prelude::*;
use crate::ledger::primitives::{ProtocolParamUpdate, ProtocolParameters, Rational};
use crate::text::{decimal, decimal_chars};

verus! {

/// One change: the name of the parameter, its value and the new one. A comma
/// sets it apart from what stands before it.
#[verifier::opaque]
pub open spec fn change(t: Seq<char>, name: Seq<char>, old_value: Seq<char>, new_value: Seq<char>) -> Seq<char> {
    (if t.len() == 0 {
        t
    } else {
        t + ", "@
    }) + name + ": "@ + old_value + " -> "@ + new_value
}

fn note(t: &mut String, name: &str, old_value: &String, new_value: &String)
    ensures
        final(t)@ == change(old(t)@, name@, old_value@, new_value@),
{
    proof {
        reveal(change);
    }
    if t.as_str().unicode_len() > 0 {
        t.append(", ");
    }
    t.append(name);
    t.append(": ");
    t.append(old_value.as_str());
    t.append(" -> ");
    t.append(new_value.as_str());
}

pub open spec fn ratio_chars(r: Rational) -> Seq<char> {
    decimal_chars(r.numerator as nat) + "/"@ + decimal_chars(r.denominator as nat)
}

pub fn ratio_text(r: Rational) -> (t: String)
    ensures
        t@ == ratio_chars(r),
{
    let mut t = decimal(r.numerator);
    t.append("/");
    t.append(decimal(r.denominator).as_str());
    t
}

pub open spec fn version_chars(v: (u64, u64)) -> Seq<char> {
    decimal_chars(v.0 as nat) + "."@ + decimal_chars(v.1 as nat)
}

pub fn version_text(v: (u64, u64)) -> (t: String)
    ensures
        t@ == version_chars(v),
{
    let mut t = decimal(v.0);
    t.append(".");
    t.append(decimal(v.1).as_str());
    t
}

pub open spec fn number_change(t: Seq<char>, name: Seq<char>, current: u64, new: Option<u64>) -> Seq<char> {
    match new {
        Some(v) => change(t, name, decimal_chars(current as nat), decimal_chars(v as nat)),
        None => t,
    }
}

fn note_number(t: &mut String, name: &str, current: u64, new: Option<u64>)
    ensures
        final(t)@ == number_change(old(t)@, name@, current, new),
{
    if let Some(v) = new {
        note(t, name, &decimal(current), &decimal(v));
    }
}

pub open spec fn ratio_change(t: Seq<char>, name: Seq<char>, current: Rational, new: Option<Rational>) -> Seq<char> {
    match new {
        Some(v) => change(t, name, ratio_chars(current), ratio_chars(v)),
        None => t,
    }
}

fn note_ratio(t: &mut String, name: &str, current: Rational, new: Option<Rational>)
    ensures
        final(t)@ == ratio_change(old(t)@, name@, current, new),
{
    if let Some(v) = new {
        note(t, name, &ratio_text(current), &ratio_text(v));
    }
}

pub open spec fn version_change(t: Seq<char>, name: Seq<char>, current: (u64, u64), new: Option<(u64, u64)>) -> Seq<char> {
    match new {
        Some(v) => change(t, name, version_chars(current), version_chars(v)),
        None => t,
    }
}

fn note_version(t: &mut String, name: &str, current: (u64, u64), new: Option<(u64, u64)>)
    ensures
        final(t)@ == version_change(old(t)@, name@, current, new),
{
    if let Some(v) = new {
        note(t, name, &version_text(current), &version_text(v));
    }
}

pub open spec fn cost_change(t: Seq<char>, name: Seq<char>, current: u64, new: Option<Rational>) -> Seq<char> {
    match new {
        Some(v) => change(t, name, decimal_chars(current as nat), ratio_chars(v)),
        None => t,
    }
}

fn note_cost(t: &mut String, name: &str, current: u64, new: Option<Rational>)
    ensures
        final(t)@ == cost_change(old(t)@, name@, current, new),
{
    if let Some(v) = new {
        note(t, name, &decimal(current), &ratio_text(v));
    }
}

/// Sizes, version and fees.
#[verifier::opaque]
pub open spec fn limit_changes(t: Seq<char>, p: ProtocolParameters, u: ProtocolParamUpdate) -> Seq<char> {
    let t = number_change(t, "min_fee_a"@, p.min_fee_a, u.min_fee_a);
    let t = number_change(t, "min_fee_b"@, p.min_fee_b, u.min_fee_b);
    let t = number_change(t, "max_block_body_size"@, p.max_block_body_size, u.max_block_body_size);
    let t = number_change(t, "max_transaction_size"@, p.max_transaction_size, u.max_transaction_size);
    let t = number_change(t, "max_block_header_size"@, p.max_block_header_size, u.max_block_header_size);
    let t = version_change(t, "protocol_version"@, (p.protocol_version_major, p.protocol_version_minor), u.protocol_version);
    t
}

fn note_limit_changes(t: &mut String, p: &ProtocolParameters, u: &ProtocolParamUpdate)
    ensures
        final(t)@ == limit_changes(old(t)@, *p, *u),
{
    proof {
        reveal(limit_changes);
    }
    note_number(t, "min_fee_a", p.min_fee_a, u.min_fee_a);
    note_number(t, "min_fee_b", p.min_fee_b, u.min_fee_b);
    note_number(t, "max_block_body_size", p.max_block_body_size, u.max_block_body_size);
    note_number(t, "max_transaction_size", p.max_transaction_size, u.max_transaction_size);
    note_number(t, "max_block_header_size", p.max_block_header_size, u.max_block_header_size);
    note_version(t, "protocol_version", (p.protocol_version_major, p.protocol_version_minor), u.protocol_version);
}

/// Deposits, costs and rewards.
#[verifier::opaque]
pub open spec fn economic_changes(t: Seq<char>, p: ProtocolParameters, u: ProtocolParamUpdate) -> Seq<char> {
    let t = number_change(t, "key_deposit"@, p.key_deposit, u.key_deposit);
    let t = number_change(t, "pool_deposit"@, p.pool_deposit, u.pool_deposit);
    let t = number_change(t, "min_pool_cost"@, p.min_pool_cost, u.min_pool_cost);
    let t = ratio_change(t, "rho"@, p.rho, u.rho);
    let t = ratio_change(t, "tau"@, p.tau, u.tau);
    let t = ratio_change(t, "a0"@, p.a0, u.a0);
    let t = number_change(t, "n_opt"@, p.n_opt, u.n_opt);
    let t = number_change(t, "e_max"@, p.e_max, u.e_max);
    let t = ratio_change(t, "decentralization"@, p.decentralization, u.decentralization);
    t
}

fn note_economic_changes(t: &mut String, p: &ProtocolParameters, u: &ProtocolParamUpdate)
    ensures
        final(t)@ == economic_changes(old(t)@, *p, *u),
{
    proof {
        reveal(economic_changes);
    }
    note_number(t, "key_deposit", p.key_deposit, u.key_deposit);
    note_number(t, "pool_deposit", p.pool_deposit, u.pool_deposit);
    note_number(t, "min_pool_cost", p.min_pool_cost, u.min_pool_cost);
    note_ratio(t, "rho", p.rho, u.rho);
    note_ratio(t, "tau", p.tau, u.tau);
    note_ratio(t, "a0", p.a0, u.a0);
    note_number(t, "n_opt", p.n_opt, u.n_opt);
    note_number(t, "e_max", p.e_max, u.e_max);
    note_ratio(t, "decentralization", p.decentralization, u.decentralization);
}

/// Governance.
#[verifier::opaque]
pub open spec fn gov_changes(t: Seq<char>, p: ProtocolParameters, u: ProtocolParamUpdate) -> Seq<char> {
    let t = number_change(t, "drep_deposit"@, p.drep_deposit, u.drep_deposit);
    let t = number_change(t, "drep_activity"@, p.drep_activity_period, u.drep_activity);
    let t = number_change(t, "gov_action_lifetime"@, p.gov_action_lifetime, u.gov_action_lifetime);
    let t = number_change(t, "gov_action_deposit"@, p.gov_action_deposit, u.gov_action_deposit);
    let t = number_change(t, "committee_min_size"@, p.committee_min_size, u.committee_min_size);
    let t = number_change(t, "committee_max_term_length"@, p.committee_max_term_length, u.committee_max_term_length);
    let t = cost_change(t, "min_fee_ref_script_cost_per_byte"@, p.min_fee_ref_script_cost_per_byte, u.min_fee_ref_script_cost_per_byte);
    t
}

fn note_gov_changes(t: &mut String, p: &ProtocolParameters, u: &ProtocolParamUpdate)
    ensures
        final(t)@ == gov_changes(old(t)@, *p, *u),
{
    proof {
        reveal(gov_changes);
    }
    note_number(t, "drep_deposit", p.drep_deposit, u.drep_deposit);
    note_number(t, "drep_activity", p.drep_activity_period, u.drep_activity);
    note_number(t, "gov_action_lifetime", p.gov_action_lifetime, u.gov_action_lifetime);
    note_number(t, "gov_action_deposit", p.gov_action_deposit, u.gov_action_deposit);
    note_number(t, "committee_min_size", p.committee_min_size, u.committee_min_size);
    note_number(t, "committee_max_term_length", p.committee_max_term_length, u.committee_max_term_length);
    note_cost(t, "min_fee_ref_script_cost_per_byte", p.min_fee_ref_script_cost_per_byte, u.min_fee_ref_script_cost_per_byte);
}

/// DRep thresholds.
#[verifier::opaque]
pub open spec fn drep_changes(t: Seq<char>, p: ProtocolParameters, u: ProtocolParamUpdate) -> Seq<char> {
    let t = ratio_change(t, "dvt_motion_no_confidence"@, p.dvt_motion_no_confidence, u.dvt_motion_no_confidence);
    let t = ratio_change(t, "dvt_committee_normal"@, p.dvt_committee_normal, u.dvt_committee_normal);
    let t = ratio_change(t, "dvt_committee_no_confidence"@, p.dvt_committee_no_confidence, u.dvt_committee_no_confidence);
    let t = ratio_change(t, "dvt_update_to_constitution"@, p.dvt_constitution, u.dvt_update_to_constitution);
    let t = ratio_change(t, "dvt_hard_fork_initiation"@, p.dvt_hard_fork, u.dvt_hard_fork_initiation);
    let t = ratio_change(t, "dvt_pp_network_group"@, p.dvt_pp_network_group, u.dvt_pp_network_group);
    let t = ratio_change(t, "dvt_pp_economic_group"@, p.dvt_pp_economic_group, u.dvt_pp_economic_group);
    let t = ratio_change(t, "dvt_pp_technical_group"@, p.dvt_pp_technical_group, u.dvt_pp_technical_group);
    let t = ratio_change(t, "dvt_pp_gov_group"@, p.dvt_pp_gov_group, u.dvt_pp_gov_group);
    let t = ratio_change(t, "dvt_treasury_withdrawal"@, p.dvt_treasury_withdrawal, u.dvt_treasury_withdrawal);
    t
}

fn note_drep_changes(t: &mut String, p: &ProtocolParameters, u: &ProtocolParamUpdate)
    ensures
        final(t)@ == drep_changes(old(t)@, *p, *u),
{
    proof {
        reveal(drep_changes);
    }
    note_ratio(t, "dvt_motion_no_confidence", p.dvt_motion_no_confidence, u.dvt_motion_no_confidence);
    note_ratio(t, "dvt_committee_normal", p.dvt_committee_normal, u.dvt_committee_normal);
    note_ratio(t, "dvt_committee_no_confidence", p.dvt_committee_no_confidence, u.dvt_committee_no_confidence);
    note_ratio(t, "dvt_update_to_constitution", p.dvt_constitution, u.dvt_update_to_constitution);
    note_ratio(t, "dvt_hard_fork_initiation", p.dvt_hard_fork, u.dvt_hard_fork_initiation);
    note_ratio(t, "dvt_pp_network_group", p.dvt_pp_network_group, u.dvt_pp_network_group);
    note_ratio(t, "dvt_pp_economic_group", p.dvt_pp_economic_group, u.dvt_pp_economic_group);
    note_ratio(t, "dvt_pp_technical_group", p.dvt_pp_technical_group, u.dvt_pp_technical_group);
    note_ratio(t, "dvt_pp_gov_group", p.dvt_pp_gov_group, u.dvt_pp_gov_group);
    note_ratio(t, "dvt_treasury_withdrawal", p.dvt_treasury_withdrawal, u.dvt_treasury_withdrawal);
}

/// Pool thresholds.
#[verifier::opaque]
pub open spec fn spo_changes(t: Seq<char>, p: ProtocolParameters, u: ProtocolParamUpdate) -> Seq<char> {
    let t = ratio_change(t, "pvt_motion_no_confidence"@, p.pvt_motion_no_confidence, u.pvt_motion_no_confidence);
    let t = ratio_change(t, "pvt_committee_normal"@, p.pvt_committee_normal, u.pvt_committee_normal);
    let t = ratio_change(t, "pvt_committee_no_confidence"@, p.pvt_committee_no_confidence, u.pvt_committee_no_confidence);
    let t = ratio_change(t, "pvt_hard_fork_initiation"@, p.pvt_hard_fork, u.pvt_hard_fork_initiation);
    let t = ratio_change(t, "pvt_pp_security_group"@, p.pvt_pp_security_group, u.pvt_pp_security_group);
    t
}

fn note_spo_changes(t: &mut String, p: &ProtocolParameters, u: &ProtocolParamUpdate)
    ensures
        final(t)@ == spo_changes(old(t)@, *p, *u),
{
    proof {
        reveal(spo_changes);
    }
    note_ratio(t, "pvt_motion_no_confidence", p.pvt_motion_no_confidence, u.pvt_motion_no_confidence);
    note_ratio(t, "pvt_committee_normal", p.pvt_committee_normal, u.pvt_committee_normal);
    note_ratio(t, "pvt_committee_no_confidence", p.pvt_committee_no_confidence, u.pvt_committee_no_confidence);
    note_ratio(t, "pvt_hard_fork_initiation", p.pvt_hard_fork, u.pvt_hard_fork_initiation);
    note_ratio(t, "pvt_pp_security_group", p.pvt_pp_security_group, u.pvt_pp_security_group);
}

/// All changes that an update makes to the current parameters.
pub open spec fn changes_text(p: ProtocolParameters, u: ProtocolParamUpdate) -> Seq<char> {
    let t = limit_changes(Seq::empty(), p, u);
    let t = economic_changes(t, p, u);
    let t = gov_changes(t, p, u);
    let t = drep_changes(t, p, u);
    spo_changes(t, p, u)
}

impl ProtocolParamUpdate {
    /// What the update changes, for the log.
    pub fn format_changes(&self, current: &ProtocolParameters) -> (r: String)
        ensures
            r@ == changes_text(*current, *self),
    {
        let mut t = String::new();
        assert(t@ =~= Seq::empty());
        note_limit_changes(&mut t, current, self);
        note_economic_changes(&mut t, current, self);
        note_gov_changes(&mut t, current, self);
        note_drep_changes(&mut t, current, self);
        note_spo_changes(&mut t, current, self);
        t
    }
}

} // verus!
