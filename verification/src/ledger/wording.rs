//! How parameter changes are worded.

use vstd::prelude::*;
use crate::ledger::changes::{
    change, changes_text, drep_changes, economic_changes, gov_changes, limit_changes, ratio_chars, spo_changes, version_chars,
};
use crate::ledger::primitives::{no_update, ProtocolParamUpdate, ProtocolParameters, Rational};
use crate::text::decimal_chars;

verus! {

/// A change in words: the name, what was there, and what comes.
pub open spec fn worded(name: Seq<char>, before: Seq<char>, after: Seq<char>) -> Seq<char> {
    name + ": "@ + before + " -> "@ + after
}

proof fn lemma_first_change(name: Seq<char>, before: Seq<char>, after: Seq<char>)
    ensures
        change(Seq::empty(), name, before, after) == worded(name, before, after),
{
    reveal(change);
    assert(Seq::<char>::empty() + name =~= name);
}

/// Two changes are set apart by a comma.
pub proof fn law_changes_joined(t: Seq<char>, name: Seq<char>, before: Seq<char>, after: Seq<char>)
    requires
        t.len() > 0,
    ensures
        change(t, name, before, after) == t + ", "@ + name + ": "@ + before + " -> "@ + after,
{
    reveal(change);
}

/// Fractions and versions in words.
pub proof fn law_values_worded(r: Rational, v: (u64, u64))
    ensures
        ratio_chars(r) == decimal_chars(r.numerator as nat) + "/"@ + decimal_chars(r.denominator as nat),
        version_chars(v) == decimal_chars(v.0 as nat) + "."@ + decimal_chars(v.1 as nat),
{
}

/// An update that sets nothing changes nothing.
pub proof fn law_nothing_worded(p: ProtocolParameters)
    ensures
        changes_text(p, no_update()) == Seq::<char>::empty(),
{
    reveal(limit_changes);
    reveal(economic_changes);
    reveal(gov_changes);
    reveal(drep_changes);
    reveal(spo_changes);
}

/// An update that sets one parameter is worded by its name and its two values:
/// sizes, fees and the version.
pub proof fn law_limit_worded(p: ProtocolParameters, x: u64, v: (u64, u64))
    ensures
        changes_text(p, (ProtocolParamUpdate { min_fee_a: Some(x), ..no_update() })) == worded(
            "min_fee_a"@,
            decimal_chars(p.min_fee_a as nat),
            decimal_chars(x as nat),
        ),
        changes_text(p, (ProtocolParamUpdate { min_fee_b: Some(x), ..no_update() })) == worded(
            "min_fee_b"@,
            decimal_chars(p.min_fee_b as nat),
            decimal_chars(x as nat),
        ),
        changes_text(p, (ProtocolParamUpdate { max_block_body_size: Some(x), ..no_update() })) == worded(
            "max_block_body_size"@,
            decimal_chars(p.max_block_body_size as nat),
            decimal_chars(x as nat),
        ),
        changes_text(p, (ProtocolParamUpdate { max_transaction_size: Some(x), ..no_update() })) == worded(
            "max_transaction_size"@,
            decimal_chars(p.max_transaction_size as nat),
            decimal_chars(x as nat),
        ),
        changes_text(p, (ProtocolParamUpdate { max_block_header_size: Some(x), ..no_update() })) == worded(
            "max_block_header_size"@,
            decimal_chars(p.max_block_header_size as nat),
            decimal_chars(x as nat),
        ),
        changes_text(p, (ProtocolParamUpdate { protocol_version: Some(v), ..no_update() })) == worded(
            "protocol_version"@,
            version_chars((p.protocol_version_major, p.protocol_version_minor)),
            version_chars(v),
        ),
{
    reveal(limit_changes);
    reveal(economic_changes);
    reveal(gov_changes);
    reveal(drep_changes);
    reveal(spo_changes);
    lemma_first_change("min_fee_a"@, decimal_chars(p.min_fee_a as nat), decimal_chars(x as nat));
    lemma_first_change("min_fee_b"@, decimal_chars(p.min_fee_b as nat), decimal_chars(x as nat));
    lemma_first_change("max_block_body_size"@, decimal_chars(p.max_block_body_size as nat), decimal_chars(x as nat));
    lemma_first_change("max_transaction_size"@, decimal_chars(p.max_transaction_size as nat), decimal_chars(x as nat));
    lemma_first_change("max_block_header_size"@, decimal_chars(p.max_block_header_size as nat), decimal_chars(x as nat));
    lemma_first_change("protocol_version"@, version_chars((p.protocol_version_major, p.protocol_version_minor)), version_chars(v));
}

/// An update that sets one parameter is worded by its name and its two values:
/// what concerns rewards, pools and deposits.
pub proof fn law_economic_worded(p: ProtocolParameters, x: u64, r: Rational)
    ensures
        changes_text(p, (ProtocolParamUpdate { key_deposit: Some(x), ..no_update() })) == worded(
            "key_deposit"@,
            decimal_chars(p.key_deposit as nat),
            decimal_chars(x as nat),
        ),
        changes_text(p, (ProtocolParamUpdate { pool_deposit: Some(x), ..no_update() })) == worded(
            "pool_deposit"@,
            decimal_chars(p.pool_deposit as nat),
            decimal_chars(x as nat),
        ),
        changes_text(p, (ProtocolParamUpdate { min_pool_cost: Some(x), ..no_update() })) == worded(
            "min_pool_cost"@,
            decimal_chars(p.min_pool_cost as nat),
            decimal_chars(x as nat),
        ),
        changes_text(p, (ProtocolParamUpdate { rho: Some(r), ..no_update() })) == worded(
            "rho"@,
            ratio_chars(p.rho),
            ratio_chars(r),
        ),
        changes_text(p, (ProtocolParamUpdate { tau: Some(r), ..no_update() })) == worded(
            "tau"@,
            ratio_chars(p.tau),
            ratio_chars(r),
        ),
        changes_text(p, (ProtocolParamUpdate { a0: Some(r), ..no_update() })) == worded(
            "a0"@,
            ratio_chars(p.a0),
            ratio_chars(r),
        ),
        changes_text(p, (ProtocolParamUpdate { n_opt: Some(x), ..no_update() })) == worded(
            "n_opt"@,
            decimal_chars(p.n_opt as nat),
            decimal_chars(x as nat),
        ),
        changes_text(p, (ProtocolParamUpdate { e_max: Some(x), ..no_update() })) == worded(
            "e_max"@,
            decimal_chars(p.e_max as nat),
            decimal_chars(x as nat),
        ),
        changes_text(p, (ProtocolParamUpdate { decentralization: Some(r), ..no_update() })) == worded(
            "decentralization"@,
            ratio_chars(p.decentralization),
            ratio_chars(r),
        ),
{
    reveal(limit_changes);
    reveal(economic_changes);
    reveal(gov_changes);
    reveal(drep_changes);
    reveal(spo_changes);
    lemma_first_change("key_deposit"@, decimal_chars(p.key_deposit as nat), decimal_chars(x as nat));
    lemma_first_change("pool_deposit"@, decimal_chars(p.pool_deposit as nat), decimal_chars(x as nat));
    lemma_first_change("min_pool_cost"@, decimal_chars(p.min_pool_cost as nat), decimal_chars(x as nat));
    lemma_first_change("rho"@, ratio_chars(p.rho), ratio_chars(r));
    lemma_first_change("tau"@, ratio_chars(p.tau), ratio_chars(r));
    lemma_first_change("a0"@, ratio_chars(p.a0), ratio_chars(r));
    lemma_first_change("n_opt"@, decimal_chars(p.n_opt as nat), decimal_chars(x as nat));
    lemma_first_change("e_max"@, decimal_chars(p.e_max as nat), decimal_chars(x as nat));
    lemma_first_change("decentralization"@, ratio_chars(p.decentralization), ratio_chars(r));
}

/// An update that sets one parameter is worded by its name and its two values:
/// what concerns governance.
pub proof fn law_gov_worded(p: ProtocolParameters, x: u64, r: Rational)
    ensures
        changes_text(p, (ProtocolParamUpdate { drep_deposit: Some(x), ..no_update() })) == worded(
            "drep_deposit"@,
            decimal_chars(p.drep_deposit as nat),
            decimal_chars(x as nat),
        ),
        changes_text(p, (ProtocolParamUpdate { drep_activity: Some(x), ..no_update() })) == worded(
            "drep_activity"@,
            decimal_chars(p.drep_activity_period as nat),
            decimal_chars(x as nat),
        ),
        changes_text(p, (ProtocolParamUpdate { gov_action_lifetime: Some(x), ..no_update() })) == worded(
            "gov_action_lifetime"@,
            decimal_chars(p.gov_action_lifetime as nat),
            decimal_chars(x as nat),
        ),
        changes_text(p, (ProtocolParamUpdate { gov_action_deposit: Some(x), ..no_update() })) == worded(
            "gov_action_deposit"@,
            decimal_chars(p.gov_action_deposit as nat),
            decimal_chars(x as nat),
        ),
        changes_text(p, (ProtocolParamUpdate { committee_min_size: Some(x), ..no_update() })) == worded(
            "committee_min_size"@,
            decimal_chars(p.committee_min_size as nat),
            decimal_chars(x as nat),
        ),
        changes_text(p, (ProtocolParamUpdate { committee_max_term_length: Some(x), ..no_update() })) == worded(
            "committee_max_term_length"@,
            decimal_chars(p.committee_max_term_length as nat),
            decimal_chars(x as nat),
        ),
        changes_text(p, (ProtocolParamUpdate { min_fee_ref_script_cost_per_byte: Some(r), ..no_update() })) == worded(
            "min_fee_ref_script_cost_per_byte"@,
            decimal_chars(p.min_fee_ref_script_cost_per_byte as nat),
            ratio_chars(r),
        ),
{
    reveal(limit_changes);
    reveal(economic_changes);
    reveal(gov_changes);
    reveal(drep_changes);
    reveal(spo_changes);
    lemma_first_change("drep_deposit"@, decimal_chars(p.drep_deposit as nat), decimal_chars(x as nat));
    lemma_first_change("drep_activity"@, decimal_chars(p.drep_activity_period as nat), decimal_chars(x as nat));
    lemma_first_change("gov_action_lifetime"@, decimal_chars(p.gov_action_lifetime as nat), decimal_chars(x as nat));
    lemma_first_change("gov_action_deposit"@, decimal_chars(p.gov_action_deposit as nat), decimal_chars(x as nat));
    lemma_first_change("committee_min_size"@, decimal_chars(p.committee_min_size as nat), decimal_chars(x as nat));
    lemma_first_change("committee_max_term_length"@, decimal_chars(p.committee_max_term_length as nat), decimal_chars(x as nat));
    lemma_first_change("min_fee_ref_script_cost_per_byte"@, decimal_chars(p.min_fee_ref_script_cost_per_byte as nat), ratio_chars(r));
}

/// An update that sets one parameter is worded by its name and its two values:
/// thresholds for representatives.
pub proof fn law_drep_worded(p: ProtocolParameters, r: Rational)
    ensures
        changes_text(p, (ProtocolParamUpdate { dvt_motion_no_confidence: Some(r), ..no_update() })) == worded(
            "dvt_motion_no_confidence"@,
            ratio_chars(p.dvt_motion_no_confidence),
            ratio_chars(r),
        ),
        changes_text(p, (ProtocolParamUpdate { dvt_committee_normal: Some(r), ..no_update() })) == worded(
            "dvt_committee_normal"@,
            ratio_chars(p.dvt_committee_normal),
            ratio_chars(r),
        ),
        changes_text(p, (ProtocolParamUpdate { dvt_committee_no_confidence: Some(r), ..no_update() })) == worded(
            "dvt_committee_no_confidence"@,
            ratio_chars(p.dvt_committee_no_confidence),
            ratio_chars(r),
        ),
        changes_text(p, (ProtocolParamUpdate { dvt_update_to_constitution: Some(r), ..no_update() })) == worded(
            "dvt_update_to_constitution"@,
            ratio_chars(p.dvt_constitution),
            ratio_chars(r),
        ),
        changes_text(p, (ProtocolParamUpdate { dvt_hard_fork_initiation: Some(r), ..no_update() })) == worded(
            "dvt_hard_fork_initiation"@,
            ratio_chars(p.dvt_hard_fork),
            ratio_chars(r),
        ),
        changes_text(p, (ProtocolParamUpdate { dvt_pp_network_group: Some(r), ..no_update() })) == worded(
            "dvt_pp_network_group"@,
            ratio_chars(p.dvt_pp_network_group),
            ratio_chars(r),
        ),
        changes_text(p, (ProtocolParamUpdate { dvt_pp_economic_group: Some(r), ..no_update() })) == worded(
            "dvt_pp_economic_group"@,
            ratio_chars(p.dvt_pp_economic_group),
            ratio_chars(r),
        ),
        changes_text(p, (ProtocolParamUpdate { dvt_pp_technical_group: Some(r), ..no_update() })) == worded(
            "dvt_pp_technical_group"@,
            ratio_chars(p.dvt_pp_technical_group),
            ratio_chars(r),
        ),
        changes_text(p, (ProtocolParamUpdate { dvt_pp_gov_group: Some(r), ..no_update() })) == worded(
            "dvt_pp_gov_group"@,
            ratio_chars(p.dvt_pp_gov_group),
            ratio_chars(r),
        ),
        changes_text(p, (ProtocolParamUpdate { dvt_treasury_withdrawal: Some(r), ..no_update() })) == worded(
            "dvt_treasury_withdrawal"@,
            ratio_chars(p.dvt_treasury_withdrawal),
            ratio_chars(r),
        ),
{
    reveal(limit_changes);
    reveal(economic_changes);
    reveal(gov_changes);
    reveal(drep_changes);
    reveal(spo_changes);
    lemma_first_change("dvt_motion_no_confidence"@, ratio_chars(p.dvt_motion_no_confidence), ratio_chars(r));
    lemma_first_change("dvt_committee_normal"@, ratio_chars(p.dvt_committee_normal), ratio_chars(r));
    lemma_first_change("dvt_committee_no_confidence"@, ratio_chars(p.dvt_committee_no_confidence), ratio_chars(r));
    lemma_first_change("dvt_update_to_constitution"@, ratio_chars(p.dvt_constitution), ratio_chars(r));
    lemma_first_change("dvt_hard_fork_initiation"@, ratio_chars(p.dvt_hard_fork), ratio_chars(r));
    lemma_first_change("dvt_pp_network_group"@, ratio_chars(p.dvt_pp_network_group), ratio_chars(r));
    lemma_first_change("dvt_pp_economic_group"@, ratio_chars(p.dvt_pp_economic_group), ratio_chars(r));
    lemma_first_change("dvt_pp_technical_group"@, ratio_chars(p.dvt_pp_technical_group), ratio_chars(r));
    lemma_first_change("dvt_pp_gov_group"@, ratio_chars(p.dvt_pp_gov_group), ratio_chars(r));
    lemma_first_change("dvt_treasury_withdrawal"@, ratio_chars(p.dvt_treasury_withdrawal), ratio_chars(r));
}

/// An update that sets one parameter is worded by its name and its two values:
/// thresholds for pools.
pub proof fn law_spo_worded(p: ProtocolParameters, r: Rational)
    ensures
        changes_text(p, (ProtocolParamUpdate { pvt_motion_no_confidence: Some(r), ..no_update() })) == worded(
            "pvt_motion_no_confidence"@,
            ratio_chars(p.pvt_motion_no_confidence),
            ratio_chars(r),
        ),
        changes_text(p, (ProtocolParamUpdate { pvt_committee_normal: Some(r), ..no_update() })) == worded(
            "pvt_committee_normal"@,
            ratio_chars(p.pvt_committee_normal),
            ratio_chars(r),
        ),
        changes_text(p, (ProtocolParamUpdate { pvt_committee_no_confidence: Some(r), ..no_update() })) == worded(
            "pvt_committee_no_confidence"@,
            ratio_chars(p.pvt_committee_no_confidence),
            ratio_chars(r),
        ),
        changes_text(p, (ProtocolParamUpdate { pvt_hard_fork_initiation: Some(r), ..no_update() })) == worded(
            "pvt_hard_fork_initiation"@,
            ratio_chars(p.pvt_hard_fork),
            ratio_chars(r),
        ),
        changes_text(p, (ProtocolParamUpdate { pvt_pp_security_group: Some(r), ..no_update() })) == worded(
            "pvt_pp_security_group"@,
            ratio_chars(p.pvt_pp_security_group),
            ratio_chars(r),
        ),
{
    reveal(limit_changes);
    reveal(economic_changes);
    reveal(gov_changes);
    reveal(drep_changes);
    reveal(spo_changes);
    lemma_first_change("pvt_motion_no_confidence"@, ratio_chars(p.pvt_motion_no_confidence), ratio_chars(r));
    lemma_first_change("pvt_committee_normal"@, ratio_chars(p.pvt_committee_normal), ratio_chars(r));
    lemma_first_change("pvt_committee_no_confidence"@, ratio_chars(p.pvt_committee_no_confidence), ratio_chars(r));
    lemma_first_change("pvt_hard_fork_initiation"@, ratio_chars(p.pvt_hard_fork), ratio_chars(r));
    lemma_first_change("pvt_pp_security_group"@, ratio_chars(p.pvt_pp_security_group), ratio_chars(r));
}

} // verus!
