//! Comparing the governance part of two dumps.

use vstd::prelude::*;
use crate::dump::compare::{compare_optional, drep_total, optional_compared, same_option, total_of, EnactRecord, GovernanceRecord};
use crate::dump::report::{
    differ_text, found, note, noted, numbers_differ, optional_chars, optional_text, remark, sides, sides_text, Finding,
    FindingModel,
};

verus! {

/// A fraction of two numbers that may be missing.
pub open spec fn fraction_chars(n: Option<u64>, d: Option<u64>) -> Seq<char> {
    optional_chars(n) + "/"@ + optional_chars(d)
}

fn fraction_text(n: Option<u64>, d: Option<u64>) -> (r: String)
    ensures
        r@ == fraction_chars(n, d),
{
    let mut r = optional_text(n);
    r.append("/");
    r.append(optional_text(d).as_str());
    r
}

/// The committee: how many members it has and its quorum.
pub open spec fn committee_compared(l: Seq<FindingModel>, h: GovernanceRecord, r: GovernanceRecord) -> Seq<
    FindingModel,
> {
    let l = optional_compared(l, "conwayGov.committee.members count"@, h.members, r.members);
    if h.threshold_numerator == r.threshold_numerator && h.threshold_denominator == r.threshold_denominator {
        l
    } else {
        noted(
            l,
            sides(
                "conwayGov.committee.threshold"@,
                fraction_chars(h.threshold_numerator, h.threshold_denominator),
                fraction_chars(r.threshold_numerator, r.threshold_denominator),
            ),
        )
    }
}

fn compare_committee(out: &mut Vec<Finding>, h: &GovernanceRecord, r: &GovernanceRecord)
    ensures
        found(final(out)@) == committee_compared(found(old(out)@), *h, *r),
{
    compare_optional(out, "conwayGov.committee.members count", h.members, r.members);
    if !(same_option(h.threshold_numerator, r.threshold_numerator) && same_option(
        h.threshold_denominator,
        r.threshold_denominator,
    )) {
        note(
            out,
            sides_text(
                "conwayGov.committee.threshold",
                fraction_text(h.threshold_numerator, h.threshold_denominator).as_str(),
                fraction_text(r.threshold_numerator, r.threshold_denominator).as_str(),
            ),
        );
    }
}

/// Two constitutions that differ are critical.
pub open spec fn url_differs(l: Seq<FindingModel>, h: Option<String>, r: Option<String>) -> Seq<FindingModel> {
    match (h, r) {
        (Some(h), Some(r)) => if h@ == r@ {
            l
        } else {
            noted(l, sides("conwayGov.constitution.url"@, h@, r@))
        },
        _ => l,
    }
}

/// One that is missing is not.
pub open spec fn url_missing(l: Seq<FindingModel>, h: Option<String>, r: Option<String>) -> Seq<FindingModel> {
    match (h, r) {
        (Some(_), None) => noted(l, "conwayGov.constitution.url"@ + ": missing in hayate"@),
        (None, Some(_)) => noted(l, "conwayGov.constitution.url"@ + ": missing in haskell"@),
        _ => l,
    }
}

fn compare_url(critical: &mut Vec<Finding>, warnings: &mut Vec<Finding>, h: &Option<String>, r: &Option<String>)
    ensures
        found(final(critical)@) == url_differs(found(old(critical)@), *h, *r),
        found(final(warnings)@) == url_missing(found(old(warnings)@), *h, *r),
{
    match (h, r) {
        (Some(h), Some(r)) => {
            if *h != *r {
                note(critical, sides_text("conwayGov.constitution.url", h.as_str(), r.as_str()));
            }
        },
        (Some(_), None) => note(warnings, remark("conwayGov.constitution.url", ": missing in hayate")),
        (None, Some(_)) => note(warnings, remark("conwayGov.constitution.url", ": missing in haskell")),
        _ => {},
    }
}

pub open spec fn drep_count(g: GovernanceRecord) -> Option<u64> {
    match g.dreps {
        Some(l) => Some(l@.len() as u64),
        None => None,
    }
}

/// The representatives: how many there are and what stake they have together.
pub open spec fn dreps_compared(l: Seq<FindingModel>, h: GovernanceRecord, r: GovernanceRecord) -> Seq<FindingModel> {
    let l = optional_compared(l, "conwayGov.drepDistr entry count"@, drep_count(h), drep_count(r));
    if drep_total(h) == drep_total(r) {
        l
    } else {
        noted(
            l,
            numbers_differ("conwayGov.drepDistr total stake"@, drep_total(h) as u64, drep_total(r) as u64),
        )
    }
}

fn count_dreps(g: &GovernanceRecord) -> (r: Option<u64>)
    ensures
        r == drep_count(*g),
{
    match &g.dreps {
        Some(l) => Some(l.len() as u64),
        None => None,
    }
}

/// The stake of all representatives.
pub fn total_dreps(g: &GovernanceRecord) -> (r: u64)
    requires
        drep_total(*g) <= u64::MAX,
    ensures
        r == drep_total(*g),
{
    match &g.dreps {
        Some(l) => match total_of(l) {
            Some(x) => x,
            None => 0,
        },
        None => 0,
    }
}

fn compare_dreps(out: &mut Vec<Finding>, h: &GovernanceRecord, r: &GovernanceRecord)
    requires
        drep_total(*h) <= u64::MAX,
        drep_total(*r) <= u64::MAX,
    ensures
        found(final(out)@) == dreps_compared(found(old(out)@), *h, *r),
{
    compare_optional(out, "conwayGov.drepDistr entry count", count_dreps(h), count_dreps(r));
    let ht: u64 = total_dreps(h);
    let rt: u64 = total_dreps(r);
    if ht != rt {
        note(out, differ_text("conwayGov.drepDistr total stake", ht, rt));
    }
}

/// The last enacted action of one purpose: one that the Haskell node has must
/// be there, and be the same.
pub open spec fn action_compared(l: Seq<FindingModel>, purpose: Seq<char>, h: Option<String>, r: Option<String>) -> Seq<
    FindingModel,
> {
    let place = "conwayGov.nextEnactState.prevGovActionIds."@ + purpose;
    match (h, r) {
        (Some(h), Some(r)) => if h@ == r@ {
            l
        } else {
            noted(l, sides(place, h@, r@))
        },
        (Some(_), None) => noted(l, place + ": present in haskell, null in hayate"@),
        _ => l,
    }
}

fn compare_action(out: &mut Vec<Finding>, purpose: &str, h: &Option<String>, r: &Option<String>)
    ensures
        found(final(out)@) == action_compared(found(old(out)@), purpose@, *h, *r),
{
    let place = remark("conwayGov.nextEnactState.prevGovActionIds.", purpose);
    match (h, r) {
        (Some(h), Some(r)) => {
            if *h != *r {
                note(out, sides_text(place.as_str(), h.as_str(), r.as_str()));
            }
        },
        (Some(_), None) => note(out, remark(place.as_str(), ": present in haskell, null in hayate")),
        _ => {},
    }
}

pub open spec fn actions_compared(l: Seq<FindingModel>, h: EnactRecord, r: EnactRecord) -> Seq<FindingModel> {
    let l = action_compared(l, "Committee"@, h.committee, r.committee);
    let l = action_compared(l, "Constitution"@, h.constitution, r.constitution);
    let l = action_compared(l, "HardFork"@, h.hard_fork, r.hard_fork);
    action_compared(l, "PParamUpdate"@, h.pparam_update, r.pparam_update)
}

fn compare_actions(out: &mut Vec<Finding>, h: &EnactRecord, r: &EnactRecord)
    ensures
        found(final(out)@) == actions_compared(found(old(out)@), *h, *r),
{
    compare_action(out, "Committee", &h.committee, &r.committee);
    compare_action(out, "Constitution", &h.constitution, &r.constitution);
    compare_action(out, "HardFork", &h.hard_fork, &r.hard_fork);
    compare_action(out, "PParamUpdate", &h.pparam_update, &r.pparam_update);
}

/// What is critical about the governance parts of two dumps.
pub open spec fn gov_critical(l: Seq<FindingModel>, h: Option<GovernanceRecord>, r: Option<GovernanceRecord>) -> Seq<
    FindingModel,
> {
    match (h, r) {
        (Some(h), Some(r)) => dreps_compared(url_differs(l, h.constitution_url, r.constitution_url), h, r),
        (Some(_), None) => noted(l, "conwayGov: present in haskell but null in hayate"@),
        _ => l,
    }
}

/// What deserves a warning.
pub open spec fn gov_warnings(l: Seq<FindingModel>, h: Option<GovernanceRecord>, r: Option<GovernanceRecord>) -> Seq<
    FindingModel,
> {
    match (h, r) {
        (Some(h), Some(r)) => {
            let l = url_missing(committee_compared(l, h, r), h.constitution_url, r.constitution_url);
            match (h.enacted, r.enacted) {
                (Some(he), Some(re)) => actions_compared(l, he, re),
                _ => l,
            }
        },
        (None, Some(_)) => noted(l, "conwayGov: present in hayate but null in haskell"@),
        _ => l,
    }
}

/// The stake of all representatives can be counted in `u64`.
pub open spec fn dreps_fit(g: Option<GovernanceRecord>) -> bool {
    g matches Some(g) ==> drep_total(g) <= u64::MAX
}

/// Whether the stake of all representatives can be counted.
pub fn check_dreps(g: &Option<GovernanceRecord>) -> (r: bool)
    ensures
        r == dreps_fit(*g),
{
    match g {
        Some(g) => match &g.dreps {
            Some(l) => total_of(l).is_some(),
            None => true,
        },
        None => true,
    }
}

/// Representatives are counted where both dumps have governance.
pub open spec fn governance_fits(h: Option<GovernanceRecord>, r: Option<GovernanceRecord>) -> bool {
    h is Some && r is Some ==> dreps_fit(h) && dreps_fit(r)
}

/// Compares the governance parts of two dumps.
pub fn compare_conway_gov(
    critical: &mut Vec<Finding>,
    warnings: &mut Vec<Finding>,
    h: &Option<GovernanceRecord>,
    r: &Option<GovernanceRecord>,
)
    requires
        governance_fits(*h, *r),
    ensures
        found(final(critical)@) == gov_critical(found(old(critical)@), *h, *r),
        found(final(warnings)@) == gov_warnings(found(old(warnings)@), *h, *r),
{
    match (h, r) {
        (Some(h), Some(r)) => {
            compare_committee(warnings, h, r);
            compare_url(critical, warnings, &h.constitution_url, &r.constitution_url);
            compare_dreps(critical, h, r);
            match (&h.enacted, &r.enacted) {
                (Some(he), Some(re)) => compare_actions(warnings, he, re),
                _ => {},
            }
        },
        (Some(_), None) => note(critical, "conwayGov: present in haskell but null in hayate".to_string()),
        (None, Some(_)) => note(warnings, "conwayGov: present in hayate but null in haskell".to_string()),
        (None, None) => {},
    }
}

} // verus!
