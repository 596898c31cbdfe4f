//! Comparing whole dumps, epoch by epoch.

use vstd::prelude::*;
use crate::dump::compare::{
    compare_deposits, compare_era_name, compare_protocol_params, compare_rewards, compare_rupd, compare_u64,
    deposits_compared, drep_total, era_compared, number_compared, params_compared, rewards_compared,
    rupd_compared, DumpRecord, GovernanceRecord, SnapshotRecord, Wording,
};
use crate::dump::governance::{
    check_dreps, compare_conway_gov, dreps_fit, gov_critical, gov_warnings, governance_fits, total_dreps,
};
use crate::dump::report::{found, Finding, FindingModel};
use crate::dump::snapshots::{
    check_snapshots, check_stakes, compare_snapshot, compare_stake_only, snapshot_critical, snapshot_warnings,
    snapshots_fit, stake_by_name, stake_differs, stake_extra, stake_only_compared, stakes_fit,
};
use crate::table::{lemma_listing, listing};

verus! {

// ---- a full comparison ----

/// What is critical about an epoch of two dumps.
pub open spec fn epoch_critical(h: DumpRecord, r: DumpRecord, next: Option<DumpRecord>, epoch: u64) -> Seq<
    FindingModel,
> {
    let l = number_compared(Seq::empty(), "treasury"@, h.treasury, r.treasury, Wording::Short, true);
    let l = number_compared(l, "reserves"@, h.reserves, r.reserves, Wording::Short, true);
    let l = number_compared(l, "activeStake"@, h.active_stake, r.active_stake, Wording::Short, true);
    let l = deposits_compared(l, h.deposits, r.deposits);
    let l = params_compared(l, h.n_opt, r.n_opt);
    let l = match next {
        Some(n) => rupd_compared(l, h, n, epoch),
        None => l,
    };
    let l = gov_critical(l, h.governance, r.governance);
    let l = snapshot_critical(l, "mark"@, h.mark, r.mark);
    let l = snapshot_critical(l, "set"@, h.set, r.set);
    snapshot_critical(l, "go"@, h.go, r.go)
}

/// What deserves a warning.
pub open spec fn epoch_warnings(h: DumpRecord, r: DumpRecord) -> Seq<FindingModel> {
    let l = number_compared(Seq::empty(), "epochFees"@, h.epoch_fees, r.epoch_fees, Wording::Short, true);
    let l = era_compared(l, h.era, r.era);
    let l = gov_warnings(l, h.governance, r.governance);
    let l = snapshot_warnings(l, "mark"@, h.mark, r.mark);
    let l = snapshot_warnings(l, "set"@, h.set, r.set);
    snapshot_warnings(l, "go"@, h.go, r.go)
}

/// The findings on an epoch.
pub struct Report {
    pub critical: Vec<Finding>,
    pub warnings: Vec<Finding>,
}

/// What a report comes to.
#[derive(Clone, Copy, Debug, PartialEq, Eq, Structural)]
pub enum Verdict {
    Agree,
    AgreeWithWarnings,
    Diverged,
}

impl Report {
    /// Whether the dumps agree.
    pub fn verdict(&self) -> (r: Verdict)
        ensures
            r == if self.critical@.len() > 0 {
                Verdict::Diverged
            } else if self.warnings@.len() > 0 {
                Verdict::AgreeWithWarnings
            } else {
                Verdict::Agree
            },
    {
        if self.critical.len() > 0 {
            Verdict::Diverged
        } else if self.warnings.len() > 0 {
            Verdict::AgreeWithWarnings
        } else {
            Verdict::Agree
        }
    }
}

/// What a comparison of two dumps adds up can be counted in `u64`, and the
/// names that it shortens can be shortened.
pub open spec fn dumps_fit(h: DumpRecord, r: DumpRecord) -> bool {
    &&& governance_fits(h.governance, r.governance)
    &&& snapshots_fit(h.mark, r.mark)
    &&& snapshots_fit(h.set, r.set)
    &&& snapshots_fit(h.go, r.go)
}

/// Whether two dumps can be compared.
pub fn can_compare(h: &DumpRecord, r: &DumpRecord) -> (ok: bool)
    ensures
        ok == dumps_fit(*h, *r),
{
    let governance: bool = h.governance.is_none() || r.governance.is_none() || check_dreps(&h.governance)
        && check_dreps(&r.governance);
    governance && check_snapshots(&h.mark, &r.mark) && check_snapshots(&h.set, &r.set) && check_snapshots(&h.go, &r.go)
}

/// Compares the dump of an epoch with the Haskell dump of the same epoch. The
/// reward update is compared with the one that the next dump applied, where
/// there is one.
pub fn compare_epoch(h: &DumpRecord, r: &DumpRecord, next: Option<&DumpRecord>, epoch: u64) -> (report: Report)
    requires
        dumps_fit(*h, *r),
        next is Some ==> epoch < u64::MAX,
    ensures
        found(report.critical@) == epoch_critical(
            *h,
            *r,
            match next {
                Some(n) => Some(*n),
                None => None,
            },
            epoch,
        ),
        found(report.warnings@) == epoch_warnings(*h, *r),
{
    let mut critical: Vec<Finding> = Vec::new();
    let mut warnings: Vec<Finding> = Vec::new();
    assert(found(critical@) =~= Seq::empty());
    assert(found(warnings@) =~= Seq::empty());
    compare_u64(&mut critical, "treasury", h.treasury, r.treasury, Wording::Short, true);
    compare_u64(&mut critical, "reserves", h.reserves, r.reserves, Wording::Short, true);
    compare_u64(&mut warnings, "epochFees", h.epoch_fees, r.epoch_fees, Wording::Short, true);
    compare_u64(&mut critical, "activeStake", h.active_stake, r.active_stake, Wording::Short, true);
    compare_deposits(&mut critical, &h.deposits, &r.deposits);
    compare_protocol_params(&mut critical, h.n_opt, r.n_opt);
    if let Some(n) = next {
        compare_rupd(&mut critical, h, n, epoch);
    }
    compare_era_name(&mut warnings, &h.era, &r.era);
    compare_conway_gov(&mut critical, &mut warnings, &h.governance, &r.governance);
    compare_snapshot(&mut critical, &mut warnings, "mark", &h.mark, &r.mark);
    compare_snapshot(&mut critical, &mut warnings, "set", &h.set, &r.set);
    compare_snapshot(&mut critical, &mut warnings, "go", &h.go, &r.go);
    Report { critical, warnings }
}

// ---- the comparison that a node makes as it follows the chain ----

/// The stake of all representatives, of which there are none without
/// governance.
pub open spec fn governance_stake(g: Option<GovernanceRecord>) -> nat {
    match g {
        Some(g) => drep_total(g),
        None => 0,
    }
}

fn stake_of_governance(g: &Option<GovernanceRecord>) -> (r: u64)
    requires
        governance_stake(*g) <= u64::MAX,
    ensures
        r == governance_stake(*g),
{
    match g {
        Some(g) => total_dreps(g),
        None => 0,
    }
}

/// The critical values of a dump against the Haskell dumps of the same epoch
/// and of the one before, whose reward update this one applied.
pub open spec fn dumps_compared(r: DumpRecord, h: DumpRecord, previous: Option<DumpRecord>, epoch: u64) -> Seq<
    FindingModel,
> {
    let l = number_compared(Seq::empty(), "treasury"@, h.treasury, r.treasury, Wording::Sides, true);
    let l = number_compared(l, "reserves"@, h.reserves, r.reserves, Wording::Sides, true);
    let l = number_compared(l, "activeStake"@, h.active_stake, r.active_stake, Wording::Sides, true);
    let l = number_compared(
        l,
        "conwayGov.drepDistr total stake"@,
        Some(governance_stake(h.governance) as u64),
        Some(governance_stake(r.governance) as u64),
        Wording::Sides,
        true,
    );
    let l = stake_only_compared(l, "mark"@, h.mark, r.mark);
    let l = stake_only_compared(l, "set"@, h.set, r.set);
    let l = stake_only_compared(l, "go"@, h.go, r.go);
    if epoch == 0 {
        l
    } else {
        match previous {
            Some(p) => match (p.rupd_next, r.rupd) {
                (Some(hr), Some(rr)) => rewards_compared(l, (epoch - 1) as u64, hr, rr),
                _ => l,
            },
            None => l,
        }
    }
}

/// The stake in two dumps can be counted in `u64`, and its credentials
/// normalized.
pub open spec fn critical_fits(h: DumpRecord, r: DumpRecord) -> bool {
    &&& dreps_fit(h.governance)
    &&& dreps_fit(r.governance)
    &&& stakes_fit(h.mark, r.mark)
    &&& stakes_fit(h.set, r.set)
    &&& stakes_fit(h.go, r.go)
}

/// Whether the critical values of two dumps can be compared.
pub fn can_compare_critical(h: &DumpRecord, r: &DumpRecord) -> (ok: bool)
    ensures
        ok == critical_fits(*h, *r),
{
    check_dreps(&h.governance) && check_dreps(&r.governance) && check_stakes(&h.mark, &r.mark) && check_stakes(&h.set, &r.set) && check_stakes(&h.go, &r.go)
}

/// Compares the critical values of a dump; nothing is found where they all
/// match.
pub fn compare_epoch_dumps(r: &DumpRecord, h: &DumpRecord, previous: Option<&DumpRecord>, epoch: u64) -> (out: Vec<
    Finding,
>)
    requires
        critical_fits(*h, *r),
    ensures
        found(out@) == dumps_compared(
            *r,
            *h,
            match previous {
                Some(p) => Some(*p),
                None => None,
            },
            epoch,
        ),
{
    let mut out: Vec<Finding> = Vec::new();
    assert(found(out@) =~= Seq::empty());
    compare_u64(&mut out, "treasury", h.treasury, r.treasury, Wording::Sides, true);
    compare_u64(&mut out, "reserves", h.reserves, r.reserves, Wording::Sides, true);
    compare_u64(&mut out, "activeStake", h.active_stake, r.active_stake, Wording::Sides, true);
    compare_u64(
        &mut out,
        "conwayGov.drepDistr total stake",
        Some(stake_of_governance(&h.governance)),
        Some(stake_of_governance(&r.governance)),
        Wording::Sides,
        true,
    );
    compare_stake_only(&mut out, "mark", &h.mark, &r.mark);
    compare_stake_only(&mut out, "set", &h.set, &r.set);
    compare_stake_only(&mut out, "go", &h.go, &r.go);
    if epoch > 0 {
        if let Some(p) = previous {
            match (&p.rupd_next, &r.rupd) {
                (Some(hr), Some(rr)) => compare_rewards(&mut out, epoch - 1, hr, rr),
                _ => {},
            }
        }
    }
    out
}

// ---- laws ----

proof fn lemma_same_stake(l: Seq<FindingModel>, name: Seq<char>, s: Seq<(Seq<char>, u64)>, m: Map<Seq<char>, u64>)
    requires
        forall|i: int| #![trigger s[i]] 0 <= i < s.len() ==> m.dom().contains(s[i].0) && m[s[i].0] == s[i].1,
    ensures
        stake_differs(l, name, s, m) == l,
        stake_extra(l, name, s, m) == l,
    decreases s.len(),
{
    if s.len() > 0 {
        let k = s.drop_last();
        assert forall|i: int| #![trigger k[i]] 0 <= i < k.len() implies m.dom().contains(k[i].0) && m[k[i].0] == k[i].1 by {
            assert(k[i] == s[i]);
        }
        lemma_same_stake(l, name, k, m);
        assert(s[s.len() - 1] == s.last());
    }
}

proof fn lemma_named_finite(l: Seq<(String, Option<u64>)>)
    ensures
        stake_by_name(l).dom().finite(),
    decreases l.len(),
{
    if l.len() > 0 {
        lemma_named_finite(l.drop_last());
    }
}

proof fn lemma_same_snapshot(l: Seq<FindingModel>, name: Seq<char>, s: Option<Option<SnapshotRecord>>)
    ensures
        stake_only_compared(l, name, s, s) == l,
{
    if let Some(Some(r)) = s {
        let m = stake_by_name(r.stake@);
        lemma_named_finite(r.stake@);
        lemma_listing::<String, u64>(m);
        lemma_same_stake(l, name, listing::<String, u64>(m), m);
    }
}

/// A dump that equals the Haskell dump of its epoch, and that applied the
/// reward update of the one before, raises nothing.
pub proof fn law_equal_dumps_agree(d: DumpRecord, previous: Option<DumpRecord>, epoch: u64)
    requires
        previous matches Some(p) ==> (p.rupd_next is Some && d.rupd is Some ==> p.rupd_next == d.rupd),
    ensures
        dumps_compared(d, d, previous, epoch).len() == 0,
{
    lemma_same_snapshot(Seq::empty(), "mark"@, d.mark);
    lemma_same_snapshot(Seq::empty(), "set"@, d.set);
    lemma_same_snapshot(Seq::empty(), "go"@, d.go);
}

} // verus!
