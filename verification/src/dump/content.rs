//! What stands in a dump, and what a trace of two dumps computes.

use vstd::prelude::*;
use crate::dump::compare::record_total;
use crate::dump::labels::{credential_label, drep_label, labelled};
use crate::dump::snapshots::normalized;
use crate::dump::state::{
    active_stake_of, all_fit, authorized, deposits_totalled, drep_deposits, dump_era, dumped, fitting, mark_pool_stake_of,
    pool_deposits, power_by_label, power_of_dump, proposal_deposits, resigned, snapshot_dumped, stake_deposits, MemberState,
};
use crate::dump::trace::{
    applied_differs, floor_defined, floor_of, is_federated, names_of, payout_list, registered_names, trace_fits,
    trace_passes, traced, unregistered_payouts, word, TraceInput,
};
use crate::dump::compare::RewardRecord;
use crate::hexa::hex_chars;
use crate::ledger::eras::era_chars;
use crate::ledger::primitives::{Anchor, DRep, EpochNo, Hash28, Hash32, Lovelace};
use crate::ledger::ratify::voter_stake;
use crate::ledger::registry::{agree, records};
use crate::ledger::state::{amount_of, gov_total, DepositsModel, LedgerModel, SnapshotModel};
use crate::sums::{lemma_sum_insert, map_sum};
use crate::table::listing;
use crate::text::decimal_chars;

verus! {

// ---- names ----

/// Credentials are named by their kind and the first 28 bytes of their hash,
/// representatives likewise with a prefix of their own.
pub proof fn law_labels(h: Hash32)
    ensures
        credential_label(false, h) == "keyHash-"@ + hex_chars(h@.take(28)),
        credential_label(true, h) == "scriptHash-"@ + hex_chars(h@.take(28)),
        drep_label(DRep::KeyHash(h)) == "drep-keyHash-"@ + hex_chars(h@.take(28)),
        drep_label(DRep::ScriptHash(h)) == "drep-scriptHash-"@ + hex_chars(h@.take(28)),
        drep_label(DRep::AlwaysAbstain) == "drep-alwaysAbstain"@,
        drep_label(DRep::AlwaysNoConfidence) == "drep-alwaysNoConfidence"@,
{
}

/// Entries are listed under the names of their credentials; those in a set of
/// scripts are named as scripts.
pub proof fn law_labelled<V>(l: Seq<(Hash32, V)>, x: (Hash32, V), scripts: Set<Hash32>)
    ensures
        labelled(Seq::<(Hash32, V)>::empty(), scripts) == Map::<Seq<char>, V>::empty(),
        records(
            labelled(l, scripts),
            labelled(l.push(x), scripts),
            credential_label(scripts.contains(x.0), x.0),
            x.1,
        ),
{
    assert(l.push(x).drop_last() =~= l);
}

// ---- totals ----

/// The deposits of one more credential add up kind by kind, and all kinds make
/// the total.
pub proof fn law_deposit_totals(m: Map<Hash32, DepositsModel>, c: Hash32, d: DepositsModel)
    requires
        m.dom().finite(),
        !m.dom().contains(c),
    ensures
        deposits_totalled(m.insert(c, d)) matches Some(t) ==> {
            &&& deposits_totalled(m) matches Some(b) && t.pool == b.pool + amount_of(d.pool) && t.stake_key == b.stake_key
                + amount_of(d.stake) && t.drep == b.drep + amount_of(d.drep) && t.proposal == b.proposal + gov_total(
                d.governance,
            )
            &&& t.total == t.pool + t.stake_key + t.drep + t.proposal
        },
        deposits_totalled(Map::empty()) matches Some(z) && z.pool == 0 && z.stake_key == 0 && z.drep == 0 && z.proposal
            == 0 && z.total == 0,
{
    lemma_sum_insert(m, pool_deposits(), c, d);
    lemma_sum_insert(m, stake_deposits(), c, d);
    lemma_sum_insert(m, proposal_deposits(), c, d);
    lemma_sum_insert(m, drep_deposits(), c, d);
    crate::sums::lemma_sum_empty::<Hash32, DepositsModel>(pool_deposits());
    crate::sums::lemma_sum_empty::<Hash32, DepositsModel>(stake_deposits());
    crate::sums::lemma_sum_empty::<Hash32, DepositsModel>(proposal_deposits());
    crate::sums::lemma_sum_empty::<Hash32, DepositsModel>(drep_deposits());
}

/// The active stake is that of the go snapshot, and the stake of pools that of
/// the mark snapshot.
pub proof fn law_stake_totals(s: LedgerModel)
    ensures
        s.snapshots.go is None ==> active_stake_of(s) == 0,
        s.snapshots.go matches Some(g) ==> active_stake_of(s) == map_sum(
            g.stake_distribution,
            |c: Hash32, v: Lovelace| v.0 as nat,
        ),
        s.snapshots.mark is None ==> mark_pool_stake_of(s) == 0,
        s.snapshots.mark matches Some(m) ==> mark_pool_stake_of(s) == map_sum(
            m.pool_stake,
            |p: Hash28, v: Lovelace| v.0 as nat,
        ),
{
}

/// A vote adds what its voter weighs to the representative that it is given
/// to; voters without stake add nothing.
pub proof fn law_power_listed(s: LedgerModel, l: Seq<(Hash32, DRep)>, x: (Hash32, DRep), other: Seq<char>)
    ensures
        ({
            let (m, n) = (power_by_label(s, l), power_by_label(s, l.push(x)));
            let k = drep_label(x.1);
            let w = voter_stake(s, x.0);
            &&& !power_by_label(s, Seq::empty()).dom().contains(k)
            &&& w == 0 ==> n == m
            &&& w > 0 ==> n.dom().contains(k) && n[k] == (if m.dom().contains(k) {
                m[k]
            } else {
                0
            }) + w
            &&& other != k ==> agree(m, n, other)
        }),
{
    assert(l.push(x).drop_last() =~= l);
}

// ---- the committee ----

/// A member with a hot credential is authorized; one that resigned and has none
/// is resigned.
pub proof fn law_member_states(
    l: Seq<(Hash32, Hash32)>,
    x: (Hash32, Hash32),
    m: Map<Seq<char>, MemberState>,
    r: Seq<(Hash32, Option<Anchor>)>,
    y: (Hash32, Option<Anchor>),
    scripts: Set<Hash32>,
    hot: Set<Hash32>,
)
    ensures
        !authorized(Seq::empty(), scripts, hot).dom().contains(credential_label(scripts.contains(x.0), x.0)),
        records(
            authorized(l, scripts, hot),
            authorized(l.push(x), scripts, hot),
            credential_label(scripts.contains(x.0), x.0),
            MemberState::Authorized { script: hot.contains(x.1), hot: x.1 },
        ),
        resigned(m, Seq::empty(), scripts) == m,
        resigned(m, r, scripts).dom().contains(credential_label(scripts.contains(y.0), y.0)) ==> resigned(
            m,
            r.push(y),
            scripts,
        ) == resigned(m, r, scripts),
        !resigned(m, r, scripts).dom().contains(credential_label(scripts.contains(y.0), y.0)) ==> records(
            resigned(m, r, scripts),
            resigned(m, r.push(y), scripts),
            credential_label(scripts.contains(y.0), y.0),
            MemberState::Resigned,
        ),
{
    assert(l.push(x).drop_last() =~= l);
    assert(r.push(y).drop_last() =~= r);
}

// ---- the dump ----

/// A snapshot is dumped with the stake and the delegations of its credentials.
pub proof fn law_snapshot_dumped(s: SnapshotModel)
    ensures
        snapshot_dumped(None) is None,
        snapshot_dumped(Some(s)) matches Some(d) && d.stake == labelled(
            listing::<Hash32, Lovelace>(s.stake_distribution),
            s.script_stake_credentials,
        ) && d.delegations == labelled(listing::<Hash32, Hash28>(s.delegations), s.script_stake_credentials),
{
}

/// A dump is named by its epoch, and holds the totals, the four snapshots and,
/// once there are Conway parameters, governance.
pub proof fn law_dumped(s: LedgerModel, slot: u64)
    requires
        active_stake_of(s) <= u64::MAX,
        mark_pool_stake_of(s) <= u64::MAX,
    ensures
        ({
            let d = dumped(s, slot);
            let g = s.governance;
            &&& d.file == decimal_chars(s.epoch.0 as nat) + "-hayate.json"@
            &&& d.epoch == s.epoch.0
            &&& d.slot == slot
            &&& d.active_stake == active_stake_of(s)
            &&& d.mark_pool_stake == mark_pool_stake_of(s)
            &&& deposits_totalled(s.deposits) matches Some(t) ==> d.deposits == t
            &&& d.mark == snapshot_dumped(s.snapshots.mark)
            &&& d.set == snapshot_dumped(s.snapshots.set)
            &&& d.go == snapshot_dumped(s.snapshots.go)
            &&& d.pay == snapshot_dumped(s.snapshots.pay)
            &&& d.governance is Some == g.conway_cur_params is Some
            &&& d.governance matches Some(x) ==> {
                &&& x.members == labelled(
                    listing::<Hash32, EpochNo>(g.committee_expiration),
                    g.script_committee_credentials,
                )
                &&& x.states == resigned(
                    authorized(
                        listing::<Hash32, Hash32>(g.committee_hot_keys),
                        g.script_committee_credentials,
                        g.script_committee_hot_credentials,
                    ),
                    listing::<Hash32, Option<Anchor>>(g.committee_resigned),
                    g.script_committee_credentials,
                )
                &&& forall|k: Seq<char>| #[trigger]
                    x.dreps.dom().contains(k) == power_by_label(
                        s,
                        listing::<Hash32, DRep>(g.vote_delegations),
                    ).dom().contains(k)
                &&& all_fit(power_of_dump(s)) ==> forall|k: Seq<char>| #[trigger]
                    x.dreps.dom().contains(k) ==> x.dreps[k] == power_of_dump(s)[k]
            }
        }),
{
}

/// The eras by their protocol versions.
pub proof fn law_eras_named(major: u64)
    ensures
        major < 2 ==> era_chars(major) == "Byron"@,
        major == 2 ==> era_chars(major) == "Shelley"@,
        major == 3 ==> era_chars(major) == "Allegra"@,
        major == 4 ==> era_chars(major) == "Mary"@,
        major == 5 || major == 6 ==> era_chars(major) == "Alonzo"@,
        major == 7 || major == 8 ==> era_chars(major) == "Babbage"@,
        9 <= major < 12 ==> era_chars(major) == "Conway"@,
        major == 12 ==> era_chars(major) == "Dijkstra"@,
        major > 12 ==> era_chars(major) == "Unknown"@,
        major < 12 ==> dump_era(major) == era_chars(major),
        major >= 12 ==> dump_era(major) == "Dijkstra"@,
{
}

// ---- traces ----

/// The product of two fractions and a number is rounded down.
pub proof fn law_floor_of(an: u64, ad: u64, bn: u64, bd: u64, val: u64)
    requires
        floor_defined(an, ad, bn, bd, val),
        (an * bn * val) / (ad * bd) <= u64::MAX,
    ensures
        floor_of(an, ad, bn, bd, val) * (ad * bd) <= an * bn * val,
        an * bn * val < (floor_of(an, ad, bn, bd, val) + 1) * (ad * bd),
{
    let x = an * bn * val;
    let d = ad * bd;
    assert(d > 0) by (nonlinear_arith)
        requires
            d == ad * bd,
            ad > 0,
            bd > 0,
    ;
    assert(x >= 0) by (nonlinear_arith)
        requires
            x == an * bn * val,
            an >= 0,
            bn >= 0,
            val >= 0,
    ;
    let q = x / d;
    vstd::arithmetic::div_mod::lemma_fundamental_div_mod(x, d);
    vstd::arithmetic::div_mod::lemma_mod_bound(x, d);
    vstd::arithmetic::div_mod::lemma_div_pos_is_pos(x, d);
    vstd::arithmetic::div_mod::lemma_small_mod(q as nat, word() as nat);
    assert(q * d == d * q && (q + 1) * d == d * q + d) by (nonlinear_arith);
}

/// The chain counts as federated from a decentralization of four fifths on.
/// Blocks are counted against those that the caller expects, or else those that
/// the dump expects, and no further.
pub proof fn law_traced_eta(i: TraceInput)
    requires
        record_total(i.blocks@) <= u64::MAX,
    ensures
        ({
            let n = record_total(i.blocks@);
            let federated = i.d matches Some(d) && 5 * d.0 >= 4 * d.1;
            let expected = if i.expected_given is Some {
                i.expected_given
            } else {
                i.expected_dumped
            };
            &&& is_federated(i.d) == federated
            &&& traced(i).federated == federated
            &&& traced(i).total_blocks == n
            &&& traced(i).expected_blocks == expected
            &&& federated ==> traced(i).eta.0 == traced(i).eta.1 && traced(i).eta.1 > 0
            &&& !federated && expected is None ==> traced(i).eta.0 == 0 && traced(i).eta.1 > 0
            &&& !federated ==> (expected matches Some(x) ==> traced(i).eta.1 == x && (n >= x ==> traced(i).eta.0 == x) && (n < x
                ==> traced(i).eta.0 == n))
        }),
{
}

/// The steps of a traced update: each value is recomputed from those before
/// it, and stands with whether the dump has the same.
pub proof fn law_traced_steps(i: TraceInput)
    requires
        trace_fits(i),
    ensures
        ({
            let t = traced(i);
            let paid = record_total(payout_list(i));
            &&& i.rupd.delta_r1 matches Some(x) ==> t.delta_r1 == x
            &&& i.rupd.delta_r1 is None ==> t.delta_r1 == 0
            &&& i.rupd.delta_t1 matches Some(x) ==> t.delta_t1 == x
            &&& i.rupd.delta_t1 is None ==> t.delta_t1 == 0
            &&& t.expansion is Some == (i.rho is Some && i.expected_given is Some)
            &&& t.expansion matches Some(x) ==> x.0 == floor_of(t.eta.0, t.eta.1, (i.rho->0).0, (i.rho->0).1, i.reserves)
                && x.1 == (i.rupd.delta_r1 == Some(x.0))
            &&& i.rupd.r_pot matches Some(x) ==> t.r_pot == x
            &&& i.rupd.r_pot is None ==> t.r_pot == t.delta_r1 + (if i.fees is Some { i.fees->0 as int } else { 0 })
            &&& t.pot is Some == i.fees is Some
            &&& t.pot matches Some(x) ==> x.0 == i.fees->0 + t.delta_r1 && x.1 == (x.0 == t.r_pot)
            &&& t.cut is Some == i.tau is Some
            &&& t.cut matches Some(x) ==> x.1 == (i.rupd.delta_t1 == Some(x.0)) && (t.r_pot * (i.tau->0).0 / ((
            i.tau->0).1 as int) <= u64::MAX ==> x.0 == t.r_pot * (i.tau->0).0 / ((i.tau->0).1 as int))
            &&& t.delta_t1 <= t.r_pot ==> t.rest.0 == t.r_pot - t.delta_t1
            &&& t.rest.1 == (i.rupd.reward_pot is None || i.rupd.reward_pot == Some(t.rest.0))
            &&& t.reward_pot == (if i.rupd.reward_pot is Some { i.rupd.reward_pot->0 } else { t.rest.0 })
            &&& t.payouts.0 == paid
            &&& t.payouts.1 == (i.rupd.total_distributed is None || i.rupd.total_distributed == Some(t.payouts.0))
            &&& paid <= t.reward_pot ==> t.returned.0 == t.reward_pot - paid
            &&& t.returned.1 == (i.rupd.delta_r2 is None || i.rupd.delta_r2 == Some(t.returned.0))
            &&& t.delta_r2 == (if i.rupd.delta_r2 is Some { i.rupd.delta_r2->0 } else { t.returned.0 })
            &&& 0 <= i.reserves - t.delta_r1 + t.delta_r2 <= u64::MAX ==> t.next_reserves.0 == i.reserves - t.delta_r1
                + t.delta_r2
            &&& t.next_reserves.1 == (t.next_reserves.0 == i.next_reserves)
            &&& t.unregistered == record_total(unregistered_payouts(payout_list(i), registered_names(i)))
            &&& t.next_treasury.0 == i.treasury + t.delta_t1 + t.unregistered
            &&& t.next_treasury.1 == (t.next_treasury.0 == i.next_treasury)
            &&& trace_passes(t) == (t.next_reserves.0 == i.next_reserves && t.next_treasury.0 == i.next_treasury)
        }),
{
    let t = traced(i);
    let x = i.reserves - t.delta_r1 + t.delta_r2;
    if 0 <= x <= u64::MAX {
        vstd::arithmetic::div_mod::lemma_small_mod(x as nat, word() as nat);
    }
    if let Some(r) = i.tau {
        let q = t.r_pot * r.0 / (r.1 as int);
        assert(t.r_pot * r.0 >= 0) by (nonlinear_arith)
            requires
                t.r_pot >= 0,
                r.0 >= 0,
        ;
        vstd::arithmetic::div_mod::lemma_div_pos_is_pos(t.r_pot * r.0, r.1 as int);
        if q <= u64::MAX {
            vstd::arithmetic::div_mod::lemma_small_mod(q as nat, word() as nat);
        }
    }
    lemma_unregistered_within(payout_list(i), registered_names(i));
}

proof fn lemma_unregistered_within(l: Seq<(String, Option<u64>)>, names: Set<Seq<char>>)
    ensures
        record_total(unregistered_payouts(l, names)) <= record_total(l),
    decreases l.len(),
{
    if l.len() > 0 {
        lemma_unregistered_within(l.drop_last(), names);
        let t = unregistered_payouts(l.drop_last(), names);
        assert(t.push(l.last()).drop_last() =~= t);
    }
}

/// Payouts to credentials that are not registered go to the treasury, those to
/// registered ones do not; names are compared as they are normalized.
pub proof fn law_unregistered(l: Seq<(String, Option<u64>)>, x: (String, Option<u64>), names: Set<Seq<char>>)
    ensures
        unregistered_payouts(Seq::empty(), names).len() == 0,
        names.contains(normalized(x.0@)) ==> unregistered_payouts(l.push(x), names) == unregistered_payouts(l, names),
        !names.contains(normalized(x.0@)) ==> unregistered_payouts(l.push(x), names) == unregistered_payouts(
            l,
            names,
        ).push(x),
{
    assert(l.push(x).drop_last() =~= l);
}

/// The registered names are those that the dump lists, normalized.
pub proof fn law_registered(l: Seq<String>, x: String)
    ensures
        names_of(Seq::empty()) == Set::<Seq<char>>::empty(),
        names_of(l.push(x)) == names_of(l).insert(normalized(x@)),
{
    assert(l.push(x).drop_last() =~= l);
}

/// An update that was applied agrees with the one that was computed where, and
/// only where, all six values do.
pub proof fn law_applied(a: RewardRecord, b: RewardRecord)
    ensures
        applied_differs(a, b).len() == 0 <==> {
            &&& a.delta_r1 == b.delta_r1
            &&& a.delta_r2 == b.delta_r2
            &&& a.delta_t1 == b.delta_t1
            &&& a.r_pot == b.r_pot
            &&& a.reward_pot == b.reward_pot
            &&& a.total_distributed == b.total_distributed
        },
{
}

/// A total is given where it fits, and left out where it does not.
pub proof fn law_totals_fit(n: nat, m: Map<Hash32, DepositsModel>)
    ensures
        fitting(n) matches Some(x) ==> x == n,
        fitting(n) is Some <==> n <= u64::MAX,
        deposits_totalled(m) is Some <==> map_sum(m, pool_deposits()) + map_sum(m, stake_deposits()) + map_sum(
            m,
            proposal_deposits(),
        ) + map_sum(m, drep_deposits()) <= u64::MAX,
        deposits_totalled(m) matches Some(t) ==> t.total == t.pool + t.stake_key + t.proposal + t.drep,
{
}

} // verus!
