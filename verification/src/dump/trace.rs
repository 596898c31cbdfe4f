//! Recomputing a reward update from two consecutive dumps.

use vstd::prelude::*;
use crate::dump::compare::{record_total, same_option, total_of, RewardRecord};
use crate::dump::report::{optional_chars, optional_text};
use crate::dump::snapshots::{can_normalize, check_names, cred_cuts, names_cut, normalize_cred, normalized};
use crate::table::KeySet;
use crate::text::{cut, cuts, first_bytes};

verus! {

/// What two dumps say about the reward update between their epochs.
pub struct TraceInput {
    pub epoch: u64,
    pub rho: Option<(u64, u64)>,
    pub tau: Option<(u64, u64)>,
    pub d: Option<(u64, u64)>,
    pub reserves: u64,
    pub treasury: u64,
    pub next_reserves: u64,
    pub next_treasury: u64,
    pub fees: Option<u64>,
    /// The reward update of the first dump.
    pub rupd: RewardRecord,
    pub payouts: Option<Vec<(String, Option<u64>)>>,
    /// Blocks of each pool in the go snapshot.
    pub blocks: Vec<(String, Option<u64>)>,
    /// Blocks expected, as the caller says and as the dump says.
    pub expected_given: Option<u64>,
    pub expected_dumped: Option<u64>,
    /// Credentials that the second dump lists as registered.
    pub registered: Option<Vec<String>>,
}

/// The steps of a reward update. A value that was recomputed stands with
/// whether it agrees with the dump.
#[derive(Clone, Copy, Debug)]
pub struct Trace {
    pub total_blocks: u64,
    /// Whether the decentralization parameter is at least four fifths.
    pub federated: bool,
    pub expected_blocks: Option<u64>,
    /// Blocks produced over blocks expected, at most one.
    pub eta: (u64, u64),
    pub expansion: Option<(u64, bool)>,
    pub delta_r1: u64,
    pub pot: Option<(u64, bool)>,
    pub r_pot: u64,
    pub cut: Option<(u64, bool)>,
    pub delta_t1: u64,
    pub rest: (u64, bool),
    pub reward_pot: u64,
    pub payouts: (u64, bool),
    pub returned: (u64, bool),
    pub delta_r2: u64,
    pub next_reserves: (u64, bool),
    /// Payouts to credentials that are not registered any more.
    pub unregistered: u64,
    pub next_treasury: (u64, bool),
}

// ---- formulas ----

/// `2^64`.
pub open spec fn word() -> int {
    0x1_0000_0000_0000_0000
}

/// The floor of the product of two fractions and a number, in 64 bits.
pub open spec fn floor_of(an: u64, ad: u64, bn: u64, bd: u64, val: u64) -> u64 {
    ((an * bn * val) / (ad * bd) % word()) as u64
}

pub open spec fn floor_defined(an: u64, ad: u64, bn: u64, bd: u64, val: u64) -> bool {
    ad > 0 && bd > 0 && an * bn * val <= u128::MAX
}

/// `floor(an/ad * bn/bd * val)`; `None` where a denominator is zero or the
/// product of the numerators does not fit.
pub fn floor_mul3(an: u64, ad: u64, bn: u64, bd: u64, val: u64) -> (r: Option<u64>)
    ensures
        r == if floor_defined(an, ad, bn, bd, val) {
            Some(floor_of(an, ad, bn, bd, val))
        } else {
            None::<u64>
        },
{
    if ad == 0 || bd == 0 {
        return None;
    }
    proof {
        assert(0 <= an * bn <= 0xffff_ffff_ffff_ffff * 0xffff_ffff_ffff_ffff) by (nonlinear_arith)
            requires
                0 <= an <= 0xffff_ffff_ffff_ffff,
                0 <= bn <= 0xffff_ffff_ffff_ffff,
        ;
        assert(0 < ad * bd <= 0xffff_ffff_ffff_ffff * 0xffff_ffff_ffff_ffff) by (nonlinear_arith)
            requires
                0 < ad <= 0xffff_ffff_ffff_ffff,
                0 < bd <= 0xffff_ffff_ffff_ffff,
        ;
        assert(an * bn * val >= 0) by (nonlinear_arith)
            requires
                an * bn >= 0,
                val >= 0,
        ;
    }
    let ab: u128 = an as u128 * bn as u128;
    match ab.checked_mul(val as u128) {
        Some(n) => {
            let q: u128 = n / (ad as u128 * bd as u128);
            Some((q % 0x1_0000_0000_0000_0000) as u64)
        },
        None => None,
    }
}

/// Whether the decentralization parameter is at least four fifths.
pub open spec fn is_federated(d: Option<(u64, u64)>) -> bool {
    d matches Some((n, m)) && n * 5 >= m * 4
}

pub open spec fn expected_of(i: TraceInput) -> Option<u64> {
    match i.expected_given {
        Some(x) => Some(x),
        None => i.expected_dumped,
    }
}

/// Blocks produced over blocks expected, at most one; one where the chain is
/// federated, and zero where nothing is expected.
pub open spec fn eta_of(i: TraceInput) -> (u64, u64) {
    let blocks = record_total(i.blocks@) as u64;
    if is_federated(i.d) {
        (1, 1)
    } else {
        match expected_of(i) {
            Some(x) => if blocks >= x {
                (x, x)
            } else {
                (blocks, x)
            },
            None => (0, 1),
        }
    }
}

pub open spec fn or_zero(x: Option<u64>) -> u64 {
    match x {
        Some(n) => n,
        None => 0,
    }
}

fn number_or_zero(x: Option<u64>) -> (r: u64)
    ensures
        r == or_zero(x),
{
    match x {
        Some(n) => n,
        None => 0,
    }
}

pub open spec fn left(a: u64, b: u64) -> u64 {
    if a >= b {
        (a - b) as u64
    } else {
        0
    }
}

fn take_from(a: u64, b: u64) -> (r: u64)
    ensures
        r == left(a, b),
{
    if a >= b {
        a - b
    } else {
        0
    }
}

// ---- payouts ----

pub open spec fn payout_list(i: TraceInput) -> Seq<(String, Option<u64>)> {
    match i.payouts {
        Some(l) => l@,
        None => Seq::empty(),
    }
}

pub open spec fn names_of(l: Seq<String>) -> Set<Seq<char>>
    decreases l.len(),
{
    if l.len() == 0 {
        Set::empty()
    } else {
        names_of(l.drop_last()).insert(normalized(l.last()@))
    }
}

/// The credentials that are registered at the second dump.
pub open spec fn registered_names(i: TraceInput) -> Set<Seq<char>> {
    match i.registered {
        Some(l) => names_of(l@),
        None => Set::empty(),
    }
}

/// Payouts whose credential is not registered.
pub open spec fn unregistered_payouts(l: Seq<(String, Option<u64>)>, names: Set<Seq<char>>) -> Seq<
    (String, Option<u64>),
>
    decreases l.len(),
{
    if l.len() == 0 {
        Seq::empty()
    } else {
        let t = unregistered_payouts(l.drop_last(), names);
        if names.contains(normalized(l.last().0@)) {
            t
        } else {
            t.push(l.last())
        }
    }
}

pub open spec fn unregistered_total(i: TraceInput) -> nat {
    record_total(unregistered_payouts(payout_list(i), registered_names(i)))
}

/// Every credential in a list can be normalized.
pub open spec fn credentials_cut(l: Seq<String>) -> bool {
    forall|k: int| 0 <= k < l.len() ==> cred_cuts(#[trigger] l[k]@)
}

fn check_credentials(l: &Vec<String>) -> (r: bool)
    ensures
        r == credentials_cut(l@),
{
    let mut i: usize = 0;
    while i < l.len()
        invariant
            i <= l@.len(),
            forall|k: int| 0 <= k < i ==> cred_cuts(#[trigger] l@[k]@),
        decreases l@.len() - i,
    {
        if !can_normalize(l[i].as_str()) {
            assert(!cred_cuts(l@[i as int]@));
            return false;
        }
        i += 1;
    }
    true
}

/// Every name in the trace can be normalized.
pub open spec fn trace_cuts(i: TraceInput) -> bool {
    &&& i.registered matches Some(l) ==> credentials_cut(l@)
    &&& names_cut(payout_list(i))
}

fn name_set(l: &Option<Vec<String>>) -> (r: KeySet<String>)
    requires
        l matches Some(l) ==> credentials_cut(l@),
    ensures
        r@ == match *l {
            Some(l) => names_of(l@),
            None => Set::<Seq<char>>::empty(),
        },
{
    let mut r: KeySet<String> = KeySet::new();
    if let Some(l) = l {
        let mut i: usize = 0;
        while i < l.len()
            invariant
                i <= l@.len(),
                credentials_cut(l@),
                r@ == names_of(l@.take(i as int)),
            decreases l@.len() - i,
        {
            proof {
                assert(l@.take(i + 1).drop_last() =~= l@.take(i as int));
                assert(l@.take(i + 1).last() == l@[i as int]);
            }
            r.insert(normalize_cred(l[i].as_str()));
            i += 1;
        }
        assert(l@.take(i as int) =~= l@);
    }
    r
}

/// Amounts under their names, as characters.
pub open spec fn amounts_listed(l: Seq<(String, Option<u64>)>) -> Seq<(Seq<char>, u64)> {
    Seq::new(l.len(), |i: int| (l[i].0@, or_zero(l[i].1)))
}

pub open spec fn listed(l: Seq<(String, u64)>) -> Seq<(Seq<char>, u64)> {
    Seq::new(l.len(), |i: int| (l[i].0@, l[i].1))
}

proof fn lemma_unregistered_total(l: Seq<(String, Option<u64>)>, names: Set<Seq<char>>)
    ensures
        record_total(unregistered_payouts(l, names)) <= record_total(l),
    decreases l.len(),
{
    if l.len() > 0 {
        lemma_unregistered_total(l.drop_last(), names);
        let t = unregistered_payouts(l.drop_last(), names);
        assert(t.push(l.last()).drop_last() =~= t);
    }
}

proof fn lemma_total_grows(l: Seq<(String, Option<u64>)>, i: int)
    requires
        0 <= i <= l.len(),
    ensures
        record_total(l.take(i)) <= record_total(l),
    decreases l.len() - i,
{
    if i == l.len() {
        assert(l.take(i) =~= l);
    } else {
        assert(l.take(i + 1).drop_last() =~= l.take(i));
        lemma_total_grows(l, i + 1);
    }
}

impl TraceInput {
    /// Whether every name in the trace can be normalized.
    pub fn names_cut(&self) -> (r: bool)
        ensures
            r == trace_cuts(*self),
    {
        let registered: bool = match &self.registered {
            Some(l) => check_credentials(l),
            None => true,
        };
        registered && match &self.payouts {
            Some(l) => check_names(l),
            None => true,
        }
    }

    /// Payouts to credentials that are not registered any more, in order.
    pub fn unregistered(&self) -> (r: Vec<(String, u64)>)
        requires
            trace_cuts(*self),
        ensures
            listed(r@) == amounts_listed(unregistered_payouts(payout_list(*self), registered_names(*self))),
    {
        let names = name_set(&self.registered);
        let mut r: Vec<(String, u64)> = Vec::new();
        if let Some(l) = &self.payouts {
            let ghost s = l@;
            let mut i: usize = 0;
            assert(listed(r@) =~= amounts_listed(unregistered_payouts(s.take(0), names@)));
            while i < l.len()
                invariant
                    i <= l@.len(),
                    s == l@,
                    names_cut(l@),
                    listed(r@) == amounts_listed(unregistered_payouts(s.take(i as int), names@)),
                decreases l@.len() - i,
            {
                let ghost before = r@;
                let ghost t = unregistered_payouts(s.take(i as int), names@);
                proof {
                    assert(s.take(i + 1).drop_last() =~= s.take(i as int));
                    assert(s.take(i + 1).last() == s[i as int]);
                }
                if !names.contains(&normalize_cred(l[i].0.as_str())) {
                    r.push((l[i].0.as_str().to_string(), number_or_zero(l[i].1)));
                    proof {
                        assert(listed(r@) =~= listed(before).push((s[i as int].0@, or_zero(s[i as int].1))));
                        assert(amounts_listed(t.push(s[i as int])) =~= amounts_listed(t).push(
                            (s[i as int].0@, or_zero(s[i as int].1)),
                        ));
                    }
                }
                i += 1;
            }
            assert(s.take(i as int) =~= s);
        } else {
            assert(listed(r@) =~= amounts_listed(Seq::empty()));
        }
        r
    }

    fn unregistered_sum(&self) -> (r: u64)
        requires
            record_total(payout_list(*self)) <= u64::MAX,
            trace_cuts(*self),
        ensures
            r == unregistered_total(*self),
    {
        let names = name_set(&self.registered);
        let mut sum: u64 = 0;
        if let Some(l) = &self.payouts {
            let ghost s = l@;
            let mut i: usize = 0;
            while i < l.len()
                invariant
                    i <= l@.len(),
                    s == l@,
                    names_cut(l@),
                    record_total(s) <= u64::MAX,
                    sum == record_total(unregistered_payouts(s.take(i as int), names@)),
                decreases l@.len() - i,
            {
                proof {
                    let t = unregistered_payouts(s.take(i as int), names@);
                    assert(s.take(i + 1).drop_last() =~= s.take(i as int));
                    assert(s.take(i + 1).last() == s[i as int]);
                    assert(t.push(s[i as int]).drop_last() =~= t);
                    lemma_unregistered_total(s.take(i + 1), names@);
                    lemma_total_grows(s, i + 1);
                }
                if !names.contains(&normalize_cred(l[i].0.as_str())) {
                    sum += number_or_zero(l[i].1);
                }
                i += 1;
            }
            assert(s.take(i as int) =~= s);
        }
        sum
    }
}

// ---- the trace ----

/// A value that was recomputed, where the dump must have it.
pub open spec fn must_agree(x: u64, dumped: Option<u64>) -> (u64, bool) {
    (x, dumped == Some(x))
}

/// A value that was recomputed, where the dump may lack it.
pub open spec fn may_agree(x: u64, dumped: Option<u64>) -> (u64, bool) {
    (x, dumped is None || dumped == Some(x))
}

pub open spec fn pot_of(i: TraceInput) -> u64 {
    match i.rupd.r_pot {
        Some(x) => x,
        None => (or_zero(i.rupd.delta_r1) + or_zero(i.fees)) as u64,
    }
}

/// Nothing in the trace divides by zero or leaves its range, and its names can
/// be normalized.
pub open spec fn trace_fits(i: TraceInput) -> bool {
    &&& trace_cuts(i)
    &&& i.epoch < u64::MAX
    &&& record_total(i.blocks@) <= u64::MAX
    &&& record_total(payout_list(i)) <= u64::MAX
    &&& or_zero(i.rupd.delta_r1) + or_zero(i.fees) <= u64::MAX
    &&& (i.rho is Some && i.expected_given is Some) ==> floor_defined(
        eta_of(i).0,
        eta_of(i).1,
        (i.rho->0).0,
        (i.rho->0).1,
        i.reserves,
    )
    &&& i.tau is Some ==> (i.tau->0).1 > 0
    &&& i.treasury + or_zero(i.rupd.delta_t1) + unregistered_total(i) <= u64::MAX
}

/// The steps of a reward update: the expansion `Δr₁ = ⌊η·ρ·reserves⌋`, the pot
/// `fees + Δr₁`, the treasury cut `Δt₁ = ⌊τ·pot⌋`, what is left for the pools,
/// what is paid out and what goes back to the reserves, `Δr₂`; then the
/// reserves and the treasury of the next epoch.
pub open spec fn traced(i: TraceInput) -> Trace {
    let eta = eta_of(i);
    let delta_r1 = or_zero(i.rupd.delta_r1);
    let delta_t1 = or_zero(i.rupd.delta_t1);
    let r_pot = pot_of(i);
    let rest = left(r_pot, delta_t1);
    let reward_pot = match i.rupd.reward_pot {
        Some(x) => x,
        None => rest,
    };
    let paid = record_total(payout_list(i)) as u64;
    let returned = left(reward_pot, paid);
    let delta_r2 = match i.rupd.delta_r2 {
        Some(x) => x,
        None => returned,
    };
    let reserves = ((i.reserves - delta_r1 + delta_r2) % word()) as u64;
    let unregistered = unregistered_total(i) as u64;
    let treasury = (i.treasury + delta_t1 + unregistered) as u64;
    Trace {
        total_blocks: record_total(i.blocks@) as u64,
        federated: is_federated(i.d),
        expected_blocks: expected_of(i),
        eta,
        expansion: match (i.rho, i.expected_given) {
            (Some((n, d)), Some(_)) => Some(
                must_agree(floor_of(eta.0, eta.1, n, d, i.reserves), i.rupd.delta_r1),
            ),
            _ => None,
        },
        delta_r1,
        pot: match i.fees {
            Some(f) => Some(((f + delta_r1) as u64, f + delta_r1 == r_pot)),
            None => None,
        },
        r_pot,
        cut: match i.tau {
            Some((n, d)) => Some(must_agree(((r_pot * n) / d as int % word()) as u64, i.rupd.delta_t1)),
            None => None,
        },
        delta_t1,
        rest: may_agree(rest, i.rupd.reward_pot),
        reward_pot,
        payouts: may_agree(paid, i.rupd.total_distributed),
        returned: may_agree(returned, i.rupd.delta_r2),
        delta_r2,
        next_reserves: (reserves, reserves == i.next_reserves),
        unregistered,
        next_treasury: (treasury, treasury == i.next_treasury),
    }
}

/// Both carry-forward checks hold.
pub open spec fn trace_passes(t: Trace) -> bool {
    t.next_reserves.1 && t.next_treasury.1
}

fn check_must(x: u64, dumped: Option<u64>) -> (r: (u64, bool))
    ensures
        r == must_agree(x, dumped),
{
    (x, same_option(dumped, Some(x)))
}

fn check_may(x: u64, dumped: Option<u64>) -> (r: (u64, bool))
    ensures
        r == may_agree(x, dumped),
{
    (x, dumped.is_none() || same_option(dumped, Some(x)))
}

/// The reserves after the expansion was taken and the rest came back, in 64
/// bits.
fn carry_reserves(reserves: u64, delta_r1: u64, delta_r2: u64) -> (r: u64)
    ensures
        r == ((reserves - delta_r1 + delta_r2) % word()) as u64,
{
    let x: i128 = reserves as i128 - delta_r1 as i128 + delta_r2 as i128;
    if x < 0 {
        assert((x + word()) % word() == (x as int) % word()) by {
            vstd::arithmetic::div_mod::lemma_mod_add_multiples_vanish(x as int, word());
        }
        (x + 0x1_0000_0000_0000_0000) as u64
    } else if x >= 0x1_0000_0000_0000_0000 {
        assert((x - word()) % word() == (x as int) % word()) by {
            vstd::arithmetic::div_mod::lemma_mod_sub_multiples_vanish(x as int, word());
        }
        (x - 0x1_0000_0000_0000_0000) as u64
    } else {
        x as u64
    }
}

fn cut_of(pot: u64, n: u64, d: u64) -> (r: u64)
    requires
        d > 0,
    ensures
        r == ((pot * n) / d as int % word()) as u64,
{
    proof {
        assert(0 <= pot * n <= 0xffff_ffff_ffff_ffff * 0xffff_ffff_ffff_ffff) by (nonlinear_arith)
            requires
                0 <= pot <= 0xffff_ffff_ffff_ffff,
                0 <= n <= 0xffff_ffff_ffff_ffff,
        ;
    }
    let q: u128 = (pot as u128 * n as u128) / d as u128;
    (q % 0x1_0000_0000_0000_0000) as u64
}

impl TraceInput {
    fn eta(&self, blocks: u64, federated: bool) -> (r: (u64, u64))
        requires
            blocks == record_total(self.blocks@),
            federated == is_federated(self.d),
        ensures
            r == eta_of(*self),
    {
        if federated {
            return (1, 1);
        }
        let expected = match self.expected_given {
            Some(x) => Some(x),
            None => self.expected_dumped,
        };
        match expected {
            Some(x) => {
                if blocks >= x {
                    (x, x)
                } else {
                    (blocks, x)
                }
            },
            None => (0, 1),
        }
    }

    fn total_payouts(&self) -> (r: Option<u64>)
        ensures
            r == if record_total(payout_list(*self)) <= u64::MAX {
                Some(record_total(payout_list(*self)) as u64)
            } else {
                None::<u64>
            },
    {
        match &self.payouts {
            Some(l) => total_of(l),
            None => Some(0),
        }
    }

    fn expansion(&self, eta: (u64, u64)) -> (r: Option<Option<u64>>)
        ensures
            match r {
                Some(x) => ((self.rho is Some && self.expected_given is Some) ==> floor_defined(
                    eta.0,
                    eta.1,
                    (self.rho->0).0,
                    (self.rho->0).1,
                    self.reserves,
                )) && x == match (self.rho, self.expected_given) {
                    (Some((n, d)), Some(_)) => Some(floor_of(eta.0, eta.1, n, d, self.reserves)),
                    _ => None::<u64>,
                },
                None => self.rho is Some && self.expected_given is Some && !floor_defined(
                    eta.0,
                    eta.1,
                    (self.rho->0).0,
                    (self.rho->0).1,
                    self.reserves,
                ),
            },
    {
        match (self.rho, self.expected_given) {
            (Some((n, d)), Some(_)) => match floor_mul3(eta.0, eta.1, n, d, self.reserves) {
                Some(x) => Some(Some(x)),
                None => None,
            },
            _ => Some(None),
        }
    }

    /// Recomputes the reward update; `None` where a step divides by zero or
    /// leaves its range, or where a name cannot be normalized.
    pub fn trace(&self) -> (r: Option<Trace>)
        ensures
            match r {
                Some(t) => trace_fits(*self) && t == traced(*self),
                None => !trace_fits(*self),
            },
    {
        if self.epoch == u64::MAX || !self.names_cut() {
            return None;
        }
        let blocks: u64 = match total_of(&self.blocks) {
            Some(x) => x,
            None => {
                return None;
            },
        };
        let paid: u64 = match self.total_payouts() {
            Some(x) => x,
            None => {
                return None;
            },
        };
        let federated: bool = match self.d {
            Some((n, m)) => n as u128 * 5 >= m as u128 * 4,
            None => false,
        };
        let eta = self.eta(blocks, federated);
        let delta_r1: u64 = number_or_zero(self.rupd.delta_r1);
        let delta_t1: u64 = number_or_zero(self.rupd.delta_t1);
        let whole_pot: u64 = match delta_r1.checked_add(number_or_zero(self.fees)) {
            Some(x) => x,
            None => {
                return None;
            },
        };
        let expansion = match self.expansion(eta) {
            Some(x) => x,
            None => {
                return None;
            },
        };
        let r_pot: u64 = match self.rupd.r_pot {
            Some(x) => x,
            None => whole_pot,
        };
        let cut = match self.tau {
            Some((n, d)) => {
                if d == 0 {
                    return None;
                }
                Some(check_must(cut_of(r_pot, n, d), self.rupd.delta_t1))
            },
            None => None,
        };
        let unregistered: u64 = self.unregistered_sum();
        let treasury: u128 = self.treasury as u128 + delta_t1 as u128 + unregistered as u128;
        if treasury > u64::MAX as u128 {
            return None;
        }
        let treasury: u64 = treasury as u64;
        let rest: u64 = take_from(r_pot, delta_t1);
        let reward_pot: u64 = match self.rupd.reward_pot {
            Some(x) => x,
            None => rest,
        };
        let returned: u64 = take_from(reward_pot, paid);
        let delta_r2: u64 = match self.rupd.delta_r2 {
            Some(x) => x,
            None => returned,
        };
        let reserves: u64 = carry_reserves(self.reserves, delta_r1, delta_r2);
        Some(
            Trace {
                total_blocks: blocks,
                federated,
                expected_blocks: match self.expected_given {
                    Some(x) => Some(x),
                    None => self.expected_dumped,
                },
                eta,
                expansion: match expansion {
                    Some(x) => Some(check_must(x, self.rupd.delta_r1)),
                    None => None,
                },
                delta_r1,
                pot: match self.fees {
                    Some(_) => Some((whole_pot, whole_pot == r_pot)),
                    None => None,
                },
                r_pot,
                cut,
                delta_t1,
                rest: check_may(rest, self.rupd.reward_pot),
                reward_pot,
                payouts: check_may(paid, self.rupd.total_distributed),
                returned: check_may(returned, self.rupd.delta_r2),
                delta_r2,
                next_reserves: (reserves, reserves == self.next_reserves),
                unregistered,
                next_treasury: (treasury, treasury == self.next_treasury),
            },
        )
    }
}

impl Trace {
    /// Whether both carry-forward checks hold.
    pub fn passed(&self) -> (r: bool)
        ensures
            r == trace_passes(*self),
    {
        self.next_reserves.1 && self.next_treasury.1
    }
}

/// A dump in which every value of the update is there and was computed from
/// the one before it conserves lovelace: what the reserves and the treasury
/// hold afterwards, with what was paid to registered credentials, is what
/// reserves, treasury and fees held before.
pub proof fn law_trace_conserves(i: TraceInput)
    requires
        trace_fits(i),
        i.fees is Some,
        i.rupd.delta_r1 is Some,
        (traced(i).pot->0).1,
        traced(i).delta_t1 <= traced(i).r_pot,
        i.rupd.reward_pot == Some(traced(i).rest.0),
        traced(i).payouts.0 <= traced(i).reward_pot,
        i.rupd.delta_r2 == Some(traced(i).returned.0),
        traced(i).delta_r1 <= i.reserves,
        i.reserves + i.treasury + i.fees->0 <= u64::MAX,
    ensures
        traced(i).next_reserves.0 + traced(i).next_treasury.0 + (traced(i).payouts.0 - traced(i).unregistered)
            == i.reserves + i.treasury + i.fees->0,
{
    lemma_unregistered_total(payout_list(i), registered_names(i));
}

// ---- what was applied ----

pub open spec fn applied_chars(key: Seq<char>, a: Option<u64>, b: Option<u64>) -> Seq<char> {
    key + ": rupdNext="@ + optional_chars(a) + "  rupdApplied="@ + optional_chars(b)
}

pub open spec fn applied_checked(l: Seq<Seq<char>>, key: Seq<char>, a: Option<u64>, b: Option<u64>) -> Seq<Seq<char>> {
    if a == b {
        l
    } else {
        l.push(applied_chars(key, a, b))
    }
}

/// The values in which an update and the one that was applied differ.
pub open spec fn applied_differs(a: RewardRecord, b: RewardRecord) -> Seq<Seq<char>> {
    let l = applied_checked(Seq::empty(), "deltaR1"@, a.delta_r1, b.delta_r1);
    let l = applied_checked(l, "deltaR2"@, a.delta_r2, b.delta_r2);
    let l = applied_checked(l, "deltaT1"@, a.delta_t1, b.delta_t1);
    let l = applied_checked(l, "rPot"@, a.r_pot, b.r_pot);
    let l = applied_checked(l, "rewardPot"@, a.reward_pot, b.reward_pot);
    applied_checked(l, "totalDistributed"@, a.total_distributed, b.total_distributed)
}

pub open spec fn lines(s: Seq<String>) -> Seq<Seq<char>> {
    Seq::new(s.len(), |i: int| s[i]@)
}

fn check_applied(out: &mut Vec<String>, key: &str, a: Option<u64>, b: Option<u64>)
    ensures
        lines(final(out)@) == applied_checked(lines(old(out)@), key@, a, b),
{
    if !same_option(a, b) {
        let ghost l = lines(out@);
        let mut t = key.to_string();
        t.append(": rupdNext=");
        t.append(optional_text(a).as_str());
        t.append("  rupdApplied=");
        t.append(optional_text(b).as_str());
        let ghost c = t@;
        out.push(t);
        assert(lines(out@) =~= l.push(c));
    }
}

/// Compares a reward update with the one that was applied.
pub fn compare_applied(a: &RewardRecord, b: &RewardRecord) -> (r: Vec<String>)
    ensures
        lines(r@) == applied_differs(*a, *b),
{
    let mut r: Vec<String> = Vec::new();
    assert(lines(r@) =~= Seq::empty());
    check_applied(&mut r, "deltaR1", a.delta_r1, b.delta_r1);
    check_applied(&mut r, "deltaR2", a.delta_r2, b.delta_r2);
    check_applied(&mut r, "deltaT1", a.delta_t1, b.delta_t1);
    check_applied(&mut r, "rPot", a.r_pot, b.r_pot);
    check_applied(&mut r, "rewardPot", a.reward_pot, b.reward_pot);
    check_applied(&mut r, "totalDistributed", a.total_distributed, b.total_distributed);
    r
}

/// The name under which a dump lists the reward account of a pool.
pub fn account_key(cred: &str) -> (r: String)
    requires
        cuts(cred@, 56),
    ensures
        r@ == "keyHash-"@ + first_bytes(cred@, 56),
{
    let mut r = "keyHash-".to_string();
    r.append(cut(cred, 56).as_str());
    r
}

} // verus!
