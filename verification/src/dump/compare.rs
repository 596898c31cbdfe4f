//! Comparing the dump of an epoch with one that a Haskell node wrote.

use vstd::prelude::*;
use crate::dump::report::{
    differ_text, found, note, note_amount, noted, noted_amount, numbers_differ, optional_chars, optional_text, remark,
    sides, sides_text, Finding, FindingModel,
};
use crate::text::{decimal, decimal_chars};

verus! {

// ---- what a dump file holds ----

/// Pool parameters of a snapshot.
pub struct PoolRecord {
    pub id: String,
    pub pledge: Option<u64>,
    pub cost: Option<u64>,
}

/// A stake snapshot. A value that is no whole number is `None`.
pub struct SnapshotRecord {
    pub stake: Vec<(String, Option<u64>)>,
    pub pools: Option<Vec<PoolRecord>>,
}

/// A reward update.
pub struct RewardRecord {
    pub delta_r1: Option<u64>,
    pub delta_r2: Option<u64>,
    pub delta_t1: Option<u64>,
    pub r_pot: Option<u64>,
    pub reward_pot: Option<u64>,
    pub total_distributed: Option<u64>,
}

/// Deposits by kind.
pub struct DepositRecord {
    pub stake_key: Option<u64>,
    pub pool: Option<u64>,
    pub drep: Option<u64>,
    pub proposal: Option<u64>,
    pub total: Option<u64>,
}

/// The transactions of the last enacted actions.
pub struct EnactRecord {
    pub committee: Option<String>,
    pub constitution: Option<String>,
    pub hard_fork: Option<String>,
    pub pparam_update: Option<String>,
}

/// The governance part of a dump.
pub struct GovernanceRecord {
    /// Number of committee members.
    pub members: Option<u64>,
    pub threshold_numerator: Option<u64>,
    pub threshold_denominator: Option<u64>,
    pub constitution_url: Option<String>,
    /// Stake of each representative.
    pub dreps: Option<Vec<(String, Option<u64>)>>,
    pub enacted: Option<EnactRecord>,
}

/// What a comparison reads from a dump. A field that is missing or null is
/// `None`; a snapshot that is null is `Some(None)`.
pub struct DumpRecord {
    pub treasury: Option<u64>,
    pub reserves: Option<u64>,
    pub epoch_fees: Option<u64>,
    pub active_stake: Option<u64>,
    pub deposits: DepositRecord,
    /// The number of pools aimed at, where there are parameters.
    pub n_opt: Option<Option<u64>>,
    pub rupd: Option<RewardRecord>,
    pub rupd_next: Option<RewardRecord>,
    pub era: Option<String>,
    pub governance: Option<GovernanceRecord>,
    pub mark: Option<Option<SnapshotRecord>>,
    pub set: Option<Option<SnapshotRecord>>,
    pub go: Option<Option<SnapshotRecord>>,
}

// ---- sums ----

/// The sum of the values that are numbers.
pub open spec fn record_total(l: Seq<(String, Option<u64>)>) -> nat
    decreases l.len(),
{
    if l.len() == 0 {
        0
    } else {
        record_total(l.drop_last()) + match l.last().1 {
            Some(n) => n as nat,
            None => 0,
        }
    }
}

proof fn lemma_record_total_prefix(l: Seq<(String, Option<u64>)>, i: int)
    requires
        0 <= i <= l.len(),
    ensures
        record_total(l.take(i)) <= record_total(l),
    decreases l.len() - i,
{
    if i == l.len() {
        assert(l.take(i) =~= l);
    } else {
        assert(l.take(i + 1).drop_last() =~= l.take(i));
        lemma_record_total_prefix(l, i + 1);
    }
}

/// Adds up the values that are numbers; `None` where the sum does not fit.
pub fn total_of(l: &Vec<(String, Option<u64>)>) -> (r: Option<u64>)
    ensures
        r == if record_total(l@) <= u64::MAX {
            Some(record_total(l@) as u64)
        } else {
            None::<u64>
        },
{
    let mut sum: u64 = 0;
    let mut i: usize = 0;
    while i < l.len()
        invariant
            i <= l@.len(),
            sum == record_total(l@.take(i as int)),
        decreases l@.len() - i,
    {
        proof {
            assert(l@.take(i + 1).drop_last() =~= l@.take(i as int));
            assert(l@.take(i + 1).last() == l@[i as int]);
            lemma_record_total_prefix(l@, i + 1);
        }
        let x: u64 = match l[i].1 {
            Some(n) => n,
            None => 0,
        };
        match sum.checked_add(x) {
            Some(s) => {
                sum = s;
            },
            None => {
                return None;
            },
        }
        i += 1;
    }
    assert(l@.take(i as int) =~= l@);
    Some(sum)
}

pub open spec fn drep_total(g: GovernanceRecord) -> nat {
    match g.dreps {
        Some(l) => record_total(l@),
        None => 0,
    }
}

// ---- numbers ----

/// How a comparison words a number that stands in one dump only.
#[derive(Clone, Copy, PartialEq, Eq, Structural)]
pub enum Wording {
    /// Only which dump lacks it.
    Short,
    /// The number and which dump lacks it.
    Number,
    /// Both sides, one of them as missing.
    Sides,
}

pub open spec fn only_haskell(place: Seq<char>, h: u64, w: Wording) -> Seq<char> {
    match w {
        Wording::Short => place + ": missing in hayate"@,
        Wording::Number => place + ": haskell="@ + decimal_chars(h as nat) + ", missing in hayate"@,
        Wording::Sides => sides(place, decimal_chars(h as nat), "missing"@),
    }
}

pub open spec fn only_hayate(place: Seq<char>, r: u64, w: Wording) -> Seq<char> {
    match w {
        Wording::Short => place + ": missing in haskell"@,
        Wording::Number => place + ": missing in haskell, hayate="@ + decimal_chars(r as nat),
        Wording::Sides => sides(place, "missing"@, decimal_chars(r as nat)),
    }
}

/// Two numbers, each of which may be missing, are compared. Where they are
/// amounts the difference is also noted as such.
pub open spec fn number_compared(
    l: Seq<FindingModel>,
    place: Seq<char>,
    h: Option<u64>,
    r: Option<u64>,
    w: Wording,
    amount: bool,
) -> Seq<FindingModel> {
    match (h, r) {
        (Some(h), Some(r)) => if h == r {
            l
        } else if amount {
            noted_amount(l, numbers_differ(place, h, r), r - h)
        } else {
            noted(l, numbers_differ(place, h, r))
        },
        (Some(h), None) => noted(l, only_haskell(place, h, w)),
        (None, Some(r)) => noted(l, only_hayate(place, r, w)),
        (None, None) => l,
    }
}

/// Compares two numbers.
pub fn compare_u64(out: &mut Vec<Finding>, place: &str, h: Option<u64>, r: Option<u64>, w: Wording, amount: bool)
    ensures
        found(final(out)@) == number_compared(found(old(out)@), place@, h, r, w, amount),
{
    match (h, r) {
        (Some(h), Some(r)) => {
            if h != r {
                let text = differ_text(place, h, r);
                if amount {
                    note_amount(out, text, h, r);
                } else {
                    note(out, text);
                }
            }
        },
        (Some(h), None) => {
            let text = match w {
                Wording::Short => remark(place, ": missing in hayate"),
                Wording::Number => {
                    let mut t = remark(place, ": haskell=");
                    t.append(decimal(h).as_str());
                    t.append(", missing in hayate");
                    t
                },
                Wording::Sides => sides_text(place, decimal(h).as_str(), "missing"),
            };
            note(out, text);
        },
        (None, Some(r)) => {
            let text = match w {
                Wording::Short => remark(place, ": missing in haskell"),
                Wording::Number => {
                    let mut t = remark(place, ": missing in haskell, hayate=");
                    t.append(decimal(r).as_str());
                    t
                },
                Wording::Sides => sides_text(place, "missing", decimal(r).as_str()),
            };
            note(out, text);
        },
        (None, None) => {},
    }
}

/// Deposits are compared kind by kind.
pub open spec fn deposits_compared(l: Seq<FindingModel>, h: DepositRecord, r: DepositRecord) -> Seq<FindingModel> {
    let l = number_compared(l, "deposits.stakeKey"@, h.stake_key, r.stake_key, Wording::Short, false);
    let l = number_compared(l, "deposits.pool"@, h.pool, r.pool, Wording::Short, false);
    let l = number_compared(l, "deposits.dRep"@, h.drep, r.drep, Wording::Short, false);
    let l = number_compared(l, "deposits.proposal"@, h.proposal, r.proposal, Wording::Short, false);
    number_compared(l, "deposits.total"@, h.total, r.total, Wording::Short, false)
}

pub fn compare_deposits(out: &mut Vec<Finding>, h: &DepositRecord, r: &DepositRecord)
    ensures
        found(final(out)@) == deposits_compared(found(old(out)@), *h, *r),
{
    compare_u64(out, "deposits.stakeKey", h.stake_key, r.stake_key, Wording::Short, false);
    compare_u64(out, "deposits.pool", h.pool, r.pool, Wording::Short, false);
    compare_u64(out, "deposits.dRep", h.drep, r.drep, Wording::Short, false);
    compare_u64(out, "deposits.proposal", h.proposal, r.proposal, Wording::Short, false);
    compare_u64(out, "deposits.total", h.total, r.total, Wording::Short, false);
}

/// Two numbers that should agree, missing or not.
pub open spec fn optional_compared(l: Seq<FindingModel>, place: Seq<char>, h: Option<u64>, r: Option<u64>) -> Seq<
    FindingModel,
> {
    if h == r {
        l
    } else {
        noted(l, sides(place, optional_chars(h), optional_chars(r)))
    }
}

pub fn same_option(h: Option<u64>, r: Option<u64>) -> (b: bool)
    ensures
        b == (h == r),
{
    match (h, r) {
        (Some(a), Some(b)) => a == b,
        (None, None) => true,
        _ => false,
    }
}

pub fn compare_optional(out: &mut Vec<Finding>, place: &str, h: Option<u64>, r: Option<u64>)
    ensures
        found(final(out)@) == optional_compared(found(old(out)@), place@, h, r),
{
    if !same_option(h, r) {
        note(out, sides_text(place, optional_text(h).as_str(), optional_text(r).as_str()));
    }
}

/// The whole-number parameters are compared where both dumps have parameters.
pub open spec fn params_compared(l: Seq<FindingModel>, h: Option<Option<u64>>, r: Option<Option<u64>>) -> Seq<
    FindingModel,
> {
    match (h, r) {
        (Some(h), Some(r)) => optional_compared(l, "protocolParams.nOpt"@, h, r),
        _ => l,
    }
}

pub fn compare_protocol_params(out: &mut Vec<Finding>, h: Option<Option<u64>>, r: Option<Option<u64>>)
    ensures
        found(final(out)@) == params_compared(found(old(out)@), h, r),
{
    match (h, r) {
        (Some(h), Some(r)) => compare_optional(out, "protocolParams.nOpt", h, r),
        _ => {},
    }
}

// ---- reward updates ----

/// Where the values of a reward update stand: the update that the Haskell node
/// computed in one epoch is the one that was applied in the next.
pub open spec fn reward_place(epoch: u64, key: Seq<char>) -> Seq<char> {
    "rupdNext (haskell["@ + decimal_chars(epoch as nat) + "] vs hayate["@ + decimal_chars((epoch + 1) as nat) + "])."@
        + key
}

fn reward_place_text(epoch: u64, key: &str) -> (r: String)
    requires
        epoch < u64::MAX,
    ensures
        r@ == reward_place(epoch, key@),
{
    let mut r = "rupdNext (haskell[".to_string();
    r.append(decimal(epoch).as_str());
    r.append("] vs hayate[");
    r.append(decimal(epoch + 1).as_str());
    r.append("]).");
    r.append(key);
    r
}

pub open spec fn reward_compared(
    l: Seq<FindingModel>,
    epoch: u64,
    key: Seq<char>,
    h: Option<u64>,
    r: Option<u64>,
) -> Seq<FindingModel> {
    number_compared(l, reward_place(epoch, key), h, r, Wording::Number, true)
}

fn compare_reward(out: &mut Vec<Finding>, epoch: u64, key: &str, h: Option<u64>, r: Option<u64>)
    requires
        epoch < u64::MAX,
    ensures
        found(final(out)@) == reward_compared(found(old(out)@), epoch, key@, h, r),
{
    let place = reward_place_text(epoch, key);
    compare_u64(out, place.as_str(), h, r, Wording::Number, true);
}

/// Reward updates are compared value by value.
pub open spec fn rewards_compared(l: Seq<FindingModel>, epoch: u64, h: RewardRecord, r: RewardRecord) -> Seq<
    FindingModel,
> {
    let l = reward_compared(l, epoch, "deltaR1"@, h.delta_r1, r.delta_r1);
    let l = reward_compared(l, epoch, "deltaR2"@, h.delta_r2, r.delta_r2);
    let l = reward_compared(l, epoch, "deltaT1"@, h.delta_t1, r.delta_t1);
    let l = reward_compared(l, epoch, "rPot"@, h.r_pot, r.r_pot);
    let l = reward_compared(l, epoch, "rewardPot"@, h.reward_pot, r.reward_pot);
    reward_compared(l, epoch, "totalDistributed"@, h.total_distributed, r.total_distributed)
}

pub fn compare_rewards(out: &mut Vec<Finding>, epoch: u64, h: &RewardRecord, r: &RewardRecord)
    requires
        epoch < u64::MAX,
    ensures
        found(final(out)@) == rewards_compared(found(old(out)@), epoch, *h, *r),
{
    compare_reward(out, epoch, "deltaR1", h.delta_r1, r.delta_r1);
    compare_reward(out, epoch, "deltaR2", h.delta_r2, r.delta_r2);
    compare_reward(out, epoch, "deltaT1", h.delta_t1, r.delta_t1);
    compare_reward(out, epoch, "rPot", h.r_pot, r.r_pot);
    compare_reward(out, epoch, "rewardPot", h.reward_pot, r.reward_pot);
    compare_reward(out, epoch, "totalDistributed", h.total_distributed, r.total_distributed);
}

/// The reward update of a Haskell dump: the one for the next boundary, or else
/// the one that it has.
pub open spec fn reward_of(h: DumpRecord) -> Option<RewardRecord> {
    match h.rupd_next {
        Some(x) => Some(x),
        None => h.rupd,
    }
}

/// The reward update of an epoch against the one that the next dump applied.
pub open spec fn rupd_compared(l: Seq<FindingModel>, h: DumpRecord, next: DumpRecord, epoch: u64) -> Seq<
    FindingModel,
> {
    match reward_of(h) {
        None => noted(l, "rupdNext: missing in haskell["@ + decimal_chars(epoch as nat) + "]"@),
        Some(hr) => match next.rupd {
            None => noted(l, "rupd: missing in hayate["@ + decimal_chars((epoch + 1) as nat) + "]"@),
            Some(rr) => rewards_compared(l, epoch, hr, rr),
        },
    }
}

/// Compares the reward update of an epoch with the one applied next.
pub fn compare_rupd(out: &mut Vec<Finding>, h: &DumpRecord, next: &DumpRecord, epoch: u64)
    requires
        epoch < u64::MAX,
    ensures
        found(final(out)@) == rupd_compared(found(old(out)@), *h, *next, epoch),
{
    let hr: Option<&RewardRecord> = match &h.rupd_next {
        Some(x) => Some(x),
        None => match &h.rupd {
            Some(x) => Some(x),
            None => None,
        },
    };
    match hr {
        None => {
            let mut t = "rupdNext: missing in haskell[".to_string();
            t.append(decimal(epoch).as_str());
            t.append("]");
            note(out, t);
        },
        Some(hr) => match &next.rupd {
            None => {
                let mut t = "rupd: missing in hayate[".to_string();
                t.append(decimal(epoch + 1).as_str());
                t.append("]");
                note(out, t);
            },
            Some(rr) => compare_rewards(out, epoch, hr, rr),
        },
    }
}

// ---- eras ----

/// The names of the eras are compared where both dumps have one.
pub open spec fn era_compared(l: Seq<FindingModel>, h: Option<String>, r: Option<String>) -> Seq<FindingModel> {
    match (h, r) {
        (Some(h), Some(r)) => if h@ == r@ {
            l
        } else {
            noted(l, sides("snapshotEraName"@, h@, r@))
        },
        _ => l,
    }
}

pub fn compare_era_name(out: &mut Vec<Finding>, h: &Option<String>, r: &Option<String>)
    ensures
        found(final(out)@) == era_compared(found(old(out)@), *h, *r),
{
    match (h, r) {
        (Some(h), Some(r)) => {
            if *h != *r {
                note(out, sides_text("snapshotEraName", h.as_str(), r.as_str()));
            }
        },
        _ => {},
    }
}

} // verus!
