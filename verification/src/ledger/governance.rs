//! Conway governance (CIP-1694): proposals, votes, ratification, enactment.

use vstd::prelude::*;
use crate::item::Item;
use crate::ledger::primitives::{
    sat_add, ActionModel, DRep, EpochNo, GovActionId, GovernanceAction, Hash28, Hash32, Lovelace, ProcedureModel,
    ProtocolParamUpdate, ProtocolParameters, Rational, Vote, Voter, VotingProcedure,
};
use crate::ledger::rewards::lovelace_of;
use crate::ledger::state::{
    account_key, at_least_one, credential_to_hash, DRepModel, GovernanceModel, GovernanceState, LedgerModel,
    LedgerState, PoolModel, ProposalModel, SnapshotModel, StakeSnapshot,
};
use crate::sums::{clamp, lemma_seq_sum_prefix, lemma_seq_sum_step, map_sum, seq_sum};
use crate::table::Table;

verus! {

// ---- actions ----

/// Whether the previous action that a proposal names is the last enacted one
/// of its purpose.
pub open spec fn prev_ok(a: ActionModel, g: GovernanceModel) -> bool {
    match a {
        ActionModel::ParameterChange { prev_action_id, .. } => prev_action_id == g.enacted_pparam_update,
        ActionModel::HardForkInitiation { prev_action_id, .. } => prev_action_id == g.enacted_hard_fork,
        ActionModel::NoConfidence { prev_action_id } => prev_action_id == g.enacted_committee,
        ActionModel::UpdateCommittee { prev_action_id, .. } => prev_action_id == g.enacted_committee,
        ActionModel::NewConstitution { prev_action_id, .. } => prev_action_id == g.enacted_constitution,
        ActionModel::TreasuryWithdrawals { .. } => true,
        ActionModel::InfoAction => true,
    }
}

/// The order in which actions are ratified; the lowest comes first.
pub open spec fn priority(a: ActionModel) -> u8 {
    match a {
        ActionModel::NoConfidence { .. } => 0,
        ActionModel::UpdateCommittee { .. } => 1,
        ActionModel::NewConstitution { .. } => 2,
        ActionModel::HardForkInitiation { .. } => 3,
        ActionModel::ParameterChange { .. } => 4,
        ActionModel::TreasuryWithdrawals { .. } => 5,
        ActionModel::InfoAction => 6,
    }
}

/// Whether no further action is ratified in the same epoch.
pub open spec fn delaying(a: ActionModel) -> bool {
    match a {
        ActionModel::NoConfidence { .. } => true,
        ActionModel::HardForkInitiation { .. } => true,
        ActionModel::UpdateCommittee { .. } => true,
        ActionModel::NewConstitution { .. } => true,
        _ => false,
    }
}

fn same_action(a: &Option<GovActionId>, b: &Option<GovActionId>) -> (r: bool)
    ensures
        r == (*a == *b),
{
    match (a, b) {
        (Some(x), Some(y)) => x.same(y),
        (None, None) => true,
        _ => false,
    }
}

/// Whether a proposal follows on the last enacted action of its purpose.
pub fn prev_action_as_expected(action: &GovernanceAction, governance: &GovernanceState) -> (r: bool)
    ensures
        r == prev_ok(action.model(), governance@),
{
    match action {
        GovernanceAction::ParameterChange { prev_action_id, .. } => same_action(
            prev_action_id,
            &governance.enacted_pparam_update,
        ),
        GovernanceAction::HardForkInitiation { prev_action_id, .. } => same_action(
            prev_action_id,
            &governance.enacted_hard_fork,
        ),
        GovernanceAction::NoConfidence { prev_action_id } => same_action(prev_action_id, &governance.enacted_committee),
        GovernanceAction::UpdateCommittee { prev_action_id, .. } => same_action(
            prev_action_id,
            &governance.enacted_committee,
        ),
        GovernanceAction::NewConstitution { prev_action_id, .. } => same_action(
            prev_action_id,
            &governance.enacted_constitution,
        ),
        GovernanceAction::TreasuryWithdrawals { .. } => true,
        GovernanceAction::InfoAction => true,
    }
}

/// The ratification priority of an action.
pub fn gov_action_priority(action: &GovernanceAction) -> (r: u8)
    ensures
        r == priority(action.model()),
{
    match action {
        GovernanceAction::NoConfidence { .. } => 0,
        GovernanceAction::UpdateCommittee { .. } => 1,
        GovernanceAction::NewConstitution { .. } => 2,
        GovernanceAction::HardForkInitiation { .. } => 3,
        GovernanceAction::ParameterChange { .. } => 4,
        GovernanceAction::TreasuryWithdrawals { .. } => 5,
        GovernanceAction::InfoAction => 6,
    }
}

/// Whether an action delays all further ratification of its epoch.
pub fn is_delaying_action(action: &GovernanceAction) -> (r: bool)
    ensures
        r == delaying(action.model()),
{
    match action {
        GovernanceAction::NoConfidence { .. } => true,
        GovernanceAction::HardForkInitiation { .. } => true,
        GovernanceAction::UpdateCommittee { .. } => true,
        GovernanceAction::NewConstitution { .. } => true,
        _ => false,
    }
}

// ---- proposals and votes ----

/// The ledger with one more proposal.
pub open spec fn proposed(s: LedgerModel, id: GovActionId, procedure: ProcedureModel) -> LedgerModel {
    LedgerModel {
        governance: GovernanceModel {
            proposals: s.governance.proposals.insert(
                id,
                ProposalModel {
                    procedure,
                    proposed_epoch: s.epoch,
                    expires_epoch: EpochNo(sat_add(s.epoch.0, s.protocol_params.gov_action_lifetime)),
                    yes_votes: 0,
                    no_votes: 0,
                    abstain_votes: 0,
                },
            ),
            proposal_count: sat_add(s.governance.proposal_count, 1),
            ..s.governance
        },
        ..s
    }
}

pub open spec fn votes_on(g: GovernanceModel, id: GovActionId) -> Seq<(Voter, VotingProcedure)> {
    if g.votes_by_action.dom().contains(id) {
        g.votes_by_action[id]
    } else {
        Seq::empty()
    }
}

/// The ledger with one more vote: it is kept behind the others, and a DRep who
/// votes is active. Votes on unknown proposals are ignored.
pub open spec fn voted(s: LedgerModel, voter: Voter, id: GovActionId, procedure: VotingProcedure) -> LedgerModel {
    let g = s.governance;
    if !g.proposals.dom().contains(id) {
        s
    } else {
        LedgerModel {
            governance: GovernanceModel {
                dreps: match voter {
                    Voter::DRep(cred) => if g.dreps.dom().contains(cred.hash()) {
                        g.dreps.insert(
                            cred.hash(),
                            DRepModel { last_active_epoch: s.epoch, active: true, ..g.dreps[cred.hash()] },
                        )
                    } else {
                        g.dreps
                    },
                    _ => g.dreps,
                },
                votes_by_action: g.votes_by_action.insert(id, votes_on(g, id).push((voter, procedure))),
                ..g
            },
            ..s
        }
    }
}

// ---- tallies ----

/// What decides how votes on an action are counted.
pub struct BallotModel {
    pub bootstrap: bool,
    pub hard_fork: bool,
    pub no_confidence: bool,
    pub votes: Seq<(Voter, VotingProcedure)>,
    pub mark: Option<SnapshotModel>,
    pub pools: Map<Hash28, PoolModel>,
    pub vote_delegations: Map<Hash32, DRep>,
    pub stake_map: Map<Hash32, Lovelace>,
    pub accounts: Map<Hash32, Lovelace>,
    pub delegations: Map<Hash32, Hash28>,
}

pub open spec fn bootstrap(s: LedgerModel) -> bool {
    s.protocol_params.protocol_version_major == 9
}

pub open spec fn ballot(s: LedgerModel, id: GovActionId, a: ActionModel) -> BallotModel {
    BallotModel {
        bootstrap: bootstrap(s),
        hard_fork: a is HardForkInitiation,
        no_confidence: a is NoConfidence,
        votes: votes_on(s.governance, id),
        mark: s.snapshots.mark,
        pools: s.pool_params,
        vote_delegations: s.governance.vote_delegations,
        stake_map: s.stake_map,
        accounts: s.reward_accounts,
        delegations: s.delegations,
    }
}

/// The last vote of each DRep.
pub open spec fn drep_votes(votes: Seq<(Voter, VotingProcedure)>) -> Map<Hash32, Vote>
    decreases votes.len(),
{
    if votes.len() == 0 {
        Map::empty()
    } else {
        match votes.last().0 {
            Voter::DRep(cred) => drep_votes(votes.drop_last()).insert(cred.hash(), votes.last().1.vote),
            _ => drep_votes(votes.drop_last()),
        }
    }
}

/// The last vote of each pool.
pub open spec fn pool_votes(votes: Seq<(Voter, VotingProcedure)>) -> Map<Hash28, Vote>
    decreases votes.len(),
{
    if votes.len() == 0 {
        Map::empty()
    } else {
        match votes.last().0 {
            Voter::StakePool(p) => pool_votes(votes.drop_last()).insert(p, votes.last().1.vote),
            _ => pool_votes(votes.drop_last()),
        }
    }
}

/// The last vote of each hot committee credential.
pub open spec fn committee_votes(votes: Seq<(Voter, VotingProcedure)>) -> Map<Hash32, Vote>
    decreases votes.len(),
{
    if votes.len() == 0 {
        Map::empty()
    } else {
        match votes.last().0 {
            Voter::ConstitutionalCommittee(cred) => committee_votes(votes.drop_last()).insert(
                cred.hash(),
                votes.last().1.vote,
            ),
            _ => committee_votes(votes.drop_last()),
        }
    }
}

/// Committee votes that say yes, and all that were cast.
pub open spec fn committee_cast(votes: Seq<(Voter, VotingProcedure)>) -> (nat, nat)
    decreases votes.len(),
{
    if votes.len() == 0 {
        (0, 0)
    } else {
        let (yes, all) = committee_cast(votes.drop_last());
        match votes.last().0 {
            Voter::ConstitutionalCommittee(_) => (
                if votes.last().1.vote == Vote::Yes { yes + 1 } else { yes },
                all + 1,
            ),
            _ => (yes, all),
        }
    }
}

/// The operator account of a pool, from the mark snapshot or else from the
/// registered pools.
pub open spec fn operator_of(mark: SnapshotModel, pools: Map<Hash28, PoolModel>, p: Hash28) -> Option<Hash32> {
    if mark.pool_params.dom().contains(p) {
        Some(account_key(mark.pool_params[p].reward_account))
    } else if pools.dom().contains(p) {
        Some(account_key(pools[p].reward_account))
    } else {
        None
    }
}

/// How a pool votes. One that cast no vote says no to a hard fork; otherwise
/// it abstains during bootstrap, and later follows its operator's delegation.
pub open spec fn pool_vote(b: BallotModel, mark: SnapshotModel, p: Hash28) -> Vote {
    let cast = pool_votes(b.votes);
    if cast.dom().contains(p) {
        cast[p]
    } else if b.hard_fork {
        Vote::No
    } else if b.bootstrap {
        Vote::Abstain
    } else {
        match operator_of(mark, b.pools, p) {
            Some(h) => if b.vote_delegations.dom().contains(h) {
                match b.vote_delegations[h] {
                    DRep::AlwaysAbstain => Vote::Abstain,
                    DRep::AlwaysNoConfidence => if b.no_confidence {
                        Vote::Yes
                    } else {
                        Vote::No
                    },
                    _ => Vote::No,
                }
            } else {
                Vote::No
            },
            None => Vote::No,
        }
    }
}

/// Unspent outputs and rewards of a credential.
pub open spec fn stake_of(stake_map: Map<Hash32, Lovelace>, accounts: Map<Hash32, Lovelace>, c: Hash32) -> nat {
    lovelace_of(stake_map, c) as nat + lovelace_of(accounts, c) as nat
}

pub open spec fn to_pool_fn(stake_map: Map<Hash32, Lovelace>, accounts: Map<Hash32, Lovelace>, p: Hash28) -> spec_fn(
    Hash32,
    Hash28,
) -> nat {
    |c: Hash32, q: Hash28| if q == p { stake_of(stake_map, accounts, c) } else { 0 }
}

/// Stake behind a pool: of the mark snapshot, or else what is delegated now.
pub open spec fn power_of_pool(
    mark: Option<SnapshotModel>,
    delegations: Map<Hash32, Hash28>,
    stake_map: Map<Hash32, Lovelace>,
    accounts: Map<Hash32, Lovelace>,
    p: Hash28,
) -> nat {
    if mark is Some && mark->0.pool_stake.dom().contains(p) {
        mark->0.pool_stake[p].0 as nat
    } else {
        map_sum(delegations, to_pool_fn(stake_map, accounts, p))
    }
}

pub open spec fn pool_power(b: BallotModel, p: Hash28) -> nat {
    power_of_pool(b.mark, b.delegations, b.stake_map, b.accounts, p)
}

pub open spec fn yes_stake_fn(b: BallotModel, mark: SnapshotModel) -> spec_fn(Hash28, Lovelace) -> nat {
    |p: Hash28, l: Lovelace| if pool_vote(b, mark, p) == Vote::Yes { l.0 as nat } else { 0 }
}

pub open spec fn counted_stake_fn(b: BallotModel, mark: SnapshotModel) -> spec_fn(Hash28, Lovelace) -> nat {
    |p: Hash28, l: Lovelace| if pool_vote(b, mark, p) == Vote::Abstain { 0 } else { l.0 as nat }
}

pub open spec fn yes_power_fn(b: BallotModel) -> spec_fn(Hash28, Vote) -> nat {
    |p: Hash28, v: Vote| if v == Vote::Yes { pool_power(b, p) } else { 0 }
}

pub open spec fn counted_power_fn(b: BallotModel) -> spec_fn(Hash28, Vote) -> nat {
    |p: Hash28, v: Vote| if v == Vote::Abstain { 0 } else { pool_power(b, p) }
}

/// Pool stake that says yes. Without a mark snapshot only pools that cast a
/// vote count.
pub open spec fn spo_yes(b: BallotModel) -> nat {
    match b.mark {
        Some(mark) => map_sum(mark.pool_stake, yes_stake_fn(b, mark)),
        None => map_sum(pool_votes(b.votes), yes_power_fn(b)),
    }
}

/// Pool stake that counts: all but what abstains.
pub open spec fn spo_counted(b: BallotModel) -> nat {
    match b.mark {
        Some(mark) => map_sum(mark.pool_stake, counted_stake_fn(b, mark)),
        None => map_sum(pool_votes(b.votes), counted_power_fn(b)),
    }
}

pub open spec fn drep_power_fn(votes: Map<Hash32, Vote>, wanted: Option<Vote>) -> spec_fn(Hash32, u64) -> nat {
    |h: Hash32, power: u64|
        if wanted is None || (votes.dom().contains(h) && Some(votes[h]) == wanted) { power as nat } else { 0 }
}

/// DRep stake that says yes; no-confidence stake does on a motion of no
/// confidence.
pub open spec fn drep_yes(b: BallotModel, power: Map<Hash32, u64>, no_confidence: u64) -> nat {
    map_sum(power, drep_power_fn(drep_votes(b.votes), Some(Vote::Yes))) + if b.no_confidence {
        no_confidence as nat
    } else {
        0
    }
}

/// All DRep stake.
pub open spec fn drep_all(power: Map<Hash32, u64>, no_confidence: u64) -> nat {
    map_sum(power, drep_power_fn(Map::empty(), None)) + no_confidence as nat
}

/// DRep stake that counts: all but what abstains.
pub open spec fn drep_counted(b: BallotModel, power: Map<Hash32, u64>, no_confidence: u64) -> nat {
    let abstained = map_sum(power, drep_power_fn(drep_votes(b.votes), Some(Vote::Abstain)));
    if abstained > drep_all(power, no_confidence) {
        0
    } else {
        (drep_all(power, no_confidence) - abstained) as nat
    }
}

/// The tallies of an action stay within `u64`.
pub open spec fn votes_fit(b: BallotModel, power: Map<Hash32, u64>, no_confidence: u64) -> bool {
    &&& spo_counted(b) <= u64::MAX
    &&& drep_all(power, no_confidence) <= u64::MAX
}

/// Whether a share of votes reaches a threshold: `yes / total` is at least
/// `numerator / denominator`. A threshold of zero is always met, any other one
/// never where nothing counts.
pub open spec fn threshold_met(yes: nat, total: nat, t: Rational) -> bool {
    t.numerator == 0 || (total > 0 && yes * t.denominator >= t.numerator * total)
}

pub fn check_threshold(yes: u64, total: u64, threshold: &Rational) -> (r: bool)
    ensures
        r == threshold_met(yes as nat, total as nat, *threshold),
{
    if threshold.numerator == 0 {
        return true;
    }
    if total == 0 {
        return false;
    }
    proof {
        assert(0 <= yes * threshold.denominator <= u64::MAX * u64::MAX) by (nonlinear_arith)
            requires
                0 <= yes <= u64::MAX,
                0 <= threshold.denominator <= u64::MAX,
        ;
        assert(0 <= threshold.numerator * total <= u64::MAX * u64::MAX) by (nonlinear_arith)
            requires
                0 <= total <= u64::MAX,
                0 <= threshold.numerator <= u64::MAX,
        ;
    }
    let lhs: u128 = (yes as u128) * (threshold.denominator as u128);
    let rhs: u128 = (threshold.numerator as u128) * (total as u128);
    lhs >= rhs
}

// ---- the committee ----

/// Whether a committee member takes part: the term has not ended, a hot
/// credential is named, and the member has not resigned.
pub open spec fn member_active(g: GovernanceModel, epoch: EpochNo, cold: Hash32) -> bool {
    &&& g.committee_expiration.dom().contains(cold)
    &&& epoch.0 <= g.committee_expiration[cold].0
    &&& g.committee_hot_keys.dom().contains(cold)
    &&& !g.committee_resigned.dom().contains(cold)
}

/// How an active member votes; one that cast no vote says no.
pub open spec fn member_vote(g: GovernanceModel, votes: Map<Hash32, Vote>, cold: Hash32) -> Vote {
    let hot = g.committee_hot_keys[cold];
    if votes.dom().contains(hot) {
        votes[hot]
    } else {
        Vote::No
    }
}

pub open spec fn active_fn(g: GovernanceModel, epoch: EpochNo) -> spec_fn(Hash32, EpochNo) -> nat {
    |c: Hash32, e: EpochNo| if member_active(g, epoch, c) { 1 } else { 0 }
}

pub open spec fn member_yes_fn(g: GovernanceModel, epoch: EpochNo, votes: Map<Hash32, Vote>) -> spec_fn(
    Hash32,
    EpochNo,
) -> nat {
    |c: Hash32, e: EpochNo| if member_active(g, epoch, c) && member_vote(g, votes, c) == Vote::Yes { 1 } else { 0 }
}

pub open spec fn member_counted_fn(g: GovernanceModel, epoch: EpochNo, votes: Map<Hash32, Vote>) -> spec_fn(
    Hash32,
    EpochNo,
) -> nat {
    |c: Hash32, e: EpochNo| if member_active(g, epoch, c) && member_vote(g, votes, c) != Vote::Abstain { 1 } else { 0 }
}

/// Whether the committee approves: there is a committee, it is large enough
/// (except during bootstrap), some member counts, and the yes votes reach the
/// quorum. A quorum of zero approves everything.
pub open spec fn committee_approves(
    g: GovernanceModel,
    id: GovActionId,
    epoch: EpochNo,
    min_size: u64,
    bootstrap: bool,
) -> bool {
    match g.committee_threshold {
        None => false,
        Some(t) => if t.numerator == 0 {
            true
        } else {
            let votes = committee_votes(votes_on(g, id));
            let size = map_sum(g.committee_expiration, active_fn(g, epoch));
            let yes = map_sum(g.committee_expiration, member_yes_fn(g, epoch, votes));
            let counted = map_sum(g.committee_expiration, member_counted_fn(g, epoch, votes));
            &&& bootstrap || size >= min_size
            &&& size > 0
            &&& counted > 0
            &&& threshold_met(yes, counted, t)
        },
    }
}

fn collect_committee_votes(votes: &Vec<(Voter, VotingProcedure)>) -> (r: Table<Hash32, Vote>)
    ensures
        r@ == committee_votes(votes@),
{
    let mut r: Table<Hash32, Vote> = Table::new();
    let mut i: usize = 0;
    while i < votes.len()
        invariant
            i <= votes.len(),
            r@ == committee_votes(votes@.take(i as int)),
        decreases votes.len() - i,
    {
        assert(votes@.take(i + 1).drop_last() =~= votes@.take(i as int));
        if let Voter::ConstitutionalCommittee(cred) = &votes[i].0 {
            r.insert(credential_to_hash(cred), votes[i].1.vote);
        }
        i += 1;
    }
    assert(votes@.take(i as int) =~= votes@);
    r
}

/// Whether the constitutional committee approves an action.
pub fn check_cc_approval(
    action_id: &GovActionId,
    governance: &GovernanceState,
    current_epoch: EpochNo,
    committee_min_size: u64,
    bootstrap: bool,
) -> (r: bool)
    ensures
        r == committee_approves(governance@, *action_id, current_epoch, committee_min_size, bootstrap),
{
    let threshold: Rational = match governance.committee_threshold {
        Some(t) => t,
        None => {
            return false;
        },
    };
    if threshold.numerator == 0 {
        return true;
    }
    let none: Vec<(Voter, VotingProcedure)> = Vec::new();
    let cast: &Vec<(Voter, VotingProcedure)> = match governance.votes_by_action.get(action_id) {
        Some(v) => v,
        None => &none,
    };
    assert(cast@ =~= votes_on(governance@, *action_id));
    let votes = collect_committee_votes(cast);
    let ghost g = governance@;
    let ghost vm = votes@;
    let ghost e = governance.committee_expiration.entries();
    let ghost af = active_fn(g, current_epoch);
    let ghost yf = member_yes_fn(g, current_epoch, vm);
    let ghost cf = member_counted_fn(g, current_epoch, vm);
    let n: usize = governance.committee_expiration.len();
    proof {
        governance.committee_expiration.lemma_sum(af);
        governance.committee_expiration.lemma_sum(yf);
        governance.committee_expiration.lemma_sum(cf);
    }
    let mut yes: u64 = 0;
    let mut counted: u64 = 0;
    let mut size: u64 = 0;
    let mut i: usize = 0;
    while i < n
        invariant
            i <= n,
            n == e.len(),
            e == governance.committee_expiration.entries(),
            governance.committee_expiration.wf(),
            g == governance@,
            vm == votes@,
            af == active_fn(g, current_epoch),
            yf == member_yes_fn(g, current_epoch, vm),
            cf == member_counted_fn(g, current_epoch, vm),
            size == seq_sum(e.take(i as int), af),
            yes == seq_sum(e.take(i as int), yf),
            counted == seq_sum(e.take(i as int), cf),
            size <= i,
            yes <= i,
            counted <= i,
        decreases n - i,
    {
        proof {
            governance.committee_expiration.lemma_entries();
            lemma_seq_sum_step(e, af, i as int);
            lemma_seq_sum_step(e, yf, i as int);
            lemma_seq_sum_step(e, cf, i as int);
        }
        let cold: &Hash32 = governance.committee_expiration.key_at(i);
        let expiry: EpochNo = *governance.committee_expiration.value_at(i);
        if current_epoch.0 <= expiry.0 && !governance.committee_resigned.contains_key(cold) {
            if let Some(hot) = governance.committee_hot_keys.get(cold) {
                size += 1;
                let vote: Vote = match votes.get(hot) {
                    Some(v) => *v,
                    None => Vote::No,
                };
                match vote {
                    Vote::Yes => {
                        yes += 1;
                        counted += 1;
                    },
                    Vote::No => {
                        counted += 1;
                    },
                    Vote::Abstain => {},
                }
            }
        }
        i += 1;
    }
    assert(e.take(i as int) =~= e);
    if !bootstrap && size < committee_min_size {
        return false;
    }
    if size == 0 || counted == 0 {
        return false;
    }
    check_threshold(yes, counted, &threshold)
}

// ---- parameter groups ----

/// The DRep voting group of a protocol parameter.
#[derive(Debug, Clone, Copy, PartialEq, Eq, Hash, Structural)]
pub enum DRepPPGroup {
    Network,
    Economic,
    Technical,
    Gov,
}

/// Whether pools vote on a protocol parameter.
#[derive(Debug, Clone, Copy, PartialEq, Eq, Hash, Structural)]
pub enum StakePoolPPGroup {
    Security,
    NoVote,
}

/// Who votes on a protocol parameter.
pub type PPGroup = (DRepPPGroup, StakePoolPPGroup);

/// A list of groups, with one more where `set` holds.
#[verifier::opaque]
pub open spec fn tagged(list: Seq<PPGroup>, set: bool, drep: DRepPPGroup, pool: StakePoolPPGroup) -> Seq<PPGroup> {
    if set {
        list.push((drep, pool))
    } else {
        list
    }
}

/// Sizes, version and prices.
#[verifier::opaque]
pub open spec fn limit_groups(g: Seq<PPGroup>, u: ProtocolParamUpdate) -> Seq<PPGroup> {
    let g = tagged(g, u.max_block_body_size is Some, DRepPPGroup::Network, StakePoolPPGroup::Security);
    let g = tagged(g, u.max_transaction_size is Some, DRepPPGroup::Network, StakePoolPPGroup::Security);
    let g = tagged(g, u.max_block_header_size is Some, DRepPPGroup::Network, StakePoolPPGroup::Security);
    let g = tagged(g, u.protocol_version is Some, DRepPPGroup::Network, StakePoolPPGroup::Security);
    let g = tagged(g, u.min_fee_a is Some, DRepPPGroup::Economic, StakePoolPPGroup::Security);
    let g = tagged(g, u.min_fee_b is Some, DRepPPGroup::Economic, StakePoolPPGroup::Security);
    let g = tagged(g, u.key_deposit is Some, DRepPPGroup::Economic, StakePoolPPGroup::NoVote);
    let g = tagged(g, u.pool_deposit is Some, DRepPPGroup::Economic, StakePoolPPGroup::NoVote);
    g
}

/// Rewards, pools and reference scripts.
#[verifier::opaque]
pub open spec fn pool_groups(g: Seq<PPGroup>, u: ProtocolParamUpdate) -> Seq<PPGroup> {
    let g = tagged(g, u.min_pool_cost is Some, DRepPPGroup::Economic, StakePoolPPGroup::NoVote);
    let g = tagged(g, u.rho is Some, DRepPPGroup::Economic, StakePoolPPGroup::NoVote);
    let g = tagged(g, u.tau is Some, DRepPPGroup::Economic, StakePoolPPGroup::NoVote);
    let g = tagged(g, u.a0 is Some, DRepPPGroup::Economic, StakePoolPPGroup::NoVote);
    let g = tagged(g, u.n_opt is Some, DRepPPGroup::Technical, StakePoolPPGroup::Security);
    let g = tagged(g, u.e_max is Some, DRepPPGroup::Technical, StakePoolPPGroup::NoVote);
    let g = tagged(g, u.decentralization is Some, DRepPPGroup::Technical, StakePoolPPGroup::Security);
    let g = tagged(g, u.min_fee_ref_script_cost_per_byte is Some, DRepPPGroup::Economic, StakePoolPPGroup::NoVote);
    g
}

/// Deposits, lifetimes and the committee.
#[verifier::opaque]
pub open spec fn gov_groups(g: Seq<PPGroup>, u: ProtocolParamUpdate) -> Seq<PPGroup> {
    let g = tagged(g, u.drep_deposit is Some, DRepPPGroup::Gov, StakePoolPPGroup::NoVote);
    let g = tagged(g, u.drep_activity is Some, DRepPPGroup::Gov, StakePoolPPGroup::NoVote);
    let g = tagged(g, u.gov_action_lifetime is Some, DRepPPGroup::Gov, StakePoolPPGroup::NoVote);
    let g = tagged(g, u.gov_action_deposit is Some, DRepPPGroup::Gov, StakePoolPPGroup::NoVote);
    let g = tagged(g, u.committee_min_size is Some, DRepPPGroup::Gov, StakePoolPPGroup::NoVote);
    let g = tagged(g, u.committee_max_term_length is Some, DRepPPGroup::Gov, StakePoolPPGroup::NoVote);
    g
}

/// DRep thresholds.
#[verifier::opaque]
pub open spec fn drep_groups(g: Seq<PPGroup>, u: ProtocolParamUpdate) -> Seq<PPGroup> {
    let g = tagged(g, u.dvt_motion_no_confidence is Some, DRepPPGroup::Gov, StakePoolPPGroup::NoVote);
    let g = tagged(g, u.dvt_committee_normal is Some, DRepPPGroup::Gov, StakePoolPPGroup::NoVote);
    let g = tagged(g, u.dvt_committee_no_confidence is Some, DRepPPGroup::Gov, StakePoolPPGroup::NoVote);
    let g = tagged(g, u.dvt_update_to_constitution is Some, DRepPPGroup::Gov, StakePoolPPGroup::NoVote);
    let g = tagged(g, u.dvt_hard_fork_initiation is Some, DRepPPGroup::Gov, StakePoolPPGroup::NoVote);
    let g = tagged(g, u.dvt_pp_network_group is Some, DRepPPGroup::Gov, StakePoolPPGroup::NoVote);
    let g = tagged(g, u.dvt_pp_economic_group is Some, DRepPPGroup::Gov, StakePoolPPGroup::NoVote);
    let g = tagged(g, u.dvt_pp_technical_group is Some, DRepPPGroup::Gov, StakePoolPPGroup::NoVote);
    let g = tagged(g, u.dvt_pp_gov_group is Some, DRepPPGroup::Gov, StakePoolPPGroup::NoVote);
    let g = tagged(g, u.dvt_treasury_withdrawal is Some, DRepPPGroup::Gov, StakePoolPPGroup::NoVote);
    g
}

/// Pool thresholds.
#[verifier::opaque]
pub open spec fn spo_groups(g: Seq<PPGroup>, u: ProtocolParamUpdate) -> Seq<PPGroup> {
    let g = tagged(g, u.pvt_motion_no_confidence is Some, DRepPPGroup::Gov, StakePoolPPGroup::NoVote);
    let g = tagged(g, u.pvt_committee_normal is Some, DRepPPGroup::Gov, StakePoolPPGroup::NoVote);
    let g = tagged(g, u.pvt_committee_no_confidence is Some, DRepPPGroup::Gov, StakePoolPPGroup::NoVote);
    let g = tagged(g, u.pvt_hard_fork_initiation is Some, DRepPPGroup::Gov, StakePoolPPGroup::NoVote);
    let g = tagged(g, u.pvt_pp_security_group is Some, DRepPPGroup::Gov, StakePoolPPGroup::NoVote);
    g
}

/// The group of each parameter that an update sets.
#[verifier::opaque]
pub open spec fn groups_of(u: ProtocolParamUpdate) -> Seq<PPGroup> {
    let g = limit_groups(Seq::empty(), u);
    let g = pool_groups(g, u);
    let g = gov_groups(g, u);
    let g = drep_groups(g, u);
    spo_groups(g, u)
}

fn push_if(v: &mut Vec<PPGroup>, set: bool, drep: DRepPPGroup, pool: StakePoolPPGroup)
    ensures
        final(v)@ == tagged(old(v)@, set, drep, pool),
{
    proof {
        reveal(tagged);
    }
    if set {
        v.push((drep, pool));
    }
}

fn push_limit_groups(groups: &mut Vec<PPGroup>, ppu: &ProtocolParamUpdate)
    ensures
        final(groups)@ == limit_groups(old(groups)@, *ppu),
{
    proof {
        reveal(limit_groups);
    }
    push_if(groups, ppu.max_block_body_size.is_some(), DRepPPGroup::Network, StakePoolPPGroup::Security);
    push_if(groups, ppu.max_transaction_size.is_some(), DRepPPGroup::Network, StakePoolPPGroup::Security);
    push_if(groups, ppu.max_block_header_size.is_some(), DRepPPGroup::Network, StakePoolPPGroup::Security);
    push_if(groups, ppu.protocol_version.is_some(), DRepPPGroup::Network, StakePoolPPGroup::Security);
    push_if(groups, ppu.min_fee_a.is_some(), DRepPPGroup::Economic, StakePoolPPGroup::Security);
    push_if(groups, ppu.min_fee_b.is_some(), DRepPPGroup::Economic, StakePoolPPGroup::Security);
    push_if(groups, ppu.key_deposit.is_some(), DRepPPGroup::Economic, StakePoolPPGroup::NoVote);
    push_if(groups, ppu.pool_deposit.is_some(), DRepPPGroup::Economic, StakePoolPPGroup::NoVote);
}

fn push_pool_groups(groups: &mut Vec<PPGroup>, ppu: &ProtocolParamUpdate)
    ensures
        final(groups)@ == pool_groups(old(groups)@, *ppu),
{
    proof {
        reveal(pool_groups);
    }
    push_if(groups, ppu.min_pool_cost.is_some(), DRepPPGroup::Economic, StakePoolPPGroup::NoVote);
    push_if(groups, ppu.rho.is_some(), DRepPPGroup::Economic, StakePoolPPGroup::NoVote);
    push_if(groups, ppu.tau.is_some(), DRepPPGroup::Economic, StakePoolPPGroup::NoVote);
    push_if(groups, ppu.a0.is_some(), DRepPPGroup::Economic, StakePoolPPGroup::NoVote);
    push_if(groups, ppu.n_opt.is_some(), DRepPPGroup::Technical, StakePoolPPGroup::Security);
    push_if(groups, ppu.e_max.is_some(), DRepPPGroup::Technical, StakePoolPPGroup::NoVote);
    push_if(groups, ppu.decentralization.is_some(), DRepPPGroup::Technical, StakePoolPPGroup::Security);
    push_if(groups, ppu.min_fee_ref_script_cost_per_byte.is_some(), DRepPPGroup::Economic, StakePoolPPGroup::NoVote);
}

fn push_gov_groups(groups: &mut Vec<PPGroup>, ppu: &ProtocolParamUpdate)
    ensures
        final(groups)@ == gov_groups(old(groups)@, *ppu),
{
    proof {
        reveal(gov_groups);
    }
    push_if(groups, ppu.drep_deposit.is_some(), DRepPPGroup::Gov, StakePoolPPGroup::NoVote);
    push_if(groups, ppu.drep_activity.is_some(), DRepPPGroup::Gov, StakePoolPPGroup::NoVote);
    push_if(groups, ppu.gov_action_lifetime.is_some(), DRepPPGroup::Gov, StakePoolPPGroup::NoVote);
    push_if(groups, ppu.gov_action_deposit.is_some(), DRepPPGroup::Gov, StakePoolPPGroup::NoVote);
    push_if(groups, ppu.committee_min_size.is_some(), DRepPPGroup::Gov, StakePoolPPGroup::NoVote);
    push_if(groups, ppu.committee_max_term_length.is_some(), DRepPPGroup::Gov, StakePoolPPGroup::NoVote);
}

fn push_drep_groups(groups: &mut Vec<PPGroup>, ppu: &ProtocolParamUpdate)
    ensures
        final(groups)@ == drep_groups(old(groups)@, *ppu),
{
    proof {
        reveal(drep_groups);
    }
    push_if(groups, ppu.dvt_motion_no_confidence.is_some(), DRepPPGroup::Gov, StakePoolPPGroup::NoVote);
    push_if(groups, ppu.dvt_committee_normal.is_some(), DRepPPGroup::Gov, StakePoolPPGroup::NoVote);
    push_if(groups, ppu.dvt_committee_no_confidence.is_some(), DRepPPGroup::Gov, StakePoolPPGroup::NoVote);
    push_if(groups, ppu.dvt_update_to_constitution.is_some(), DRepPPGroup::Gov, StakePoolPPGroup::NoVote);
    push_if(groups, ppu.dvt_hard_fork_initiation.is_some(), DRepPPGroup::Gov, StakePoolPPGroup::NoVote);
    push_if(groups, ppu.dvt_pp_network_group.is_some(), DRepPPGroup::Gov, StakePoolPPGroup::NoVote);
    push_if(groups, ppu.dvt_pp_economic_group.is_some(), DRepPPGroup::Gov, StakePoolPPGroup::NoVote);
    push_if(groups, ppu.dvt_pp_technical_group.is_some(), DRepPPGroup::Gov, StakePoolPPGroup::NoVote);
    push_if(groups, ppu.dvt_pp_gov_group.is_some(), DRepPPGroup::Gov, StakePoolPPGroup::NoVote);
    push_if(groups, ppu.dvt_treasury_withdrawal.is_some(), DRepPPGroup::Gov, StakePoolPPGroup::NoVote);
}

fn push_spo_groups(groups: &mut Vec<PPGroup>, ppu: &ProtocolParamUpdate)
    ensures
        final(groups)@ == spo_groups(old(groups)@, *ppu),
{
    proof {
        reveal(spo_groups);
    }
    push_if(groups, ppu.pvt_motion_no_confidence.is_some(), DRepPPGroup::Gov, StakePoolPPGroup::NoVote);
    push_if(groups, ppu.pvt_committee_normal.is_some(), DRepPPGroup::Gov, StakePoolPPGroup::NoVote);
    push_if(groups, ppu.pvt_committee_no_confidence.is_some(), DRepPPGroup::Gov, StakePoolPPGroup::NoVote);
    push_if(groups, ppu.pvt_hard_fork_initiation.is_some(), DRepPPGroup::Gov, StakePoolPPGroup::NoVote);
    push_if(groups, ppu.pvt_pp_security_group.is_some(), DRepPPGroup::Gov, StakePoolPPGroup::NoVote);
}

/// The groups of the parameters that an update sets.
pub fn modified_pp_groups(ppu: &ProtocolParamUpdate) -> (r: Vec<PPGroup>)
    ensures
        r@ == groups_of(*ppu),
{
    proof {
        reveal(groups_of);
    }
    let mut groups: Vec<PPGroup> = Vec::new();
    push_limit_groups(&mut groups, ppu);
    push_pool_groups(&mut groups, ppu);
    push_gov_groups(&mut groups, ppu);
    push_drep_groups(&mut groups, ppu);
    push_spo_groups(&mut groups, ppu);
    groups
}

pub open spec fn group_threshold(p: ProtocolParameters, g: DRepPPGroup) -> Rational {
    match g {
        DRepPPGroup::Network => p.dvt_pp_network_group,
        DRepPPGroup::Economic => p.dvt_pp_economic_group,
        DRepPPGroup::Technical => p.dvt_pp_technical_group,
        DRepPPGroup::Gov => p.dvt_pp_gov_group,
    }
}

/// Every group that an update touches reaches its own threshold.
pub open spec fn all_groups_met(u: ProtocolParamUpdate, p: ProtocolParameters, yes: nat, total: nat) -> bool {
    forall|i: int|
        #![trigger groups_of(u)[i]]
        0 <= i < groups_of(u).len() ==> threshold_met(yes, total, group_threshold(p, groups_of(u)[i].0))
}

/// Whether DReps accept a parameter change: all groups that it touches must
/// reach their own thresholds.
pub fn pp_change_drep_all_groups_met(
    ppu: &ProtocolParamUpdate,
    params: &ProtocolParameters,
    drep_yes: u64,
    drep_total: u64,
) -> (r: bool)
    ensures
        r == all_groups_met(*ppu, *params, drep_yes as nat, drep_total as nat),
{
    let groups = modified_pp_groups(ppu);
    let mut i: usize = 0;
    while i < groups.len()
        invariant
            i <= groups.len(),
            groups@ == groups_of(*ppu),
            forall|j: int|
                #![trigger groups_of(*ppu)[j]]
                0 <= j < i ==> threshold_met(
                    drep_yes as nat,
                    drep_total as nat,
                    group_threshold(*params, groups_of(*ppu)[j].0),
                ),
        decreases groups.len() - i,
    {
        let threshold: Rational = match groups[i].0 {
            DRepPPGroup::Network => params.dvt_pp_network_group,
            DRepPPGroup::Economic => params.dvt_pp_economic_group,
            DRepPPGroup::Technical => params.dvt_pp_technical_group,
            DRepPPGroup::Gov => params.dvt_pp_gov_group,
        };
        assert(groups_of(*ppu)[i as int] == groups@[i as int]);
        if !check_threshold(drep_yes, drep_total, &threshold) {
            return false;
        }
        i += 1;
    }
    true
}

/// Whether an update touches the security group.
pub open spec fn touches_security(u: ProtocolParamUpdate) -> bool {
    exists|i: int|
        #![trigger groups_of(u)[i]]
        0 <= i < groups_of(u).len() && groups_of(u)[i].1 == StakePoolPPGroup::Security
}

/// The threshold for pools on a parameter change, where they vote on it.
pub fn pp_change_spo_threshold(ppu: &ProtocolParamUpdate, params: &ProtocolParameters) -> (r: Option<Rational>)
    ensures
        r == if touches_security(*ppu) {
            Some(params.pvt_pp_security_group)
        } else {
            None
        },
{
    let groups = modified_pp_groups(ppu);
    let mut i: usize = 0;
    while i < groups.len()
        invariant
            i <= groups.len(),
            groups@ == groups_of(*ppu),
            forall|j: int|
                #![trigger groups_of(*ppu)[j]]
                0 <= j < i ==> groups_of(*ppu)[j].1 != StakePoolPPGroup::Security,
        decreases groups.len() - i,
    {
        assert(groups_of(*ppu)[i as int] == groups@[i as int]);
        match groups[i].1 {
            StakePoolPPGroup::Security => {
                return Some(params.pvt_pp_security_group);
            },
            StakePoolPPGroup::NoVote => {},
        }
        i += 1;
    }
    None
}

// ---- counting ----

fn collect_drep_votes(votes: &Vec<(Voter, VotingProcedure)>) -> (r: Table<Hash32, Vote>)
    ensures
        r@ == drep_votes(votes@),
{
    let mut r: Table<Hash32, Vote> = Table::new();
    let mut i: usize = 0;
    while i < votes.len()
        invariant
            i <= votes.len(),
            r@ == drep_votes(votes@.take(i as int)),
        decreases votes.len() - i,
    {
        assert(votes@.take(i + 1).drop_last() =~= votes@.take(i as int));
        if let Voter::DRep(cred) = &votes[i].0 {
            r.insert(credential_to_hash(cred), votes[i].1.vote);
        }
        i += 1;
    }
    assert(votes@.take(i as int) =~= votes@);
    r
}

pub(crate) fn collect_pool_votes(votes: &Vec<(Voter, VotingProcedure)>) -> (r: Table<Hash28, Vote>)
    ensures
        r@ == pool_votes(votes@),
{
    let mut r: Table<Hash28, Vote> = Table::new();
    let mut i: usize = 0;
    while i < votes.len()
        invariant
            i <= votes.len(),
            r@ == pool_votes(votes@.take(i as int)),
        decreases votes.len() - i,
    {
        assert(votes@.take(i + 1).drop_last() =~= votes@.take(i as int));
        if let Voter::StakePool(pool) = &votes[i].0 {
            r.insert(*pool, votes[i].1.vote);
        }
        i += 1;
    }
    assert(votes@.take(i as int) =~= votes@);
    r
}

fn count_committee_cast(votes: &Vec<(Voter, VotingProcedure)>) -> (r: (u64, u64))
    ensures
        (r.0 as nat, r.1 as nat) == committee_cast(votes@),
{
    let mut yes: u64 = 0;
    let mut all: u64 = 0;
    let mut i: usize = 0;
    while i < votes.len()
        invariant
            i <= votes.len(),
            (yes as nat, all as nat) == committee_cast(votes@.take(i as int)),
            yes <= i,
            all <= i,
        decreases votes.len() - i,
    {
        assert(votes@.take(i + 1).drop_last() =~= votes@.take(i as int));
        if let Voter::ConstitutionalCommittee(_) = &votes[i].0 {
            all += 1;
            if votes[i].1.vote == Vote::Yes {
                yes += 1;
            }
        }
        i += 1;
    }
    assert(votes@.take(i as int) =~= votes@);
    (yes, all)
}

/// The sum of the DRep powers that count: all of them, or those of DReps with
/// a certain vote.
fn sum_drep_power(
    power: &Table<Hash32, u64>,
    votes: &Table<Hash32, Vote>,
    wanted: Option<Vote>,
    Ghost(vm): Ghost<Map<Hash32, Vote>>,
) -> (r: u64)
    requires
        map_sum(power@, drep_power_fn(vm, wanted)) <= u64::MAX,
        wanted is Some ==> vm == votes@,
    ensures
        r == map_sum(power@, drep_power_fn(vm, wanted)),
{
    let ghost f = drep_power_fn(vm, wanted);
    let ghost e = power.entries();
    let n: usize = power.len();
    proof {
        power.lemma_sum(f);
    }
    let mut sum: u64 = 0;
    let mut i: usize = 0;
    while i < n
        invariant
            i <= n,
            n == e.len(),
            e == power.entries(),
            f == drep_power_fn(vm, wanted),
            wanted is Some ==> vm == votes@,
            seq_sum(e, f) <= u64::MAX,
            sum == seq_sum(e.take(i as int), f),
        decreases n - i,
    {
        proof {
            lemma_seq_sum_step(e, f, i as int);
            lemma_seq_sum_prefix(e, f, i + 1);
        }
        let counts: bool = match wanted {
            None => true,
            Some(w) => match votes.get(power.key_at(i)) {
                Some(v) => *v == w,
                None => false,
            },
        };
        if counts {
            sum += *power.value_at(i);
        }
        i += 1;
    }
    assert(e.take(i as int) =~= e);
    sum
}

impl LedgerState {
    /// Whether Conway is in its bootstrap phase (protocol version 9), in which
    /// all DRep thresholds are zero.
    pub fn is_bootstrap_phase(&self) -> (r: bool)
        ensures
            r == bootstrap(self@),
    {
        self.protocol_params.protocol_version_major == 9
    }

    /// Unspent outputs and reward balance of a credential.
    pub fn credential_stake(&self, cred_hash: &Hash32) -> (r: u64)
        requires
            stake_of(self@.stake_map, self@.reward_accounts, *cred_hash) <= u64::MAX,
        ensures
            r == stake_of(self@.stake_map, self@.reward_accounts, *cred_hash),
    {
        let utxo: u64 = match self.stake_distribution.stake_map.get(cred_hash) {
            Some(l) => l.0,
            None => 0,
        };
        let reward: u64 = match self.reward_accounts.get(cred_hash) {
            Some(l) => l.0,
            None => 0,
        };
        utxo + reward
    }

    /// Stake behind a pool: of the mark snapshot, or else what is delegated now.
    pub fn compute_spo_voting_power(&self, pool_id: &Hash28) -> (r: u64)
        requires
            power_of_pool(
                self@.snapshots.mark,
                self@.delegations,
                self@.stake_map,
                self@.reward_accounts,
                *pool_id,
            ) <= u64::MAX,
        ensures
            r == power_of_pool(
                self@.snapshots.mark,
                self@.delegations,
                self@.stake_map,
                self@.reward_accounts,
                *pool_id,
            ),
    {
        if let Some(mark) = &self.snapshots.mark {
            if let Some(stake) = mark.pool_stake.get(pool_id) {
                return stake.0;
            }
        }
        let ghost f = to_pool_fn(self@.stake_map, self@.reward_accounts, *pool_id);
        let ghost e = self.delegations.entries();
        let n: usize = self.delegations.len();
        proof {
            self.delegations.lemma_sum(f);
        }
        let mut total: u64 = 0;
        let mut i: usize = 0;
        while i < n
            invariant
                i <= n,
                n == e.len(),
                e == self.delegations.entries(),
                f == to_pool_fn(self@.stake_map, self@.reward_accounts, *pool_id),
                seq_sum(e, f) <= u64::MAX,
                total == seq_sum(e.take(i as int), f),
            decreases n - i,
        {
            proof {
                lemma_seq_sum_step(e, f, i as int);
                lemma_seq_sum_prefix(e, f, i + 1);
            }
            let to: &Hash28 = self.delegations.value_at(i);
            let here: bool = crate::item::same_bytes(to.as_slice(), pool_id.as_slice());
            proof {
                if here {
                    assert(*to =~= *pool_id);
                }
            }
            if here {
                total += self.credential_stake(self.delegations.key_at(i));
            }
            i += 1;
        }
        assert(e.take(i as int) =~= e);
        total
    }

    /// Stake of all pools, at least one: of the mark snapshot, or else what is
    /// delegated now.
    pub fn compute_total_spo_stake(&self) -> (r: u64)
        requires
            self@.snapshots.mark is None ==> forall|c: Hash32| #[trigger]
                self@.delegations.dom().contains(c) ==> stake_of(self@.stake_map, self@.reward_accounts, c)
                    <= u64::MAX,
        ensures
            r == at_least_one(
                match self@.snapshots.mark {
                    Some(mark) => crate::ledger::rewards::saturating_total(mark.pool_stake),
                    None => clamp(
                        map_sum(
                            self@.delegations,
                            delegator_fn(self@.stake_map, self@.reward_accounts),
                        ) as int,
                    ),
                },
            ),
    {
        if let Some(mark) = &self.snapshots.mark {
            let total: u64 = crate::ledger::rewards::sum_stake(&mark.pool_stake);
            return if total == 0 {
                1
            } else {
                total
            };
        }
        let ghost f = delegator_fn(self@.stake_map, self@.reward_accounts);
        let ghost e = self.delegations.entries();
        let n: usize = self.delegations.len();
        proof {
            self.delegations.lemma_sum(f);
            self.delegations.lemma_entries();
        }
        let mut total: u64 = 0;
        let mut i: usize = 0;
        while i < n
            invariant
                i <= n,
                n == e.len(),
                e == self.delegations.entries(),
                f == delegator_fn(self@.stake_map, self@.reward_accounts),
                forall|c: Hash32| #[trigger]
                    self@.delegations.dom().contains(c) ==> stake_of(self@.stake_map, self@.reward_accounts, c)
                        <= u64::MAX,
                total == clamp(seq_sum(e.take(i as int), f) as int),
            decreases n - i,
        {
            proof {
                lemma_seq_sum_step(e, f, i as int);
            }
            let cred: &Hash32 = self.delegations.key_at(i);
            assert(self@.delegations.dom().contains(*cred));
            total = total.saturating_add(self.credential_stake(cred));
            i += 1;
        }
        assert(e.take(i as int) =~= e);
        if total == 0 {
            1
        } else {
            total
        }
    }

    /// How a pool of the mark snapshot votes.
    pub(crate) fn vote_of_pool(
        &self,
        mark: &StakeSnapshot,
        cast: &Table<Hash28, Vote>,
        hard_fork: bool,
        no_confidence: bool,
        pool_id: &Hash28,
        Ghost(b): Ghost<BallotModel>,
    ) -> (r: Vote)
        requires
            cast@ == pool_votes(b.votes),
            b.hard_fork == hard_fork,
            b.no_confidence == no_confidence,
            b.bootstrap == bootstrap(self@),
            b.pools == self@.pool_params,
            b.vote_delegations == self@.governance.vote_delegations,
        ensures
            r == pool_vote(b, mark.model(), *pool_id),
    {
        if let Some(v) = cast.get(pool_id) {
            return *v;
        }
        if hard_fork {
            return Vote::No;
        }
        if self.is_bootstrap_phase() {
            return Vote::Abstain;
        }
        let pool = match mark.pool_params.get(pool_id) {
            Some(p) => Some(p),
            None => self.pool_params.get(pool_id),
        };
        match pool {
            Some(p) => {
                let key = Self::reward_account_to_hash(&p.reward_account);
                match self.governance.vote_delegations.get(&key) {
                    Some(DRep::AlwaysAbstain) => Vote::Abstain,
                    Some(DRep::AlwaysNoConfidence) => if no_confidence {
                        Vote::Yes
                    } else {
                        Vote::No
                    },
                    _ => Vote::No,
                }
            },
            None => Vote::No,
        }
    }

    /// Pool stake that says yes, and pool stake that counts.
    fn count_pool_votes(
        &self,
        cast: &Table<Hash28, Vote>,
        hard_fork: bool,
        no_confidence: bool,
        Ghost(b): Ghost<BallotModel>,
    ) -> (r: (u64, u64))
        requires
            cast@ == pool_votes(b.votes),
            b.hard_fork == hard_fork,
            b.no_confidence == no_confidence,
            b.bootstrap == bootstrap(self@),
            b.pools == self@.pool_params,
            b.vote_delegations == self@.governance.vote_delegations,
            b.mark == self@.snapshots.mark,
            b.stake_map == self@.stake_map,
            b.accounts == self@.reward_accounts,
            b.delegations == self@.delegations,
            spo_counted(b) <= u64::MAX,
        ensures
            r.0 == spo_yes(b),
            r.1 == spo_counted(b),
    {
        let mut yes: u64 = 0;
        let mut counted: u64 = 0;
        let mut i: usize = 0;
        match &self.snapshots.mark {
            Some(mark) => {
                let ghost m = mark.model();
                let ghost yf = yes_stake_fn(b, m);
                let ghost cf = counted_stake_fn(b, m);
                let ghost e = mark.pool_stake.entries();
                let n: usize = mark.pool_stake.len();
                proof {
                    mark.pool_stake.lemma_sum(yf);
                    mark.pool_stake.lemma_sum(cf);
                }
                while i < n
                    invariant
                        i <= n,
                        n == e.len(),
                        e == mark.pool_stake.entries(),
                        m == mark.model(),
                        yf == yes_stake_fn(b, m),
                        cf == counted_stake_fn(b, m),
                        cast@ == pool_votes(b.votes),
                        b.hard_fork == hard_fork,
                        b.no_confidence == no_confidence,
                        b.bootstrap == bootstrap(self@),
                        b.pools == self@.pool_params,
                        b.vote_delegations == self@.governance.vote_delegations,
                        seq_sum(e, cf) <= u64::MAX,
                        yes == seq_sum(e.take(i as int), yf),
                        counted == seq_sum(e.take(i as int), cf),
                        yes <= counted,
                    decreases n - i,
                {
                    proof {
                        lemma_seq_sum_step(e, yf, i as int);
                        lemma_seq_sum_step(e, cf, i as int);
                        lemma_seq_sum_prefix(e, cf, i + 1);
                    }
                    let stake: u64 = mark.pool_stake.value_at(i).0;
                    match self.vote_of_pool(mark, cast, hard_fork, no_confidence, mark.pool_stake.key_at(i), Ghost(b)) {
                        Vote::Yes => {
                            yes += stake;
                            counted += stake;
                        },
                        Vote::No => {
                            counted += stake;
                        },
                        Vote::Abstain => {},
                    }
                    i += 1;
                }
                assert(e.take(i as int) =~= e);
            },
            None => {
                let ghost yf = yes_power_fn(b);
                let ghost cf = counted_power_fn(b);
                let ghost e = cast.entries();
                let n: usize = cast.len();
                proof {
                    cast.lemma_sum(yf);
                    cast.lemma_sum(cf);
                }
                while i < n
                    invariant
                        i <= n,
                        n == e.len(),
                        e == cast.entries(),
                        yf == yes_power_fn(b),
                        cf == counted_power_fn(b),
                        cast@ == pool_votes(b.votes),
                        b.mark == self@.snapshots.mark,
                        b.stake_map == self@.stake_map,
                        b.accounts == self@.reward_accounts,
                        b.delegations == self@.delegations,
                        seq_sum(e, cf) <= u64::MAX,
                        yes == seq_sum(e.take(i as int), yf),
                        counted == seq_sum(e.take(i as int), cf),
                        yes <= counted,
                    decreases n - i,
                {
                    proof {
                        lemma_seq_sum_step(e, yf, i as int);
                        lemma_seq_sum_step(e, cf, i as int);
                        lemma_seq_sum_prefix(e, cf, i + 1);
                    }
                    let pool: &Hash28 = cast.key_at(i);
                    let vote: Vote = *cast.value_at(i);
                    if vote != Vote::Abstain {
                        let power: u64 = self.compute_spo_voting_power(pool);
                        counted += power;
                        if vote == Vote::Yes {
                            yes += power;
                        }
                    }
                    i += 1;
                }
                assert(e.take(i as int) =~= e);
            },
        }
        (yes, counted)
    }

    /// Counts the votes on an action by kind of voter: DRep stake (yes, all
    /// that counts), pool stake (yes, all that counts), committee votes (yes,
    /// all).
    pub fn count_votes_by_type(
        &self,
        action_id: &GovActionId,
        action: &GovernanceAction,
        drep_power_cache: &Table<Hash32, u64>,
        no_confidence_stake: u64,
    ) -> (r: (u64, u64, u64, u64, u64, u64))
        requires
            votes_fit(ballot(self@, *action_id, action.model()), drep_power_cache@, no_confidence_stake),
        ensures
            r.0 == drep_yes(ballot(self@, *action_id, action.model()), drep_power_cache@, no_confidence_stake),
            r.1 == drep_counted(ballot(self@, *action_id, action.model()), drep_power_cache@, no_confidence_stake),
            r.2 == spo_yes(ballot(self@, *action_id, action.model())),
            r.3 == spo_counted(ballot(self@, *action_id, action.model())),
            (r.4 as nat, r.5 as nat) == committee_cast(votes_on(self@.governance, *action_id)),
    {
        let ghost b = ballot(self@, *action_id, action.model());
        let no_confidence: bool = match action {
            GovernanceAction::NoConfidence { .. } => true,
            _ => false,
        };
        let hard_fork: bool = match action {
            GovernanceAction::HardForkInitiation { .. } => true,
            _ => false,
        };
        let none: Vec<(Voter, VotingProcedure)> = Vec::new();
        let cast: &Vec<(Voter, VotingProcedure)> = match self.governance.votes_by_action.get(action_id) {
            Some(v) => v,
            None => &none,
        };
        assert(cast@ =~= b.votes);
        let dreps = collect_drep_votes(cast);
        let pools = collect_pool_votes(cast);
        let cc: (u64, u64) = count_committee_cast(cast);
        let spo: (u64, u64) = self.count_pool_votes(&pools, hard_fork, no_confidence, Ghost(b));
        proof {
            let all = drep_power_fn(Map::empty(), None);
            let yes = drep_power_fn(dreps@, Some(Vote::Yes));
            let abstain = drep_power_fn(dreps@, Some(Vote::Abstain));
            crate::sums::lemma_sum_le(drep_power_cache@, yes, all);
            crate::sums::lemma_sum_le(drep_power_cache@, abstain, all);
        }
        let all: u64 = sum_drep_power(drep_power_cache, &dreps, None, Ghost(Map::empty()));
        let mut yes: u64 = sum_drep_power(drep_power_cache, &dreps, Some(Vote::Yes), Ghost(dreps@));
        let abstained: u64 = sum_drep_power(drep_power_cache, &dreps, Some(Vote::Abstain), Ghost(dreps@));
        let total: u64 = all + no_confidence_stake;
        if no_confidence {
            yes += no_confidence_stake;
        }
        (yes, total.saturating_sub(abstained), spo.0, spo.1, cc.0, cc.1)
    }
}

pub open spec fn delegator_fn(stake_map: Map<Hash32, Lovelace>, accounts: Map<Hash32, Lovelace>) -> spec_fn(
    Hash32,
    Hash28,
) -> nat {
    |c: Hash32, q: Hash28| stake_of(stake_map, accounts, c)
}

} // verus!
