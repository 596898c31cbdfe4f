//! What the steps of an epoch boundary do, one by one.

use vstd::prelude::*;
use crate::ledger::changes::changes_text;
use crate::ledger::enact::{enacted_all, updated_params};
use crate::ledger::epoch::{
    after_transition, before_power, before_ratification, before_rewards, committee_expired, conway_propagated, delegated_to,
    dreps_aged, due, enacted_message, new_mark, overdue, overdue_expired, pool_key, pool_retired, pools_activated,
    pools_reaped, pools_retired, power_snapped, proposal_expired, proposals_expired, rewards_applied, snapped, supporters,
    updates_decided, voted_update,
};
use crate::ledger::boundary::{lemma_due_map, lemma_reaches_rewards, lemma_stays_retired};
use crate::ledger::governance::{stake_of, to_pool_fn};
use crate::ledger::nonce::{blake2b_256_of, combined, evolved, first_slot, frozen, hash_of, nonce_ticked};
use crate::ledger::primitives::{
    padded, DRep, EpochNo, GovActionId, Hash28, Hash32, Lovelace, ProtocolParamUpdate, ProtocolParameters,
};
use crate::ledger::ratify::{
    after_ratification, enactments_of, live_power, ratify_order, ratify_power, ratify_round, standing_power,
};
use crate::ledger::registry::{agree, forgets, records};
use crate::ledger::rewards::{after_rewards, reward_update};
use crate::ledger::state::{
    account_key, deposits_of, zero_hash, DRepModel, EnactmentModel, GovernanceModel, LedgerModel, ProposalModel, SnapshotModel, SnapshotsModel,
};
use crate::ledger::voting::law_ratified_have_votes;
use crate::sums::{lemma_sum_insert, lemma_sum_scaled, map_sum};
use crate::table::{lemma_listing, listing};
use crate::text::decimal_chars;

verus! {

// ---- parameters and rewards ----

/// From the boundary after the one at which the Conway era began, its
/// parameters are in force; before that nothing changes.
pub proof fn law_conway_in_force(s: LedgerModel, e: EpochNo)
    ensures
        ({
            let t = conway_propagated(s, e);
            let began = s.conway_genesis_epoch matches Some(g) && e.0 > g;
            &&& began ==> (s.governance.conway_cur_params matches Some(p) ==> t.protocol_params == p)
            &&& !began || s.governance.conway_cur_params is None ==> t == s
            &&& t == (LedgerModel { protocol_params: t.protocol_params, ..s })
        }),
{
}

/// A pending reward update is applied once, and kept for reference.
pub proof fn law_rewards_applied_once(s: LedgerModel)
    ensures
        ({
            let t = rewards_applied(s);
            &&& t.last_applied_rupd == s.pending_reward_update
            &&& t.pending_reward_update is None
            &&& s.pending_reward_update is None ==> t == (LedgerModel { last_applied_rupd: None, ..s })
            &&& s.pending_reward_update matches Some(r) ==> {
                &&& t.reward_accounts == after_rewards(s, r).reward_accounts
                &&& t.treasury == after_rewards(s, r).treasury
                &&& t.reserves == after_rewards(s, r).reserves
            }
            &&& t == (LedgerModel {
                reward_accounts: t.reward_accounts,
                treasury: t.treasury,
                reserves: t.reserves,
                pending_reward_update: t.pending_reward_update,
                last_applied_rupd: t.last_applied_rupd,
                ..s
            })
        }),
{
}

/// The next reward update is computed from the stake that is go now, the
/// blocks and the fees of the epoch that ended, and the parameters that were in
/// force in it.
pub proof fn law_next_rewards(s: LedgerModel, e: EpochNo, go: SnapshotModel)
    requires
        s.snapshots.set == Some(go),
    ensures
        after_transition(s, e).pending_reward_update == Some(
            reward_update(
                before_rewards(s, e),
                SnapshotModel { epoch_blocks_by_pool: s.epoch_blocks_by_pool, ..go },
                s.epoch_fees,
                s.protocol_params,
            ),
        ),
        before_rewards(s, e).reserves == rewards_applied(s).reserves,
{
    lemma_reaches_rewards(s, e);
}

// ---- snapshots ----

/// The new mark holds the ledger as it is: who delegates where, the pools,
/// their blocks, and the stake of each delegator of a registered pool.
pub proof fn law_mark_taken(s: LedgerModel, c: Hash32)
    ensures
        ({
            let m = new_mark(s);
            let stake = stake_of(s.stake_map, s.reward_accounts, c);
            let counts = s.delegations.dom().contains(c) && s.pool_params.dom().contains(s.delegations[c]) && stake > 0;
            &&& m.epoch == s.epoch
            &&& m.delegations == s.delegations
            &&& m.pool_params == s.pool_params
            &&& m.epoch_blocks_by_pool == s.epoch_blocks_by_pool
            &&& m.script_stake_credentials == s.script_stake_credentials
            &&& m.stake_distribution.dom().contains(c) == counts
            &&& counts && stake <= u64::MAX ==> m.stake_distribution[c].0 == stake
            &&& snapped(s).snapshots == (SnapshotsModel {
                go: s.snapshots.set,
                set: s.snapshots.mark,
                mark: Some(m),
                ..s.snapshots
            })
            &&& snapped(s) == (LedgerModel { snapshots: snapped(s).snapshots, ..s })
        }),
{
}

/// A credential weighs what it has in unspent outputs and rewards.
pub proof fn law_stake_counts(stake_map: Map<Hash32, Lovelace>, accounts: Map<Hash32, Lovelace>, c: Hash32)
    ensures
        stake_map.dom().contains(c) && accounts.dom().contains(c) ==> stake_of(stake_map, accounts, c) == stake_map[c].0
            + accounts[c].0,
        stake_map.dom().contains(c) && !accounts.dom().contains(c) ==> stake_of(stake_map, accounts, c)
            == stake_map[c].0,
        !stake_map.dom().contains(c) && accounts.dom().contains(c) ==> stake_of(stake_map, accounts, c)
            == accounts[c].0,
        !stake_map.dom().contains(c) && !accounts.dom().contains(c) ==> stake_of(stake_map, accounts, c) == 0,
{
}

/// A delegation adds the stake of its credential to its pool in the snapshot,
/// and to no other. A pool to which nobody delegates is not in it.
pub proof fn law_pool_stake_grows(s: LedgerModel, c: Hash32, q: Hash28, p: Hash28)
    requires
        s.delegations.dom().finite(),
        !s.delegations.dom().contains(c),
        map_sum(s.delegations, to_pool_fn(s.stake_map, s.reward_accounts, p)) + stake_of(
            s.stake_map,
            s.reward_accounts,
            c,
        ) <= u64::MAX,
    ensures
        ({
            let t = LedgerModel { delegations: s.delegations.insert(c, q), ..s };
            let (a, b) = (new_mark(s).pool_stake, new_mark(t).pool_stake);
            let before = if a.dom().contains(p) { a[p].0 as nat } else { 0 };
            &&& p == q ==> b.dom().contains(p) && b[p].0 == before + stake_of(s.stake_map, s.reward_accounts, c)
            &&& p != q ==> agree(a, b, p)
            &&& s.delegations == Map::<Hash32, Hash28>::empty() ==> !a.dom().contains(p)
        }),
{
    let t = LedgerModel { delegations: s.delegations.insert(c, q), ..s };
    let f = to_pool_fn(s.stake_map, s.reward_accounts, p);
    let (m, n) = (s.delegations, t.delegations);
    lemma_sum_insert(m, f, c, q);
    if delegated_to(m, p) {
        let k = choose|k: Hash32| #[trigger] m.dom().contains(k) && m[k] == p;
        assert(n.dom().contains(k) && n[k] == p);
    } else {
        let zero = |k: Hash32, v: Hash28| 0nat;
        assert forall|k: Hash32| #[trigger] m.dom().contains(k) implies f(k, m[k]) * 1nat <= 0nat * zero(k, m[k]) by {
            assert(0 * zero(k, m[k]) == 0) by (nonlinear_arith);
        }
        lemma_sum_scaled(m, f, zero, 1, 0);
        let z = map_sum(m, zero);
        assert(0 * z == 0) by (nonlinear_arith);
    }
    if delegated_to(n, p) {
        let k = choose|k: Hash32| #[trigger] n.dom().contains(k) && n[k] == p;
        if k != c {
            assert(m.dom().contains(k));
        }
    }
    if p == q {
        assert(n.dom().contains(c) && n[c] == p);
    }
}

// ---- pools ----

/// A pool that retires gives its deposit to its operator's account, which is
/// opened where the operator only delegates; without either the treasury gets
/// it. A pool that is not registered loses only its retirement.
pub proof fn law_retiring_pool(s: LedgerModel, p: Hash28)
    ensures
        ({
            let t = pool_retired(s, p);
            let here = s.pool_params.dom().contains(p);
            let k = account_key(s.pool_params[p].reward_account);
            let d = s.protocol_params.pool_deposit;
            let known = s.reward_accounts.dom().contains(k) || s.delegations.dom().contains(k);
            let held = if s.reward_accounts.dom().contains(k) { s.reward_accounts[k].0 } else { 0 };
            &&& forgets(s.pending_retirements, t.pending_retirements, p)
            &&& !here ==> t == (LedgerModel { pending_retirements: t.pending_retirements, ..s })
            &&& here ==> forgets(s.pool_params, t.pool_params, p)
            &&& here && known && held + d <= u64::MAX ==> records(
                s.reward_accounts,
                t.reward_accounts,
                k,
                Lovelace((held + d) as u64),
            )
            &&& here && known ==> t.treasury == s.treasury
            &&& here && !known ==> t.reward_accounts == s.reward_accounts
            &&& here && !known && s.treasury.0 + d <= u64::MAX ==> t.treasury.0 == s.treasury.0 + d
            &&& t == (LedgerModel {
                pending_retirements: t.pending_retirements,
                pool_params: t.pool_params,
                reward_accounts: t.reward_accounts,
                treasury: t.treasury,
                deposits: t.deposits,
                ..s
            })
        }),
{
}

/// The deposit of a pool that retires is not on record any more; other deposits
/// are.
pub proof fn law_retired_deposit(s: LedgerModel, p: Hash28, k: Hash32, other: Hash32)
    requires
        s.pool_params.dom().contains(p),
        k@ == p@ + Seq::new(4, |i: int| 0u8),
        other != k,
    ensures
        ({
            let t = pool_retired(s, p);
            let (a, b) = (deposits_of(s.deposits, k), deposits_of(t.deposits, k));
            &&& b.pool is None && b.stake == a.stake && b.drep == a.drep && b.governance == a.governance
            &&& deposits_of(t.deposits, other) == deposits_of(s.deposits, other)
        }),
{
    let h = pool_key(p);
    assert(k@ =~= padded(p@));
    assert(h@ == padded(p@));
    assert(h =~= k);
}

/// Registrations that waited replace what was there, and wait no longer.
pub proof fn law_waiting_pools(s: LedgerModel, p: Hash28)
    ensures
        ({
            let t = pools_activated(s);
            &&& s.future_pool_params.dom().contains(p) ==> t.pool_params.dom().contains(p) && t.pool_params[p]
                == s.future_pool_params[p]
            &&& !s.future_pool_params.dom().contains(p) ==> agree(s.pool_params, t.pool_params, p)
            &&& !t.future_pool_params.dom().contains(p)
            &&& t == (LedgerModel {
                pool_params: t.pool_params,
                future_pool_params: t.future_pool_params,
                ..s
            })
        }),
{
}

proof fn lemma_retired_frame(s: LedgerModel, l: Seq<Hash28>)
    ensures
        pools_retired(s, l).delegations == s.delegations,
        pools_retired(s, l).future_pool_params == s.future_pool_params,
    decreases l.len(),
{
    if l.len() > 0 {
        lemma_retired_frame(s, l.drop_last());
    }
}

/// Exactly the pools that are due at an epoch leave, and with them exactly the
/// delegations to them.
pub proof fn law_pools_reaped(s: LedgerModel, e: EpochNo, p: Hash28, c: Hash32)
    requires
        s.pending_retirements.dom().finite(),
    ensures
        ({
            let t = pools_reaped(s, e);
            let here = s.pool_params.dom().contains(p) || s.future_pool_params.dom().contains(p);
            let leaves = s.pending_retirements.dom().contains(p) && s.pending_retirements[p] == e;
            &&& t.pool_params.dom().contains(p) == (here && !leaves)
            &&& s.delegations.dom().contains(c) && s.delegations[c] == p ==> t.delegations.dom().contains(c) == !(here
                && leaves)
            &&& t.delegations.dom().contains(c) ==> s.delegations.dom().contains(c) && t.delegations[c]
                == s.delegations[c]
        }),
{
    let a = pools_activated(s);
    let l = due(listing::<Hash28, EpochNo>(s.pending_retirements), e);
    lemma_due_map(s.pending_retirements, e, p);
    lemma_stays_retired(a, l, p);
    lemma_retired_frame(a, l);
}

// ---- updates before Conway ----

/// A delegate supports an update that it proposes, and no other.
pub proof fn law_support(l: Seq<(Hash32, ProtocolParamUpdate)>, x: (Hash32, ProtocolParamUpdate), u: ProtocolParamUpdate)
    ensures
        supporters(Seq::empty(), u) == 0,
        supporters(l.push(x), u) == supporters(l, u) + if x.1 == u { 1nat } else { 0nat },
{
    assert(l.push(x).drop_last() =~= l);
}

/// What a quorum proposed in the epoch that ends takes effect. Proposals for
/// later epochs stay; all others are dropped.
pub proof fn law_updates_decided(s: LedgerModel, e: EpochNo, x: EpochNo)
    ensures
        ({
            let t = updates_decided(s, e);
            let now = s.pending_pp_updates.dom().contains(s.epoch);
            let u = voted_update(s.pending_pp_updates[s.epoch], s.update_quorum);
            &&& x.0 > s.epoch.0 ==> agree(s.pending_pp_updates, t.pending_pp_updates, x)
            &&& x.0 <= s.epoch.0 ==> !t.pending_pp_updates.dom().contains(x)
            &&& now && u is Some ==> t.protocol_params == updated_params(s.protocol_params, u->0)
            &&& !now || u is None ==> t.protocol_params == s.protocol_params && t.ppup_enacted_log == s.ppup_enacted_log
            &&& t == (LedgerModel {
                pending_pp_updates: t.pending_pp_updates,
                protocol_params: t.protocol_params,
                ppup_enacted_log: t.ppup_enacted_log,
                ..s
            })
        }),
{
}

// ---- governance ----

/// A proposal that expires is closed with its votes, and its deposit goes back
/// to its return account. Others stay open.
pub proof fn law_proposal_closes(s: LedgerModel, id: GovActionId)
    requires
        s.governance.proposals.dom().contains(id),
    ensures
        ({
            let t = proposal_expired(s, id);
            let p = s.governance.proposals[id].procedure;
            let k = p.return_addr.hash();
            let held = if s.reward_accounts.dom().contains(k) { s.reward_accounts[k].0 } else { 0 };
            &&& forgets(s.governance.proposals, t.governance.proposals, id)
            &&& forgets(s.governance.votes_by_action, t.governance.votes_by_action, id)
            &&& p.deposit.0 > 0 && held + p.deposit.0 <= u64::MAX ==> records(
                s.reward_accounts,
                t.reward_accounts,
                k,
                Lovelace((held + p.deposit.0) as u64),
            )
            &&& p.deposit.0 == 0 ==> t.reward_accounts == s.reward_accounts
            &&& t == (LedgerModel {
                reward_accounts: t.reward_accounts,
                deposits: t.deposits,
                governance: GovernanceModel {
                    proposals: t.governance.proposals,
                    votes_by_action: t.governance.votes_by_action,
                    ..s.governance
                },
                ..s
            })
        }),
{
}

proof fn lemma_overdue_exact(l: Seq<(GovActionId, ProposalModel)>, e: EpochNo, id: GovActionId)
    ensures
        overdue(l, e).contains(id) <==> exists|i: int|
            #![trigger l[i]]
            0 <= i < l.len() && l[i].0 == id && l[i].1.expires_epoch.0 < e.0,
    decreases l.len(),
{
    if l.len() > 0 {
        let k = l.drop_last();
        lemma_overdue_exact(k, e, id);
        let (a, b) = (overdue(k, e), overdue(l, e));
        assert(l.last() == l[l.len() - 1]);
        if a.contains(id) {
            let i = a.index_of(id);
            assert(b[i] == id);
        }
        if b.contains(id) {
            let i = b.index_of(id);
            if i < a.len() {
                assert(a[i] == id);
                let j = choose|j: int|
                    #![trigger k[j]]
                    0 <= j < k.len() && k[j].0 == id && k[j].1.expires_epoch.0 < e.0;
                assert(l[j] == k[j]);
            }
        }
        if exists|i: int| #![trigger l[i]] 0 <= i < l.len() && l[i].0 == id && l[i].1.expires_epoch.0 < e.0 {
            let i = choose|i: int|
                #![trigger l[i]]
                0 <= i < l.len() && l[i].0 == id && l[i].1.expires_epoch.0 < e.0;
            if i < k.len() {
                assert(k[i] == l[i]);
            } else {
                assert(b[a.len() as int] == id);
            }
        }
    }
}

proof fn lemma_closed(s: LedgerModel, l: Seq<GovActionId>, id: GovActionId)
    ensures
        ({
            let t = proposals_expired(s, l);
            &&& t.governance.proposals.dom().contains(id) == (s.governance.proposals.dom().contains(id)
                && !l.contains(id))
            &&& t.governance.proposals.dom().contains(id) ==> t.governance.proposals[id] == s.governance.proposals[id]
            &&& t.governance.votes_by_action.dom().contains(id) == (s.governance.votes_by_action.dom().contains(id)
                && !l.contains(id))
        }),
    decreases l.len(),
{
    if l.len() > 0 {
        let k = l.drop_last();
        lemma_closed(s, k, id);
        assert(l.last() == l[l.len() - 1]);
        if k.contains(id) {
            let i = k.index_of(id);
            assert(l[i] == id);
        }
        if l.contains(id) {
            let i = l.index_of(id);
            if i < k.len() {
                assert(k[i] == id);
            }
        }
    }
}

/// Exactly the proposals whose lifetime ended before the new epoch expire.
pub proof fn law_overdue_expire(s: LedgerModel, e: EpochNo, id: GovActionId)
    requires
        s.governance.proposals.dom().finite(),
    ensures
        ({
            let t = overdue_expired(s, e);
            let open = s.governance.proposals.dom().contains(id);
            let over = open && s.governance.proposals[id].expires_epoch.0 < e.0;
            &&& t.governance.proposals.dom().contains(id) == (open && !over)
            &&& open && !over ==> t.governance.proposals[id] == s.governance.proposals[id]
            &&& over ==> !t.governance.votes_by_action.dom().contains(id)
            &&& !over && s.governance.votes_by_action.dom().contains(id) ==> t.governance.votes_by_action.dom().contains(
                id,
            )
            &&& t.governance.last_expired.contains(id) == over
        }),
{
    let m = s.governance.proposals;
    let l = listing::<GovActionId, ProposalModel>(m);
    lemma_listing::<GovActionId, ProposalModel>(m);
    lemma_overdue_exact(l, e, id);
    lemma_closed(s, overdue(l, e), id);
    if overdue(l, e).contains(id) {
        let i = choose|i: int| #![trigger l[i]] 0 <= i < l.len() && l[i].0 == id && l[i].1.expires_epoch.0 < e.0;
        assert(m.dom().contains(l[i].0) && m[l[i].0] == l[i].1);
    }
    if m.dom().contains(id) && m[id].expires_epoch.0 < e.0 {
        let i = choose|i: int| #![trigger l[i]] 0 <= i < l.len() && l[i].0 == id;
        assert(m[l[i].0] == l[i].1);
    }
}

/// A representative is active where its last activity is no further back than
/// the activity period; without a period nothing changes.
pub proof fn law_dreps_age(s: LedgerModel, e: EpochNo, h: Hash32)
    ensures
        ({
            let t = dreps_aged(s, e);
            let (a, b) = (s.governance.dreps, t.governance.dreps);
            let period = s.protocol_params.drep_activity_period;
            &&& b.dom().contains(h) == a.dom().contains(h)
            &&& period == 0 ==> t == s
            &&& period > 0 && a.dom().contains(h) ==> b[h].active == (e.0 <= a[h].last_active_epoch.0 + period)
                && b[h] == (DRepModel { active: b[h].active, ..a[h] })
            &&& t == (LedgerModel { governance: GovernanceModel { dreps: b, ..s.governance }, ..s })
        }),
{
}

/// Committee members whose terms end by the new epoch leave with their hot
/// credentials; the others stay.
pub proof fn law_terms_end(s: LedgerModel, e: EpochNo, c: Hash32)
    ensures
        ({
            let t = committee_expired(s, e);
            let (g, h) = (s.governance, t.governance);
            let over = g.committee_expiration.dom().contains(c) && g.committee_expiration[c].0 <= e.0;
            &&& over ==> !h.committee_expiration.dom().contains(c) && !h.committee_hot_keys.dom().contains(c)
            &&& !over ==> agree(g.committee_expiration, h.committee_expiration, c) && agree(
                g.committee_hot_keys,
                h.committee_hot_keys,
                c,
            )
            &&& t == (LedgerModel {
                governance: GovernanceModel {
                    committee_expiration: h.committee_expiration,
                    committee_hot_keys: h.committee_hot_keys,
                    ..g
                },
                ..s
            })
        }),
{
}

/// The power of the representatives is kept for the next ratification, unless
/// nobody delegates a vote.
pub proof fn law_power_kept(s: LedgerModel)
    requires
        standing_power(s, DRep::AlwaysNoConfidence) <= u64::MAX,
        standing_power(s, DRep::AlwaysAbstain) <= u64::MAX,
    ensures
        ({
            let t = power_snapped(s);
            let none = s.governance.vote_delegations == Map::<Hash32, DRep>::empty();
            &&& none ==> t == s
            &&& !none ==> t.governance.drep_power_snapshot == live_power(s) && t.governance.drep_no_confidence_snapshot
                == standing_power(s, DRep::AlwaysNoConfidence) && t.governance.drep_abstain_snapshot == standing_power(
                s,
                DRep::AlwaysAbstain,
            )
            &&& t == (LedgerModel {
                governance: GovernanceModel {
                    drep_power_snapshot: t.governance.drep_power_snapshot,
                    drep_no_confidence_snapshot: t.governance.drep_no_confidence_snapshot,
                    drep_abstain_snapshot: t.governance.drep_abstain_snapshot,
                    ..s.governance
                },
                ..s
            })
        }),
{
}

// ---- the boundary as a whole ----

/// What ratified actions, their deposits and those of expired proposals leave
/// as it was.
pub open spec fn beyond_actions(s: LedgerModel, t: LedgerModel) -> bool {
    t == (LedgerModel {
        protocol_params: t.protocol_params,
        prev_protocol_params: t.prev_protocol_params,
        treasury: t.treasury,
        reward_accounts: t.reward_accounts,
        deposits: t.deposits,
        governance: GovernanceModel {
            proposals: t.governance.proposals,
            votes_by_action: t.governance.votes_by_action,
            committee_hot_keys: t.governance.committee_hot_keys,
            committee_expiration: t.governance.committee_expiration,
            committee_resigned: t.governance.committee_resigned,
            committee_threshold: t.governance.committee_threshold,
            no_confidence: t.governance.no_confidence,
            constitution: t.governance.constitution,
            conway_cur_params: t.governance.conway_cur_params,
            enacted_pparam_update: t.governance.enacted_pparam_update,
            enacted_hard_fork: t.governance.enacted_hard_fork,
            enacted_committee: t.governance.enacted_committee,
            enacted_constitution: t.governance.enacted_constitution,
            last_ratified: t.governance.last_ratified,
            last_expired: t.governance.last_expired,
            last_ratify_delayed: t.governance.last_ratify_delayed,
            ..s.governance
        },
        ..s
    })
}

proof fn lemma_enacted_beyond(s: LedgerModel, l: Seq<EnactmentModel>)
    ensures
        beyond_actions(s, enacted_all(s, l)),
    decreases l.len(),
{
    if l.len() > 0 {
        lemma_enacted_beyond(s, l.drop_last());
    }
}

proof fn lemma_expired_beyond(s: LedgerModel, l: Seq<GovActionId>)
    ensures
        beyond_actions(s, proposals_expired(s, l)),
    decreases l.len(),
{
    if l.len() > 0 {
        lemma_expired_beyond(s, l.drop_last());
    }
}

proof fn lemma_retired_beyond(s: LedgerModel, l: Seq<Hash28>)
    ensures
        ({
            let t = pools_retired(s, l);
            t == (LedgerModel {
                pending_retirements: t.pending_retirements,
                pool_params: t.pool_params,
                reward_accounts: t.reward_accounts,
                treasury: t.treasury,
                deposits: t.deposits,
                ..s
            })
        }),
    decreases l.len(),
{
    if l.len() > 0 {
        lemma_retired_beyond(s, l.drop_last());
    }
}

/// A boundary leaves the votes that are delegated, the stake of credentials,
/// the nonces of the running epoch and the registration of representatives as
/// they were. Every representative is active where it was so within the period
/// of the parameters that are now in force. The nonce of the new epoch is that
/// of the candidate and the kept one.
pub proof fn law_boundary_as_a_whole(s: LedgerModel, e: EpochNo, h: Hash32)
    ensures
        ({
            let t = after_transition(s, e);
            let (a, b) = (s.governance.dreps, t.governance.dreps);
            let period = t.protocol_params.drep_activity_period;
            &&& t.governance.vote_delegations == s.governance.vote_delegations
            &&& t.stake_map == s.stake_map
            &&& t.evolving_nonce == s.evolving_nonce
            &&& t.candidate_nonce == s.candidate_nonce
            &&& t.lab_nonce == s.lab_nonce
            &&& t.epoch_nonce == combined(s.candidate_nonce, s.last_epoch_block_nonce)
            &&& t.last_epoch_block_nonce == s.lab_nonce
            &&& t.prev_epoch_decentralization == s.protocol_params.decentralization
            &&& t.pending_enactments.len() == 0
            &&& t.governance.drep_registration_count == s.governance.drep_registration_count
            &&& t.governance.proposal_count == s.governance.proposal_count
            &&& t.script_stake_credentials == s.script_stake_credentials
            &&& t.ptr_map == s.ptr_map
            &&& t.conway_genesis_epoch == s.conway_genesis_epoch
            &&& t.epoch_length == s.epoch_length && t.update_quorum == s.update_quorum
            &&& t.shelley_transition_epoch == s.shelley_transition_epoch && t.has_byron == s.has_byron
            &&& b.dom().contains(h) == a.dom().contains(h)
            &&& a.dom().contains(h) && period > 0 ==> b[h].active == (e.0 <= a[h].last_active_epoch.0 + period)
            &&& a.dom().contains(h) && period == 0 ==> b[h].active == a[h].active
            &&& a.dom().contains(h) ==> b[h] == (DRepModel { active: b[h].active, ..a[h] })
        }),
{
    lemma_boundary_path(s, e);
}

/// The states that a boundary passes through.
proof fn lemma_boundary_path(s: LedgerModel, e: EpochNo)
    ensures
        ({
            let b = before_ratification(s, e);
            let a = after_ratification(b);
            let t = enacted_all(a, enactments_of(ratify_round(b).ratified));
            let x = overdue_expired(t, e);
            &&& b.governance == s.governance
            &&& b.stake_map == s.stake_map
            &&& b.evolving_nonce == s.evolving_nonce && b.candidate_nonce == s.candidate_nonce && b.lab_nonce == s.lab_nonce
                && b.last_epoch_block_nonce == s.last_epoch_block_nonce
            &&& b.prev_epoch_decentralization == s.protocol_params.decentralization
            &&& b.pending_enactments.len() == 0
            &&& b.script_stake_credentials == s.script_stake_credentials && b.ptr_map == s.ptr_map
            &&& b.conway_genesis_epoch == s.conway_genesis_epoch && b.epoch_length == s.epoch_length && b.update_quorum
                == s.update_quorum && b.shelley_transition_epoch == s.shelley_transition_epoch && b.has_byron == s.has_byron
            &&& beyond_actions(b, a)
            &&& beyond_actions(a, t)
            &&& beyond_actions(t, x)
            &&& before_power(s, e) == committee_expired(dreps_aged(x, e), e)
        }),
{
    let b = before_ratification(s, e);
    let c = snapped(rewards_applied(conway_propagated(s, e)));
    lemma_retired_beyond(pools_activated(c), due(listing::<Hash28, EpochNo>(c.pending_retirements), e));
    let a = after_ratification(b);
    law_ratified_have_votes(b, ratify_order(b), ratify_power(b).0, ratify_power(b).1);
    let t = enacted_all(a, enactments_of(ratify_round(b).ratified));
    lemma_enacted_beyond(a, enactments_of(ratify_round(b).ratified));
    lemma_expired_beyond(t, overdue(listing::<GovActionId, ProposalModel>(t.governance.proposals), e));
}

/// What governance does at a boundary: the votes are counted on the ledger
/// after rewards, retirements and updates; what they ratify takes effect and is
/// on record; then proposals and terms expire, and the power of the
/// representatives is kept.
pub proof fn law_boundary_governs(s: LedgerModel, e: EpochNo)
    requires
        s.governance.vote_delegations != Map::<Hash32, DRep>::empty(),
    ensures
        ({
            let b = before_ratification(s, e);
            let a = enacted_all(after_ratification(b), enactments_of(ratify_round(b).ratified));
            let t = after_transition(s, e);
            &&& t.governance.last_ratified == ratify_round(b).ratified
            &&& t.governance.constitution == a.governance.constitution
            &&& t.governance.committee_threshold == a.governance.committee_threshold
            &&& t.governance.no_confidence == a.governance.no_confidence
            &&& t.protocol_params == a.protocol_params
            &&& t.governance.conway_cur_params == a.governance.conway_cur_params
            &&& t.governance.proposals == overdue_expired(a, e).governance.proposals
            &&& t.governance.last_expired == overdue_expired(a, e).governance.last_expired
            &&& t.reward_accounts == overdue_expired(a, e).reward_accounts
            &&& t.treasury == a.treasury
            &&& t.deposits == overdue_expired(a, e).deposits
            &&& t.governance.committee_expiration == committee_expired(a, e).governance.committee_expiration
            &&& t.governance.committee_hot_keys == committee_expired(a, e).governance.committee_hot_keys
            &&& t.governance.drep_power_snapshot == live_power(before_power(s, e))
        }),
{
    lemma_boundary_path(s, e);
    let b = before_ratification(s, e);
    let a = enacted_all(after_ratification(b), enactments_of(ratify_round(b).ratified));
    lemma_last_ratified(after_ratification(b), enactments_of(ratify_round(b).ratified));
    lemma_expired_keeps(a, overdue(listing::<GovActionId, ProposalModel>(a.governance.proposals), e));
    let (x, y) = (committee_expired(dreps_aged(overdue_expired(a, e), e), e).governance, committee_expired(a, e).governance);
    assert(x.committee_expiration =~= y.committee_expiration);
    assert(x.committee_hot_keys =~= y.committee_hot_keys);
}

proof fn lemma_last_ratified(s: LedgerModel, l: Seq<EnactmentModel>)
    ensures
        enacted_all(s, l).governance.last_ratified == s.governance.last_ratified,
    decreases l.len(),
{
    if l.len() > 0 {
        lemma_last_ratified(s, l.drop_last());
    }
}

proof fn lemma_expired_keeps(s: LedgerModel, l: Seq<GovActionId>)
    ensures
        ({
            let t = proposals_expired(s, l);
            let (g, h) = (s.governance, t.governance);
            &&& t.treasury == s.treasury
            &&& t.protocol_params == s.protocol_params
            &&& h == (GovernanceModel { proposals: h.proposals, votes_by_action: h.votes_by_action, ..g })
        }),
    decreases l.len(),
{
    if l.len() > 0 {
        lemma_expired_keeps(s, l.drop_last());
    }
}

/// The ledger on which votes are counted: rewards are applied, the pools that
/// are due are gone, and the update that a quorum proposed is in force.
pub proof fn law_before_ratification(s: LedgerModel, e: EpochNo)
    ensures
        ({
            let p = conway_propagated(s, e);
            let r = pools_reaped(snapped(rewards_applied(p)), e);
            let b = before_ratification(s, e);
            let u = voted_update(s.pending_pp_updates[s.epoch], s.update_quorum);
            let now = s.pending_pp_updates.dom().contains(s.epoch);
            &&& b.reserves == rewards_applied(p).reserves
            &&& b.treasury == r.treasury
            &&& b.reward_accounts == r.reward_accounts
            &&& b.delegations == r.delegations
            &&& b.pool_params == r.pool_params
            &&& b.deposits == r.deposits
            &&& now && u is Some ==> b.protocol_params == updated_params(p.protocol_params, u->0)
            &&& !now || u is None ==> b.protocol_params == p.protocol_params
            &&& b.snapshots.current_epoch_fees == s.epoch_fees
        }),
{
    let c = snapped(rewards_applied(conway_propagated(s, e)));
    lemma_retired_beyond(pools_activated(c), due(listing::<Hash28, EpochNo>(c.pending_retirements), e));
}

// ---- nonces ----

/// Two nonces, neither of them neutral, are combined by the digest of the first
/// with the second behind it; a block's contribution by that of the nonce with
/// the contribution behind it.
pub proof fn law_nonces_combined(a: Hash32, b: Hash32, eta: Seq<u8>, h: Hash32, k: Hash32)
    requires
        h@ == blake2b_256_of(a@ + b@),
        k@ == blake2b_256_of(a@ + eta),
    ensures
        a != zero_hash() && b != zero_hash() ==> combined(a, b) == h,
        evolved(a, eta) == k,
{
    assert(hash_of(a@ + b@)@ == h@);
    assert(hash_of(a@ + b@) =~= h);
    assert(hash_of(a@ + eta)@ == k@);
    assert(hash_of(a@ + eta) =~= k);
}

/// The nonce of a new epoch comes from the candidate and from the LAB nonce that
/// was kept at the last boundary; the current LAB nonce is kept for the next.
pub proof fn law_nonce_of_epoch(s: LedgerModel)
    ensures
        ({
            let t = nonce_ticked(s);
            &&& t.epoch_nonce == combined(s.candidate_nonce, s.last_epoch_block_nonce)
            &&& t.last_epoch_block_nonce == s.lab_nonce
            &&& t == (LedgerModel {
                epoch_nonce: t.epoch_nonce,
                last_epoch_block_nonce: t.last_epoch_block_nonce,
                ..s
            })
        }),
{
}

/// Epochs follow on each other: each starts as many slots after the one before
/// as that has, by its era.
pub proof fn law_first_slots(s: LedgerModel, epoch: u64)
    requires
        epoch < u64::MAX,
    ensures
        first_slot(s, 0) == 0,
        first_slot(s, (epoch + 1) as u64) == first_slot(s, epoch) + if epoch < s.shelley_transition_epoch {
            s.byron_epoch_length
        } else {
            s.epoch_length
        },
{
    let (t, b, l) = (s.shelley_transition_epoch as int, s.byron_epoch_length as int, s.epoch_length as int);
    let e = epoch as int;
    assert(0 * b == 0 && 0 * l == 0) by (nonlinear_arith);
    assert((e + 1) * b == e * b + b) by (nonlinear_arith);
    if e + 1 == t {
        assert(t * b == (e + 1) * b);
    } else if e >= t {
        assert((e + 1 - t) * l == (e - t) * l + l) by (nonlinear_arith);
    }
}

/// The candidate nonce is frozen from the slot on that is the stabilisation
/// window before the next epoch.
pub proof fn law_freeze_begins(s: LedgerModel, slot: u64)
    requires
        slot + s.randomness_stabilisation_window <= u64::MAX,
        s.epoch.0 < u64::MAX,
    ensures
        frozen(s, slot) == (slot + s.randomness_stabilisation_window >= first_slot(s, (s.epoch.0 + 1) as u64)),
{
}

/// As long as there is no go snapshot, the next reward update has no stake to
/// pay to.
pub proof fn law_first_rewards(s: LedgerModel, e: EpochNo)
    requires
        s.snapshots.set is None,
    ensures
        after_transition(s, e).pending_reward_update matches Some(r) && r.rewards == Map::<Hash32, Lovelace>::empty()
            && r.total_distributed == 0,
{
    lemma_reaches_rewards(s, e);
    let b = before_rewards(s, e);
    let g = crate::ledger::epoch::reward_basis(b);
    crate::ledger::bounds::law_no_blocks_no_rewards(b, g, b.snapshots.current_epoch_fees, s.protocol_params);
}

/// An update that a quorum decided on is logged with its epoch and its changes.
pub proof fn law_update_logged(e: EpochNo, p: ProtocolParameters, u: ProtocolParamUpdate)
    ensures
        enacted_message(e, p, u) == "PPUP: enacted protocol parameter update epoch="@ + decimal_chars(e.0 as nat)
            + " changes=\""@ + changes_text(p, u) + "\""@,
{
}

} // verus!
