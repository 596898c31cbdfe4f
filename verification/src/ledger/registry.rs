//! What certificates leave on record.

use vstd::prelude::*;
use crate::ledger::certificates::{after_certificate, after_withdrawal, mir_credited, mir_total};
use crate::ledger::primitives::{
    Anchor, Certificate, Credential, DRep, EpochNo, Hash28, Hash32, Lovelace, MIRSource, MIRTarget, PoolParams,
};
use crate::ledger::state::{DRepModel, GovernanceModel, LedgerModel, PoolModel};

verus! {

// ---- what a certificate names ----

/// The pool that a certificate names for a credential.
pub open spec fn pool_choice(cert: Certificate) -> Option<(Hash32, Hash28)> {
    match cert {
        Certificate::StakeDelegation { credential, pool_hash } => Some((credential.hash(), pool_hash)),
        Certificate::RegStakeDeleg { credential, pool_hash, .. } => Some((credential.hash(), pool_hash)),
        Certificate::StakeVoteDelegation { credential, pool_hash, .. } => Some((credential.hash(), pool_hash)),
        Certificate::RegStakeVoteDeleg { credential, pool_hash, .. } => Some((credential.hash(), pool_hash)),
        _ => None,
    }
}

/// The representative that a certificate names for a credential.
pub open spec fn drep_choice(cert: Certificate) -> Option<(Hash32, DRep)> {
    match cert {
        Certificate::VoteDelegation { credential, drep } => Some((credential.hash(), drep)),
        Certificate::StakeVoteDelegation { credential, drep, .. } => Some((credential.hash(), drep)),
        Certificate::RegStakeVoteDeleg { credential, drep, .. } => Some((credential.hash(), drep)),
        Certificate::VoteRegDeleg { credential, drep, .. } => Some((credential.hash(), drep)),
        _ => None,
    }
}

/// The credential that a certificate registers.
pub open spec fn arrival(cert: Certificate) -> Option<Credential> {
    match cert {
        Certificate::StakeRegistration(credential) => Some(credential),
        Certificate::ConwayStakeRegistration { credential, .. } => Some(credential),
        Certificate::RegStakeDeleg { credential, .. } => Some(credential),
        Certificate::RegStakeVoteDeleg { credential, .. } => Some(credential),
        Certificate::VoteRegDeleg { credential, .. } => Some(credential),
        _ => None,
    }
}

/// The credential that a certificate deregisters.
pub open spec fn departure(cert: Certificate) -> Option<Credential> {
    match cert {
        Certificate::StakeDeregistration(credential) => Some(credential),
        Certificate::ConwayStakeDeregistration { credential, .. } => Some(credential),
        _ => None,
    }
}

// ---- how a record follows ----

/// Whether two maps agree on a key.
pub open spec fn agree<K, V>(a: Map<K, V>, b: Map<K, V>, k: K) -> bool {
    a.dom().contains(k) == b.dom().contains(k) && (a.dom().contains(k) ==> a[k] == b[k])
}

/// Whether the second map gives a value for a key, and is the first one for all
/// other keys.
pub open spec fn records<K, V>(a: Map<K, V>, b: Map<K, V>, k: K, v: V) -> bool {
    b.dom().contains(k) && b[k] == v && forall|other: K| other != k ==> #[trigger] agree(a, b, other)
}

/// Whether the second map has no value for a key, and is the first one for all
/// other keys.
pub open spec fn forgets<K, V>(a: Map<K, V>, b: Map<K, V>, k: K) -> bool {
    !b.dom().contains(k) && forall|other: K| other != k ==> #[trigger] agree(a, b, other)
}

/// A certificate that names a pool for a credential leaves that pool on record
/// for it, and nothing else changes.
pub open spec fn pool_choice_kept(s: LedgerModel, t: LedgerModel, cert: Certificate) -> bool {
    pool_choice(cert) matches Some(x) ==> records(s.delegations, t.delegations, x.0, x.1)
}

/// A certificate that names a representative leaves it on record, and nothing
/// else changes.
pub open spec fn drep_choice_kept(s: LedgerModel, t: LedgerModel, cert: Certificate) -> bool {
    drep_choice(cert) matches Some(x) ==> records(
        s.governance.vote_delegations,
        t.governance.vote_delegations,
        x.0,
        x.1,
    )
}

/// The hash of a representative that is a credential.
pub open spec fn hash_in(d: DRep) -> Option<Hash32> {
    match d {
        DRep::KeyHash(h) => Some(h),
        DRep::ScriptHash(h) => Some(h),
        DRep::AlwaysAbstain => None,
        DRep::AlwaysNoConfidence => None,
    }
}

/// A registered representative remembers who delegates to it. The one that a
/// credential leaves forgets it; at protocol version 9 it does so only where
/// the new one is not registered. Nothing else about them changes.
pub open spec fn delegators_kept(s: LedgerModel, t: LedgerModel, cert: Certificate, h: Hash32) -> bool {
    let (a, b) = (s.governance.dreps, t.governance.dreps);
    drep_choice(cert) matches Some(x) ==> {
        let to = hash_in(x.1) == Some(h);
        let known = hash_in(x.1) is Some && a.dom().contains(hash_in(x.1)->0);
        let from = s.governance.vote_delegations.dom().contains(x.0) && hash_in(s.governance.vote_delegations[x.0])
            == Some(h);
        let leaves = from && !(s.protocol_params.protocol_version_major == 9 && known);
        &&& b.dom().contains(h) == a.dom().contains(h)
        &&& a.dom().contains(h) ==> {
            &&& to ==> b[h].delegs == a[h].delegs.insert(x.0)
            &&& !to && leaves ==> b[h].delegs == a[h].delegs.remove(x.0)
            &&& !to && !leaves ==> b[h].delegs == a[h].delegs
            &&& b[h] == (DRepModel { delegs: b[h].delegs, ..a[h] })
        }
    }
}

/// What a pool registers with.
pub open spec fn registered_as(m: PoolModel, p: PoolParams) -> bool {
    &&& m.pool_id == p.operator
    &&& m.vrf_keyhash == p.vrf_keyhash
    &&& m.pledge == p.pledge
    &&& m.cost == p.cost
    &&& m.margin_numerator == p.margin.numerator
    &&& m.margin_denominator == p.margin.denominator
    &&& m.reward_account == p.reward_account@
    &&& m.owners == p.pool_owners@
}

/// A new pool takes effect at once. One that is there waits for the boundary,
/// with its retirement called off. Other pools are not affected.
pub open spec fn pool_kept(s: LedgerModel, t: LedgerModel, p: PoolParams) -> bool {
    let k = p.operator;
    &&& !s.pool_params.dom().contains(k) ==> {
        &&& t.pool_params.dom().contains(k)
        &&& registered_as(t.pool_params[k], p)
        &&& records(s.pool_params, t.pool_params, k, t.pool_params[k])
        &&& t.future_pool_params == s.future_pool_params
        &&& t.pending_retirements == s.pending_retirements
    }
    &&& s.pool_params.dom().contains(k) ==> {
        &&& t.pool_params == s.pool_params
        &&& t.future_pool_params.dom().contains(k)
        &&& registered_as(t.future_pool_params[k], p)
        &&& records(s.future_pool_params, t.future_pool_params, k, t.future_pool_params[k])
        &&& forgets(s.pending_retirements, t.pending_retirements, k)
    }
}

/// A representative that registers is active from now on, with its deposit and
/// its anchor, and nobody delegates to it yet.
pub open spec fn drep_kept(s: LedgerModel, t: LedgerModel, cred: Credential, deposit: Lovelace, anchor: Option<Anchor>) -> bool {
    let h = cred.hash();
    let d = t.governance.dreps[h];
    &&& t.governance.dreps.dom().contains(h)
    &&& d.credential == cred
    &&& d.deposit == deposit
    &&& d.anchor == anchor
    &&& d.active
    &&& d.registered_epoch == s.epoch
    &&& d.last_active_epoch == s.epoch
    &&& d.delegs == Set::<Hash32>::empty()
    &&& records(s.governance.dreps, t.governance.dreps, h, d)
    &&& t.governance.drep_registration_count == s.governance.drep_registration_count + 1
}

/// A representative that leaves is gone, and with it the delegations that it
/// remembers; others stay.
pub open spec fn drep_gone(s: LedgerModel, t: LedgerModel, h: Hash32, voter: Hash32) -> bool {
    let (a, b) = (s.governance.vote_delegations, t.governance.vote_delegations);
    let remembered = s.governance.dreps.dom().contains(h) && s.governance.dreps[h].delegs.contains(voter);
    &&& forgets(s.governance.dreps, t.governance.dreps, h)
    &&& remembered ==> !b.dom().contains(voter)
    &&& !remembered ==> agree(a, b, voter)
}

/// A representative that changes its anchor was active in this epoch; one that
/// is not registered changes nothing.
pub open spec fn drep_anchored(s: LedgerModel, t: LedgerModel, h: Hash32, anchor: Option<Anchor>) -> bool {
    let (a, b) = (s.governance.dreps, t.governance.dreps);
    &&& !a.dom().contains(h) ==> t == s
    &&& a.dom().contains(h) ==> {
        &&& b.dom().contains(h)
        &&& b[h].anchor == anchor
        &&& b[h].last_active_epoch == s.epoch
        &&& b[h] == (DRepModel { anchor: b[h].anchor, last_active_epoch: b[h].last_active_epoch, ..a[h] })
        &&& records(a, b, h, b[h])
    }
}

/// A committee member that names a hot credential has it on record, and is not
/// resigned.
pub open spec fn hot_key_kept(s: LedgerModel, t: LedgerModel, cold: Credential, hot: Credential) -> bool {
    let (g, h) = (s.governance, t.governance);
    &&& records(g.committee_hot_keys, h.committee_hot_keys, cold.hash(), hot.hash())
    &&& forgets(g.committee_resigned, h.committee_resigned, cold.hash())
    &&& h.committee_expiration == g.committee_expiration
    &&& cold is Script ==> h.script_committee_credentials == g.script_committee_credentials.insert(cold.hash())
    &&& cold is Key ==> h.script_committee_credentials == g.script_committee_credentials
}

/// A committee member that resigns has no hot credential any more.
pub open spec fn resignation_kept(s: LedgerModel, t: LedgerModel, cold: Credential) -> bool {
    let (g, h) = (s.governance, t.governance);
    &&& forgets(g.committee_hot_keys, h.committee_hot_keys, cold.hash())
    &&& h.committee_resigned.dom().contains(cold.hash())
    &&& records(g.committee_resigned, h.committee_resigned, cold.hash(), h.committee_resigned[cold.hash()])
    &&& h.committee_expiration == g.committee_expiration
    &&& cold is Script ==> h.script_committee_credentials == g.script_committee_credentials.insert(cold.hash())
    &&& cold is Key ==> h.script_committee_credentials == g.script_committee_credentials
}

/// The parts of the ledger that no certificate but one on instantaneous rewards
/// changes.
pub open spec fn chain_kept(s: LedgerModel, t: LedgerModel) -> bool {
    t == (LedgerModel {
        stake_map: t.stake_map,
        delegations: t.delegations,
        pool_params: t.pool_params,
        future_pool_params: t.future_pool_params,
        pending_retirements: t.pending_retirements,
        reward_accounts: t.reward_accounts,
        deposits: t.deposits,
        script_stake_credentials: t.script_stake_credentials,
        governance: GovernanceModel {
            dreps: t.governance.dreps,
            vote_delegations: t.governance.vote_delegations,
            committee_hot_keys: t.governance.committee_hot_keys,
            committee_resigned: t.governance.committee_resigned,
            script_committee_credentials: t.governance.script_committee_credentials,
            script_committee_hot_credentials: t.governance.script_committee_hot_credentials,
            drep_registration_count: t.governance.drep_registration_count,
            ..s.governance
        },
        ..s
    })
}

/// Certificates of one kind leave the records of the others as they are.
pub open spec fn apart(s: LedgerModel, t: LedgerModel, cert: Certificate) -> bool {
    let (g, h) = (s.governance, t.governance);
    let committee = cert is CommitteeHotAuth || cert is CommitteeColdResign;
    let office = cert is RegDRep || cert is UnregDRep || cert is UpdateDRep;
    let comes = arrival(cert) is Some;
    let goes = departure(cert) is Some;
    &&& !committee ==> h.committee_hot_keys == g.committee_hot_keys && h.committee_resigned == g.committee_resigned
        && h.script_committee_credentials == g.script_committee_credentials && h.script_committee_hot_credentials
        == g.script_committee_hot_credentials
    &&& drep_choice(cert) is None && !office ==> h.dreps == g.dreps
    &&& drep_choice(cert) is None && !(cert is UnregDRep) ==> h.vote_delegations == g.vote_delegations
    &&& !(cert is RegDRep) ==> h.drep_registration_count == g.drep_registration_count
    &&& !(cert is PoolRegistration) ==> t.pool_params == s.pool_params && t.future_pool_params == s.future_pool_params
    &&& !(cert is PoolRegistration) && !(cert is PoolRetirement) ==> t.pending_retirements == s.pending_retirements
    &&& pool_choice(cert) is None && !goes ==> t.delegations == s.delegations
    &&& !comes && !goes ==> t.script_stake_credentials == s.script_stake_credentials && t.stake_map == s.stake_map
}

// ---- certificates of the ledger ----

/// Whether a certificate is in force: those that came with Conway are so from
/// protocol version 9 on.
pub open spec fn in_force(s: LedgerModel, cert: Certificate) -> bool {
    ||| s.protocol_params.protocol_version_major >= 9
    ||| cert is StakeRegistration
    ||| cert is StakeDeregistration
    ||| cert is StakeDelegation
    ||| cert is PoolRegistration
    ||| cert is PoolRetirement
    ||| cert is GenesisKeyDelegation
    ||| cert is MoveInstantaneousRewardsCert
}

/// A certificate that is not in force changes nothing. One that names a pool or
/// a representative leaves it on record.
pub proof fn law_choices_kept(s: LedgerModel, cert: Certificate, h: Hash32)
    ensures
        !in_force(s, cert) ==> after_certificate(s, cert) == s,
        in_force(s, cert) ==> pool_choice_kept(s, after_certificate(s, cert), cert),
        in_force(s, cert) ==> drep_choice_kept(s, after_certificate(s, cert), cert),
        in_force(s, cert) ==> delegators_kept(s, after_certificate(s, cert), cert, h),
        apart(s, after_certificate(s, cert), cert),
        arrival(cert) is None && departure(cert) is None && !(cert is MoveInstantaneousRewardsCert)
            ==> after_certificate(s, cert).reward_accounts == s.reward_accounts,
        after_certificate(s, cert).deposits == s.deposits,
        cert is MoveInstantaneousRewardsCert || chain_kept(s, after_certificate(s, cert)),
        cert is GenesisKeyDelegation ==> after_certificate(s, cert) == s,
{
    let t = after_certificate(s, cert);
    if let Some(x) = drep_choice(cert) {
        assert(hash_in(x.1) == crate::ledger::certificates::drep_hash(x.1));
        if s.governance.vote_delegations.dom().contains(x.0) {
            let y = s.governance.vote_delegations[x.0];
            assert(hash_in(y) == crate::ledger::certificates::drep_hash(y));
        }
        if in_force(s, cert) && s.governance.dreps.dom().contains(h) {
            let (a, b) = (s.governance.dreps[h].delegs, t.governance.dreps[h].delegs);
            if hash_in(x.1) == Some(h) {
                assert(a.remove(x.0).insert(x.0) =~= a.insert(x.0));
            }
        }
    }
}

/// A credential that registers has an account, which starts empty where it is
/// new and stays as it is otherwise. Accounts of others stay.
pub proof fn law_arrival(s: LedgerModel, cert: Certificate)
    requires
        in_force(s, cert),
        arrival(cert) is Some,
    ensures
        ({
            let t = after_certificate(s, cert);
            let c = arrival(cert)->0;
            let k = c.hash();
            &&& s.reward_accounts.dom().contains(k) ==> t.reward_accounts == s.reward_accounts
            &&& !s.reward_accounts.dom().contains(k) ==> records(
                s.reward_accounts,
                t.reward_accounts,
                k,
                Lovelace(0),
            )
            &&& s.stake_map.dom().contains(k) ==> t.stake_map == s.stake_map
            &&& !s.stake_map.dom().contains(k) ==> records(s.stake_map, t.stake_map, k, Lovelace(0))
            &&& c is Script ==> t.script_stake_credentials == s.script_stake_credentials.insert(k)
            &&& c is Key ==> t.script_stake_credentials == s.script_stake_credentials
        }),
{
}

/// A credential that leaves has no account, no stake and no delegation any
/// more. Before Conway one with a balance cannot leave.
pub proof fn law_departure(s: LedgerModel, cert: Certificate)
    requires
        in_force(s, cert),
        departure(cert) is Some,
    ensures
        ({
            let t = after_certificate(s, cert);
            let k = (departure(cert)->0).hash();
            let held = s.reward_accounts.dom().contains(k) && s.reward_accounts[k].0 > 0;
            &&& cert is StakeDeregistration && held ==> t == s
            &&& cert is ConwayStakeDeregistration || !held ==> {
                &&& forgets(s.reward_accounts, t.reward_accounts, k)
                &&& forgets(s.stake_map, t.stake_map, k)
                &&& forgets(s.delegations, t.delegations, k)
                &&& t.script_stake_credentials == s.script_stake_credentials.remove(k)
                &&& t.governance == s.governance
            }
        }),
{
}

/// What certificates on pools, representatives and the committee leave on
/// record.
pub proof fn law_offices(s: LedgerModel, cert: Certificate, voter: Hash32)
    requires
        in_force(s, cert),
        s.governance.drep_registration_count < u64::MAX,
    ensures
        ({
            let t = after_certificate(s, cert);
            &&& cert matches Certificate::PoolRegistration(p) ==> pool_kept(s, t, p)
            &&& cert matches Certificate::RegDRep { credential, deposit, anchor } ==> drep_kept(
                s,
                t,
                credential,
                deposit,
                anchor,
            )
            &&& cert matches Certificate::UnregDRep { credential, .. } ==> drep_gone(s, t, credential.hash(), voter)
            &&& cert matches Certificate::UpdateDRep { credential, anchor } ==> drep_anchored(
                s,
                t,
                credential.hash(),
                anchor,
            )
            &&& cert matches Certificate::CommitteeHotAuth { cold_credential, hot_credential } ==> hot_key_kept(
                s,
                t,
                cold_credential,
                hot_credential,
            )
            &&& cert matches Certificate::CommitteeColdResign { cold_credential, anchor } ==> resignation_kept(
                s,
                t,
                cold_credential,
            ) && t.governance.committee_resigned[cold_credential.hash()] == anchor
        }),
{
}

/// A retirement is planned for its epoch, unless that is further ahead than the
/// protocol allows.
pub proof fn law_retirement(s: LedgerModel, pool: Hash28, epoch: u64)
    ensures
        ({
            let t = after_certificate(s, Certificate::PoolRetirement { pool_hash: pool, epoch });
            &&& epoch > s.epoch.0 + s.protocol_params.e_max ==> t == s
            &&& epoch <= s.epoch.0 + s.protocol_params.e_max ==> records(
                s.pending_retirements,
                t.pending_retirements,
                pool,
                EpochNo(epoch),
            ) && t == (LedgerModel { pending_retirements: t.pending_retirements, ..s })
        }),
{
}

/// The withdrawal of an account that is not registered changes nothing; one of
/// a registered account sets its balance to zero and touches nothing else.
pub proof fn law_withdrawn(s: LedgerModel, key: Hash32)
    ensures
        ({
            let t = after_withdrawal(s, key);
            &&& !s.reward_accounts.dom().contains(key) ==> t == s
            &&& s.reward_accounts.dom().contains(key) ==> records(
                s.reward_accounts,
                t.reward_accounts,
                key,
                Lovelace(0),
            )
            &&& t == (LedgerModel { reward_accounts: t.reward_accounts, ..s })
        }),
{
}

// ---- instantaneous rewards ----

/// One more instantaneous reward goes to its account, on top of what it has;
/// the accounts of others stay.
pub proof fn law_reward_moved(accounts: Map<Hash32, Lovelace>, l: Seq<(Credential, Lovelace)>, x: (Credential, Lovelace))
    ensures
        ({
            let before = mir_credited(accounts, l);
            let after = mir_credited(accounts, l.push(x));
            let k = x.0.hash();
            &&& mir_credited(accounts, Seq::empty()) == accounts
            &&& mir_total(Seq::empty()) == 0
            &&& mir_total(l.push(x)) == mir_total(l) + x.1.0
            &&& !before.dom().contains(k) ==> records(before, after, k, x.1)
            &&& before.dom().contains(k) && before[k].0 + x.1.0 <= u64::MAX ==> records(
                before,
                after,
                k,
                Lovelace((before[k].0 + x.1.0) as u64),
            )
        }),
{
    assert(l.push(x).drop_last() =~= l);
}

/// Instantaneous rewards are paid by the pot that they name, and the other pot
/// stays. What is moved between the pots leaves one for the other.
pub proof fn law_pots(s: LedgerModel, source: MIRSource, target: MIRTarget)
    ensures
        ({
            let t = after_certificate(s, Certificate::MoveInstantaneousRewardsCert { source, target });
            &&& target matches MIRTarget::StakeCredentials(l) ==> {
                let total = mir_total(l@);
                &&& t.reward_accounts == mir_credited(s.reward_accounts, l@)
                &&& source is Reserves ==> t.treasury == s.treasury
                &&& source is Treasury ==> t.reserves == s.reserves
                &&& source is Reserves && total <= s.reserves.0 ==> t.reserves.0 == s.reserves.0 - total
                &&& source is Treasury && total <= s.treasury.0 ==> t.treasury.0 == s.treasury.0 - total
            }
            &&& target matches MIRTarget::OtherPot(coin) ==> {
                &&& t.reward_accounts == s.reward_accounts
                &&& source is Reserves && coin.0 <= s.reserves.0 && s.treasury.0 + coin.0 <= u64::MAX ==> t.reserves.0
                    == s.reserves.0 - coin.0 && t.treasury.0 == s.treasury.0 + coin.0
                &&& source is Treasury && coin.0 <= s.treasury.0 && s.reserves.0 + coin.0 <= u64::MAX ==> t.treasury.0
                    == s.treasury.0 - coin.0 && t.reserves.0 == s.reserves.0 + coin.0
                &&& source is Reserves && coin.0 > s.reserves.0 ==> t.reserves.0 == 0
                &&& source is Treasury && coin.0 > s.treasury.0 ==> t.treasury.0 == 0
            }
            &&& t == (LedgerModel {
                reward_accounts: t.reward_accounts,
                treasury: t.treasury,
                reserves: t.reserves,
                ..s
            })
        }),
{
}

} // verus!
