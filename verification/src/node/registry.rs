//! What the certificates of blocks leave on record.

use vstd::prelude::*;
use crate::ledger::primitives::{Certificate, ChainPointer, Credential, EpochNo, Hash32, Lovelace};
use crate::ledger::registry::{
    agree, apart, arrival, chain_kept, delegators_kept, departure, drep_anchored, drep_choice, drep_choice_kept, drep_gone, drep_kept,
    forgets, hash_in, hot_key_kept, pool_choice_kept, pool_kept, records, resignation_kept,
};
use crate::ledger::state::{deposits_of, LedgerModel};
use crate::node::certs::{node_certified, pointer_noted, pointer_value};

verus! {

/// A certificate that names a pool or a representative for a credential leaves
/// it on record for that credential, and for no other. Certificates of one kind
/// leave the records of the others as they are, and none touches the pots, the
/// parameters or the snapshots.
pub proof fn law_choices_kept(s: LedgerModel, cert: Certificate, h: Hash32)
    ensures
        pool_choice_kept(s, node_certified(s, cert), cert),
        drep_choice_kept(s, node_certified(s, cert), cert),
        delegators_kept(s, node_certified(s, cert), cert, h),
        apart(s, node_certified(s, cert), cert),
        chain_kept(s, node_certified(s, cert)),
        node_certified(s, cert).stake_map == s.stake_map,
        arrival(cert) is None && departure(cert) is None && !(cert is UnregDRep) ==> node_certified(
            s,
            cert,
        ).reward_accounts == s.reward_accounts,
        arrival(cert) is None && departure(cert) is None && !(cert is RegDRep) && !(cert is UnregDRep)
            && !(cert is PoolRegistration) ==> node_certified(s, cert).deposits == s.deposits,
        cert is GenesisKeyDelegation || cert is MoveInstantaneousRewardsCert ==> node_certified(s, cert) == s,
{
    let t = node_certified(s, cert);
    if let Some(x) = drep_choice(cert) {
        assert(hash_in(x.1) == crate::ledger::certificates::drep_hash(x.1));
        if s.governance.vote_delegations.dom().contains(x.0) {
            let y = s.governance.vote_delegations[x.0];
            assert(hash_in(y) == crate::ledger::certificates::drep_hash(y));
        }
        if s.governance.dreps.dom().contains(h) {
            let a = s.governance.dreps[h].delegs;
            if hash_in(x.1) == Some(h) {
                assert(a.remove(x.0).insert(x.0) =~= a.insert(x.0));
            }
        }
    }
}

/// What a registration costs: the deposit that it names, or that of the
/// protocol where it names none.
pub open spec fn price(s: LedgerModel, cert: Certificate) -> Lovelace {
    match cert {
        Certificate::ConwayStakeRegistration { deposit, .. } => deposit,
        Certificate::RegStakeDeleg { deposit, .. } => deposit,
        Certificate::RegStakeVoteDeleg { deposit, .. } => deposit,
        Certificate::VoteRegDeleg { deposit, .. } => deposit,
        _ => Lovelace(s.protocol_params.key_deposit),
    }
}

/// A credential that registers has an empty account. Where it is new its
/// deposit is tracked; where it was registered no deposit changes.
pub proof fn law_arrival(s: LedgerModel, cert: Certificate, other: Hash32)
    requires
        arrival(cert) is Some,
    ensures
        ({
            let t = node_certified(s, cert);
            let c = arrival(cert)->0;
            let k = c.hash();
            let new = !s.reward_accounts.dom().contains(k);
            let (a, b) = (deposits_of(s.deposits, k), deposits_of(t.deposits, k));
            &&& records(s.reward_accounts, t.reward_accounts, k, Lovelace(0))
            &&& !new ==> t.deposits == s.deposits
            &&& new ==> b.stake == Some(price(s, cert)) && b.pool == a.pool && b.drep == a.drep && b.governance
                == a.governance
            &&& other != k ==> deposits_of(t.deposits, other) == deposits_of(s.deposits, other)
            &&& c is Script ==> t.script_stake_credentials == s.script_stake_credentials.insert(k)
            &&& c is Key ==> t.script_stake_credentials == s.script_stake_credentials
        }),
{
}

/// A credential that leaves has no account, no delegation and no deposit for
/// its stake any more; those of others stay.
pub proof fn law_departure(s: LedgerModel, cert: Certificate, other: Hash32)
    requires
        departure(cert) is Some,
    ensures
        ({
            let t = node_certified(s, cert);
            let k = (departure(cert)->0).hash();
            let (a, b) = (deposits_of(s.deposits, k), deposits_of(t.deposits, k));
            &&& forgets(s.reward_accounts, t.reward_accounts, k)
            &&& forgets(s.delegations, t.delegations, k)
            &&& b.stake is None && b.pool == a.pool && b.drep == a.drep && b.governance == a.governance
            &&& other != k ==> deposits_of(t.deposits, other) == deposits_of(s.deposits, other)
            &&& t.script_stake_credentials == s.script_stake_credentials.remove(k)
            &&& t.governance == s.governance
        }),
{
}

/// What certificates on pools, representatives and the committee leave on
/// record. A new pool and a representative pay their deposits; a representative
/// that leaves gets its deposit back.
pub proof fn law_offices(s: LedgerModel, cert: Certificate, voter: Hash32)
    requires
        s.governance.drep_registration_count < u64::MAX,
    ensures
        ({
            let t = node_certified(s, cert);
            &&& cert matches Certificate::PoolRegistration(p) ==> pool_kept(s, t, p)
            &&& cert matches Certificate::PoolRetirement { pool_hash, epoch } ==> records(
                s.pending_retirements,
                t.pending_retirements,
                pool_hash,
                EpochNo(epoch),
            )
            &&& cert matches Certificate::RegDRep { credential, deposit, anchor } ==> drep_kept(
                s,
                t,
                credential,
                deposit,
                anchor,
            ) && deposits_of(t.deposits, credential.hash()).drep == Some(deposit)
            &&& cert matches Certificate::UnregDRep { credential, .. } ==> drep_gone(s, t, credential.hash(), voter)
                && deposits_of(t.deposits, credential.hash()).drep is None
            &&& cert matches Certificate::UpdateDRep { credential, anchor } ==> drep_anchored(
                s,
                t,
                credential.hash(),
                anchor,
            )
            &&& cert matches Certificate::CommitteeHotAuth { cold_credential, hot_credential } ==> hot_key_kept(
                s,
                t,
                cold_credential,
                hot_credential,
            ) && (hot_credential is Script ==> t.governance.script_committee_hot_credentials
                == s.governance.script_committee_hot_credentials.insert(hot_credential.hash())) && (
            hot_credential is Key ==> t.governance.script_committee_hot_credentials
                == s.governance.script_committee_hot_credentials)
            &&& cert matches Certificate::CommitteeColdResign { cold_credential, .. } ==> resignation_kept(
                s,
                t,
                cold_credential,
            )
        }),
{
}

/// A representative that leaves has its deposit on its account, where one was
/// known; other accounts stay.
pub proof fn law_drep_refund(s: LedgerModel, cred: Credential, refund: Lovelace)
    ensures
        ({
            let t = node_certified(s, Certificate::UnregDRep { credential: cred, refund });
            let k = cred.hash();
            let held = if s.reward_accounts.dom().contains(k) { s.reward_accounts[k].0 } else { 0 };
            let known = deposits_of(s.deposits, k).drep;
            &&& known is None ==> t.reward_accounts == s.reward_accounts
            &&& known matches Some(d) ==> (held + d.0 <= u64::MAX ==> records(
                s.reward_accounts,
                t.reward_accounts,
                k,
                Lovelace((held + d.0) as u64),
            ))
        }),
{
}

/// A new pool pays the deposit of the protocol under its padded id; one that
/// registers again pays none.
pub proof fn law_pool_deposit(s: LedgerModel, cert: Certificate, k: Hash32)
    requires
        cert is PoolRegistration,
        k@ == cert->PoolRegistration_0.operator@ + Seq::new(4, |i: int| 0u8),
    ensures
        ({
            let t = node_certified(s, cert);
            let new = !s.pool_params.dom().contains(cert->PoolRegistration_0.operator);
            let (a, b) = (deposits_of(s.deposits, k), deposits_of(t.deposits, k));
            &&& !new ==> t.deposits == s.deposits
            &&& new ==> b.pool == Some(Lovelace(s.protocol_params.pool_deposit)) && b.stake == a.stake && b.drep
                == a.drep && b.governance == a.governance
        }),
{
    let p = cert->PoolRegistration_0.operator;
    let h = crate::ledger::epoch::pool_key(p);
    assert(k@ =~= crate::ledger::primitives::padded(p@));
    assert(h@ == crate::ledger::primitives::padded(p@));
    assert(h =~= k);
}

/// A registration is found again under its place on the chain: 28 bytes of the
/// credential's hash, and whether it is a script. Other places stay.
pub proof fn law_pointer_noted(s: LedgerModel, at: ChainPointer, cert: Certificate, v: [u8; 29])
    requires
        arrival(cert) matches Some(c) ==> v@ == c.hash()@.take(28).push(if c is Script { 1u8 } else { 0u8 }),
    ensures
        arrival(cert) is None ==> pointer_noted(s, at, cert) == s,
        arrival(cert) is Some ==> records(s.ptr_map, pointer_noted(s, at, cert).ptr_map, at, v),
        pointer_noted(s, at, cert) == (LedgerModel { ptr_map: pointer_noted(s, at, cert).ptr_map, ..s }),
{
    if let Some(c) = arrival(cert) {
        let w = pointer_value(c);
        assert(v@ == crate::node::certs::pointer_bytes(c));
        assert(w@ == v@);
        assert(w =~= v);
        let t = pointer_noted(s, at, cert);
        assert forall|o: ChainPointer| o != at implies #[trigger] agree(s.ptr_map, t.ptr_map, o) by {}
    }
}

} // verus!
