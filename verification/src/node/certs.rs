//! Certificates of the blocks that a node follows.
//!
//! Deposits are tracked here, and credentials are known by their padded hash.

use vstd::prelude::*;
use crate::item::Item;
use crate::ledger::certificates::{
    committee_resigned, delegated, drep_registered, drep_unregistered, drep_updated, hot_key_authorized, note_script,
    pool_registered, vote_delegated, with_script,
};
use crate::ledger::enact::{paid, pay_account};
use crate::ledger::epoch::{key_of_pool, pool_key};
use crate::ledger::primitives::{
    dup_anchor, dup_vec, Anchor, Certificate, ChainPointer, Credential, DRep, EpochNo, Hash28, Hash32, Lovelace,
    PoolParams, Relay,
};
use crate::ledger::state::{
    credential_to_hash, refund_amount, with_deposit, without_deposit, DepositType, GovernanceModel, LedgerModel,
    LedgerState, PoolModel, PoolRegistration,
};

verus! {

// ---- effects ----

/// A credential registers. Its reward account starts at zero, also where it had
/// one; only a new account pays a deposit.
pub open spec fn account_opened(s: LedgerModel, cred: Credential, deposit: u64) -> LedgerModel {
    LedgerModel {
        reward_accounts: s.reward_accounts.insert(cred.hash(), Lovelace(0)),
        deposits: if s.reward_accounts.dom().contains(cred.hash()) {
            s.deposits
        } else {
            with_deposit(s.deposits, cred.hash(), DepositType::Stake, Lovelace(deposit))
        },
        script_stake_credentials: with_script(s.script_stake_credentials, cred),
        ..s
    }
}

/// A credential leaves: its delegation, reward account and deposit go.
pub open spec fn account_closed(s: LedgerModel, cred: Credential) -> LedgerModel {
    LedgerModel {
        delegations: s.delegations.remove(cred.hash()),
        reward_accounts: s.reward_accounts.remove(cred.hash()),
        deposits: without_deposit(s.deposits, cred.hash(), DepositType::Stake),
        script_stake_credentials: s.script_stake_credentials.remove(cred.hash()),
        ..s
    }
}

/// The registration of a pool, without relays and metadata.
pub open spec fn plain_pool(p: PoolParams) -> PoolModel {
    PoolModel {
        pool_id: p.operator,
        vrf_keyhash: p.vrf_keyhash,
        pledge: p.pledge,
        cost: p.cost,
        margin_numerator: p.margin.numerator,
        margin_denominator: p.margin.denominator,
        reward_account: p.reward_account@,
        owners: p.pool_owners@,
        relays: Seq::empty(),
        metadata_url: None,
        metadata_hash: None,
    }
}

/// A pool registers; a new one pays a deposit.
pub open spec fn pool_enrolled(s: LedgerModel, p: PoolParams) -> LedgerModel {
    let t = pool_registered(s, plain_pool(p));
    if s.pool_params.dom().contains(p.operator) {
        t
    } else {
        LedgerModel {
            deposits: with_deposit(
                t.deposits,
                pool_key(p.operator),
                DepositType::Pool,
                Lovelace(s.protocol_params.pool_deposit),
            ),
            ..t
        }
    }
}

pub open spec fn retirement_planned(s: LedgerModel, pool: Hash28, epoch: u64) -> LedgerModel {
    LedgerModel { pending_retirements: s.pending_retirements.insert(pool, EpochNo(epoch)), ..s }
}

/// A committee member names a hot credential.
pub open spec fn hot_key_named(s: LedgerModel, cold: Credential, hot: Credential) -> LedgerModel {
    let t = hot_key_authorized(s, cold, hot);
    LedgerModel {
        governance: GovernanceModel {
            script_committee_hot_credentials: with_script(t.governance.script_committee_hot_credentials, hot),
            ..t.governance
        },
        ..t
    }
}

/// A DRep registers and pays a deposit.
pub open spec fn drep_enrolled(s: LedgerModel, cred: Credential, deposit: Lovelace, anchor: Option<Anchor>) -> LedgerModel {
    drep_registered(
        LedgerModel { deposits: with_deposit(s.deposits, cred.hash(), DepositType::DRep, deposit), ..s },
        cred,
        deposit,
        anchor,
    )
}

/// A DRep leaves; its deposit goes to its reward account.
pub open spec fn drep_left(s: LedgerModel, key: Hash32) -> LedgerModel {
    let t = LedgerModel {
        deposits: without_deposit(s.deposits, key, DepositType::DRep),
        reward_accounts: match refund_amount(s.deposits, key, DepositType::DRep) {
            Some(refund) => paid(s.reward_accounts, key, refund.0),
            None => s.reward_accounts,
        },
        ..s
    };
    drep_unregistered(t, key)
}

/// The ledger after a certificate. Genesis delegations and instantaneous
/// rewards are ignored.
pub open spec fn node_certified(s: LedgerModel, cert: Certificate) -> LedgerModel {
    match cert {
        Certificate::StakeRegistration(cred) => account_opened(s, cred, s.protocol_params.key_deposit),
        Certificate::StakeDeregistration(cred) => account_closed(s, cred),
        Certificate::StakeDelegation { credential, pool_hash } => delegated(s, credential.hash(), pool_hash),
        Certificate::PoolRegistration(p) => pool_enrolled(s, p),
        Certificate::PoolRetirement { pool_hash, epoch } => retirement_planned(s, pool_hash, epoch),
        Certificate::GenesisKeyDelegation { .. } => s,
        Certificate::MoveInstantaneousRewardsCert { .. } => s,
        Certificate::ConwayStakeRegistration { credential, deposit } => account_opened(s, credential, deposit.0),
        Certificate::ConwayStakeDeregistration { credential, .. } => account_closed(s, credential),
        Certificate::RegStakeDeleg { credential, pool_hash, deposit } => delegated(
            account_opened(s, credential, deposit.0),
            credential.hash(),
            pool_hash,
        ),
        Certificate::RegDRep { credential, deposit, anchor } => drep_enrolled(s, credential, deposit, anchor),
        Certificate::UnregDRep { credential, .. } => drep_left(s, credential.hash()),
        Certificate::UpdateDRep { credential, anchor } => drep_updated(s, credential.hash(), anchor),
        Certificate::VoteDelegation { credential, drep } => vote_delegated(s, credential.hash(), drep),
        Certificate::StakeVoteDelegation { credential, pool_hash, drep } => vote_delegated(
            delegated(s, credential.hash(), pool_hash),
            credential.hash(),
            drep,
        ),
        Certificate::RegStakeVoteDeleg { credential, pool_hash, drep, deposit } => vote_delegated(
            delegated(account_opened(s, credential, deposit.0), credential.hash(), pool_hash),
            credential.hash(),
            drep,
        ),
        Certificate::VoteRegDeleg { credential, drep, deposit } => vote_delegated(
            account_opened(s, credential, deposit.0),
            credential.hash(),
            drep,
        ),
        Certificate::CommitteeHotAuth { cold_credential, hot_credential } => hot_key_named(
            s,
            cold_credential,
            hot_credential,
        ),
        Certificate::CommitteeColdResign { cold_credential, .. } => committee_resigned(s, cold_credential, None),
    }
}

/// Whether a certificate is a stake registration of its own, to which a
/// pointer address can point.
pub open spec fn registered_credential(cert: Certificate) -> Option<Credential> {
    match cert {
        Certificate::StakeRegistration(cred) => Some(cred),
        Certificate::ConwayStakeRegistration { credential, .. } => Some(credential),
        Certificate::RegStakeDeleg { credential, .. } => Some(credential),
        Certificate::RegStakeVoteDeleg { credential, .. } => Some(credential),
        Certificate::VoteRegDeleg { credential, .. } => Some(credential),
        _ => None,
    }
}

/// 28 bytes of credential hash, and a tag: zero for a key, one for a script.
pub open spec fn pointer_bytes(cred: Credential) -> Seq<u8> {
    cred.hash()@.take(28).push(
        match cred {
            Credential::Key(_) => 0u8,
            Credential::Script(_) => 1u8,
        },
    )
}

pub open spec fn pointer_value(cred: Credential) -> [u8; 29] {
    choose|b: [u8; 29]| b@ == pointer_bytes(cred)
}

/// The ledger with a place on the chain at which a credential registered.
pub open spec fn pointer_noted(s: LedgerModel, at: ChainPointer, cert: Certificate) -> LedgerModel {
    match registered_credential(cert) {
        Some(cred) => LedgerModel { ptr_map: s.ptr_map.insert(at, pointer_value(cred)), ..s },
        None => s,
    }
}

impl LedgerState {
    fn open_account(&mut self, cred: &Credential, deposit: u64)
        ensures
            final(self)@ == account_opened(old(self)@, *cred, deposit),
    {
        let ghost s = self@;
        let key = credential_to_hash(cred);
        let before: Option<Lovelace> = self.reward_accounts.insert(key, Lovelace(0));
        if before.is_none() {
            self.deposit_tracker.add_deposit(key, DepositType::Stake, Lovelace(deposit));
        }
        note_script(&mut self.script_stake_credentials, cred);
        assert(self@ =~= account_opened(s, *cred, deposit));
    }

    fn close_account(&mut self, cred: &Credential)
        ensures
            final(self)@ == account_closed(old(self)@, *cred),
    {
        let ghost s = self@;
        let key = credential_to_hash(cred);
        self.delegations.remove(&key);
        self.reward_accounts.remove(&key);
        let _ = self.deposit_tracker.refund_deposit(&key, DepositType::Stake);
        self.script_stake_credentials.remove(&key);
        assert(self@ =~= account_closed(s, *cred));
    }

    fn enroll_pool(&mut self, p: &PoolParams)
        ensures
            final(self)@ == pool_enrolled(old(self)@, *p),
    {
        let ghost s = self@;
        let owners: Vec<Hash28> = dup_vec(&p.pool_owners);
        assert(owners@ =~= p.pool_owners@);
        let relays: Vec<Relay> = Vec::new();
        let pool = PoolRegistration {
            pool_id: p.operator,
            vrf_keyhash: p.vrf_keyhash,
            pledge: p.pledge,
            cost: p.cost,
            margin_numerator: p.margin.numerator,
            margin_denominator: p.margin.denominator,
            reward_account: p.reward_account.dup(),
            owners,
            relays,
            metadata_url: None,
            metadata_hash: None,
        };
        assert(pool.model() =~= plain_pool(*p));
        if self.register_pool(pool) {
            let deposit = Lovelace(self.protocol_params.pool_deposit);
            self.deposit_tracker.add_deposit(key_of_pool(&p.operator), DepositType::Pool, deposit);
        }
        assert(self@ =~= pool_enrolled(s, *p));
    }

    fn name_hot_key(&mut self, cold: &Credential, hot: &Credential)
        ensures
            final(self)@ == hot_key_named(old(self)@, *cold, *hot),
    {
        let ghost s = self@;
        self.authorize_hot_key(cold, hot);
        note_script(&mut self.governance.script_committee_hot_credentials, hot);
        assert(self@ =~= hot_key_named(s, *cold, *hot));
    }

    fn enroll_drep(&mut self, cred: &Credential, deposit: Lovelace, anchor: &Option<Anchor>)
        requires
            old(self)@.governance.drep_registration_count < u64::MAX,
        ensures
            final(self)@ == drep_enrolled(old(self)@, *cred, deposit, *anchor),
    {
        let ghost s = self@;
        self.deposit_tracker.add_deposit(credential_to_hash(cred), DepositType::DRep, deposit);
        assert(self@ =~= (LedgerModel {
            deposits: with_deposit(s.deposits, cred.hash(), DepositType::DRep, deposit),
            ..s
        }));
        self.register_drep(*cred, deposit, dup_anchor(anchor));
    }

    fn dismiss_drep(&mut self, key: &Hash32)
        ensures
            final(self)@ == drep_left(old(self)@, *key),
    {
        let ghost s = self@;
        if let Some(refund) = self.deposit_tracker.refund_deposit(key, DepositType::DRep) {
            pay_account(&mut self.reward_accounts, key, refund.0);
        }
        let ghost t = LedgerModel {
            deposits: without_deposit(s.deposits, *key, DepositType::DRep),
            reward_accounts: match refund_amount(s.deposits, *key, DepositType::DRep) {
                Some(refund) => paid(s.reward_accounts, *key, refund.0),
                None => s.reward_accounts,
            },
            ..s
        };
        assert(self@ =~= t);
        self.unregister_drep(key);
    }

    /// Processes a certificate of a Shelley, Allegra, Mary, Alonzo or Babbage
    /// block. Those of later eras change nothing here.
    pub fn process_alonzo_certificate(&mut self, cert: &Certificate)
        ensures
            final(self)@ == if crate::ledger::certificates::conway_only(*cert) {
                old(self)@
            } else {
                node_certified(old(self)@, *cert)
            },
    {
        let ghost s = self@;
        match cert {
            Certificate::StakeRegistration(cred) => {
                let deposit: u64 = self.protocol_params.key_deposit;
                self.open_account(cred, deposit);
            },
            Certificate::StakeDeregistration(cred) => {
                self.close_account(cred);
            },
            Certificate::StakeDelegation { credential, pool_hash } => {
                self.delegate(credential_to_hash(credential), *pool_hash);
            },
            Certificate::PoolRegistration(p) => {
                self.enroll_pool(p);
            },
            Certificate::PoolRetirement { pool_hash, epoch } => {
                self.pending_retirements.insert(*pool_hash, EpochNo(*epoch));
                assert(self@ =~= retirement_planned(s, *pool_hash, *epoch));
            },
            _ => {},
        }
    }

    /// Processes a certificate of a Conway block.
    pub fn process_conway_certificate(&mut self, cert: &Certificate)
        requires
            cert is RegDRep ==> old(self)@.governance.drep_registration_count < u64::MAX,
        ensures
            final(self)@ == node_certified(old(self)@, *cert),
    {
        match cert {
            Certificate::ConwayStakeRegistration { credential, deposit } => {
                self.open_account(credential, deposit.0);
            },
            Certificate::ConwayStakeDeregistration { credential, .. } => {
                self.close_account(credential);
            },
            Certificate::RegStakeDeleg { credential, pool_hash, deposit } => {
                self.open_account(credential, deposit.0);
                self.delegate(credential_to_hash(credential), *pool_hash);
            },
            Certificate::RegDRep { credential, deposit, anchor } => {
                self.enroll_drep(credential, *deposit, anchor);
            },
            Certificate::UnregDRep { credential, .. } => {
                self.dismiss_drep(&credential_to_hash(credential));
            },
            Certificate::UpdateDRep { credential, anchor } => {
                self.update_drep(&credential_to_hash(credential), dup_anchor(anchor));
            },
            Certificate::VoteDelegation { credential, drep } => {
                self.delegate_vote(credential_to_hash(credential), *drep);
            },
            Certificate::StakeVoteDelegation { credential, pool_hash, drep } => {
                self.delegate(credential_to_hash(credential), *pool_hash);
                self.delegate_vote(credential_to_hash(credential), *drep);
            },
            Certificate::RegStakeVoteDeleg { credential, pool_hash, drep, deposit } => {
                self.open_account(credential, deposit.0);
                self.delegate(credential_to_hash(credential), *pool_hash);
                self.delegate_vote(credential_to_hash(credential), *drep);
            },
            Certificate::VoteRegDeleg { credential, drep, deposit } => {
                self.open_account(credential, deposit.0);
                self.delegate_vote(credential_to_hash(credential), *drep);
            },
            Certificate::CommitteeHotAuth { cold_credential, hot_credential } => {
                self.name_hot_key(cold_credential, hot_credential);
            },
            Certificate::CommitteeColdResign { cold_credential, .. } => {
                self.resign_committee(cold_credential, None);
            },
            _ => {
                self.process_alonzo_certificate(cert);
            },
        }
    }

    /// Takes note of where on the chain a credential registered.
    pub fn note_pointer(&mut self, at: ChainPointer, cert: &Certificate)
        ensures
            final(self)@ == pointer_noted(old(self)@, at, *cert),
    {
        let ghost s = self@;
        let cred: Option<Credential> = match cert {
            Certificate::StakeRegistration(cred) => Some(*cred),
            Certificate::ConwayStakeRegistration { credential, .. } => Some(*credential),
            Certificate::RegStakeDeleg { credential, .. } => Some(*credential),
            Certificate::RegStakeVoteDeleg { credential, .. } => Some(*credential),
            Certificate::VoteRegDeleg { credential, .. } => Some(*credential),
            _ => None,
        };
        if let Some(c) = cred {
            let value = pointer_of_credential(&c);
            self.ptr_map.insert(at, value);
        }
        assert(self@ =~= pointer_noted(s, at, *cert));
    }
}

fn pointer_of_credential(cred: &Credential) -> (r: [u8; 29])
    ensures
        r == pointer_value(*cred),
{
    let hash = credential_to_hash(cred);
    let mut r: [u8; 29] = [0u8; 29];
    let mut i: usize = 0;
    while i < 28
        invariant
            i <= 28,
            forall|j: int| 0 <= j < i ==> r@[j] == hash@[j],
        decreases 28 - i,
    {
        r[i] = hash[i];
        i += 1;
    }
    r[28] = match cred {
        Credential::Key(_) => 0,
        Credential::Script(_) => 1,
    };
    proof {
        assert(r@ =~= pointer_bytes(*cred));
        let v = pointer_value(*cred);
        assert(v@ == pointer_bytes(*cred));
        assert(r =~= v);
    }
    r
}

// ---- laws ----

/// A new credential that leaves again takes its deposit with it, and nothing
/// of the ledger's totals has changed.
pub proof fn law_account_opens_and_closes(s: LedgerModel, cred: Credential, deposit: u64)
    requires
        !s.reward_accounts.dom().contains(cred.hash()),
    ensures
        ({
            let t = account_opened(s, cred, deposit);
            let u = account_closed(t, cred);
            &&& t.reward_accounts.dom().contains(cred.hash())
            &&& refund_amount(t.deposits, cred.hash(), DepositType::Stake) == Some(Lovelace(deposit))
            &&& refund_amount(u.deposits, cred.hash(), DepositType::Stake) is None
            &&& u.reward_accounts == s.reward_accounts
            &&& u.treasury == s.treasury && u.reserves == s.reserves
        }),
{
    let t = account_opened(s, cred, deposit);
    assert(account_closed(t, cred).reward_accounts =~= s.reward_accounts);
}

/// A credential that registers again pays no second deposit, and its balance
/// starts anew.
pub proof fn law_one_deposit(s: LedgerModel, cred: Credential, deposit: u64)
    requires
        s.reward_accounts.dom().contains(cred.hash()),
    ensures
        account_opened(s, cred, deposit).deposits == s.deposits,
        account_opened(s, cred, deposit).reward_accounts[cred.hash()] == Lovelace(0),
{
}

/// A pool pays its deposit once: a pool that registers again changes no
/// deposit, stays as it is until the epoch boundary, and does not retire.
pub proof fn law_pool_update_waits(s: LedgerModel, p: PoolParams)
    requires
        s.pool_params.dom().contains(p.operator),
    ensures
        pool_enrolled(s, p).deposits == s.deposits,
        pool_enrolled(s, p).pool_params == s.pool_params,
        pool_enrolled(s, p).future_pool_params[p.operator] == plain_pool(p),
        !pool_enrolled(s, p).pending_retirements.dom().contains(p.operator),
{
}

/// A DRep that leaves gets back what it paid.
pub proof fn law_drep_deposit_returns(s: LedgerModel, cred: Credential, deposit: Lovelace, anchor: Option<Anchor>)
    requires
        s.governance.drep_registration_count < u64::MAX,
    ensures
        drep_left(drep_enrolled(s, cred, deposit, anchor), cred.hash()).reward_accounts == paid(
            s.reward_accounts,
            cred.hash(),
            deposit.0,
        ),
        !drep_left(drep_enrolled(s, cred, deposit, anchor), cred.hash()).governance.dreps.dom().contains(cred.hash()),
{
}

} // verus!
