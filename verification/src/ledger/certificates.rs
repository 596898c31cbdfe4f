//! Certificates.

use vstd::prelude::*;
use crate::item::Item;
use crate::ledger::primitives::{
    dup_anchor, dup_vec, sat_add, sat_sub, Anchor, Certificate, Credential, DRep, EpochNo, Hash28, Hash32, Lovelace,
    MIRSource, MIRTarget, PoolParams, Relay,
};
use crate::ledger::state::{
    account_key, credential_to_hash, DRepModel, DRepRegistration, GovernanceModel, LedgerModel, LedgerState, PoolModel,
    PoolRegistration,
};
use crate::sums::clamp;
use crate::table::{KeySet, Table};

verus! {

/// Whether a certificate came with Conway.
pub open spec fn conway_only(cert: Certificate) -> bool {
    match cert {
        Certificate::StakeRegistration(_) => false,
        Certificate::StakeDeregistration(_) => false,
        Certificate::StakeDelegation { .. } => false,
        Certificate::PoolRegistration(_) => false,
        Certificate::PoolRetirement { .. } => false,
        Certificate::GenesisKeyDelegation { .. } => false,
        Certificate::MoveInstantaneousRewardsCert { .. } => false,
        _ => true,
    }
}

/// Whether a certificate is Conway-only and needs protocol version 9.
pub fn is_conway_only_certificate(cert: &Certificate) -> (r: bool)
    ensures
        r == conway_only(*cert),
{
    match cert {
        Certificate::StakeRegistration(_) => false,
        Certificate::StakeDeregistration(_) => false,
        Certificate::StakeDelegation { .. } => false,
        Certificate::PoolRegistration(_) => false,
        Certificate::PoolRetirement { .. } => false,
        Certificate::GenesisKeyDelegation { .. } => false,
        Certificate::MoveInstantaneousRewardsCert { .. } => false,
        _ => true,
    }
}

/// A map with a value for a key that had none.
pub open spec fn with_default<V>(m: Map<Hash32, V>, k: Hash32, v: V) -> Map<Hash32, V> {
    if m.dom().contains(k) {
        m
    } else {
        m.insert(k, v)
    }
}

pub(crate) fn ensure_account(t: &mut Table<Hash32, Lovelace>, k: Hash32)
    ensures
        final(t)@ == with_default(old(t)@, k, Lovelace(0)),
{
    if !t.contains_key(&k) {
        t.insert(k, Lovelace(0));
    }
}

/// Script credentials with a newly registered credential.
pub open spec fn with_script(s: Set<Hash32>, cred: Credential) -> Set<Hash32> {
    match cred {
        Credential::Script(h) => s.insert(h),
        Credential::Key(_) => s,
    }
}

pub(crate) fn note_script(s: &mut KeySet<Hash32>, cred: &Credential)
    ensures
        final(s)@ == with_script(old(s)@, *cred),
{
    match cred {
        Credential::Script(h) => {
            s.insert(*h);
        },
        Credential::Key(_) => {},
    }
}

/// A credential gets a stake entry and a reward account, unless it has them.
pub open spec fn registered(s: LedgerModel, cred: Credential) -> LedgerModel {
    LedgerModel {
        stake_map: with_default(s.stake_map, cred.hash(), Lovelace(0)),
        reward_accounts: with_default(s.reward_accounts, cred.hash(), Lovelace(0)),
        script_stake_credentials: with_script(s.script_stake_credentials, cred),
        ..s
    }
}

/// A credential loses its stake entry, delegation and reward account.
pub open spec fn deregistered(s: LedgerModel, cred: Credential) -> LedgerModel {
    LedgerModel {
        stake_map: s.stake_map.remove(cred.hash()),
        delegations: s.delegations.remove(cred.hash()),
        reward_accounts: s.reward_accounts.remove(cred.hash()),
        script_stake_credentials: s.script_stake_credentials.remove(cred.hash()),
        ..s
    }
}

pub open spec fn delegated(s: LedgerModel, key: Hash32, pool: Hash28) -> LedgerModel {
    LedgerModel { delegations: s.delegations.insert(key, pool), ..s }
}

/// The registration that pool parameters stand for.
pub open spec fn pool_of(p: PoolParams) -> PoolModel {
    PoolModel {
        pool_id: p.operator,
        vrf_keyhash: p.vrf_keyhash,
        pledge: p.pledge,
        cost: p.cost,
        margin_numerator: p.margin.numerator,
        margin_denominator: p.margin.denominator,
        reward_account: p.reward_account@,
        owners: p.pool_owners@,
        relays: p.relays@,
        metadata_url: match p.pool_metadata {
            Some(m) => Some(m.url),
            None => None,
        },
        metadata_hash: match p.pool_metadata {
            Some(m) => Some(m.hash),
            None => None,
        },
    }
}

/// A new pool takes effect at once. A pool that registers again is queued
/// until the epoch boundary and does not retire.
pub open spec fn pool_registered(s: LedgerModel, pool: PoolModel) -> LedgerModel {
    if s.pool_params.dom().contains(pool.pool_id) {
        LedgerModel {
            future_pool_params: s.future_pool_params.insert(pool.pool_id, pool),
            pending_retirements: s.pending_retirements.remove(pool.pool_id),
            ..s
        }
    } else {
        LedgerModel { pool_params: s.pool_params.insert(pool.pool_id, pool), ..s }
    }
}

/// The hash of a DRep that is a credential.
pub open spec fn drep_hash(drep: DRep) -> Option<Hash32> {
    match drep {
        DRep::KeyHash(h) => Some(h),
        DRep::ScriptHash(h) => Some(h),
        _ => None,
    }
}

pub open spec fn is_registered_drep(dreps: Map<Hash32, DRepModel>, drep: DRep) -> bool {
    match drep_hash(drep) {
        Some(h) => dreps.dom().contains(h),
        None => false,
    }
}

/// The DReps after a credential left the one it delegated to before.
pub open spec fn deleg_left(g: GovernanceModel, key: Hash32) -> Map<Hash32, DRepModel> {
    if g.vote_delegations.dom().contains(key) && is_registered_drep(g.dreps, g.vote_delegations[key]) {
        let h = drep_hash(g.vote_delegations[key])->0;
        g.dreps.insert(h, DRepModel { delegs: g.dreps[h].delegs.remove(key), ..g.dreps[h] })
    } else {
        g.dreps
    }
}

/// The DReps after a credential joined one.
pub open spec fn deleg_joined(dreps: Map<Hash32, DRepModel>, key: Hash32, drep: DRep) -> Map<Hash32, DRepModel> {
    if is_registered_drep(dreps, drep) {
        let h = drep_hash(drep)->0;
        dreps.insert(h, DRepModel { delegs: dreps[h].delegs.insert(key), ..dreps[h] })
    } else {
        dreps
    }
}

/// A credential gives its vote to a DRep, who remembers it. The DRep that had
/// it before forgets it, except at protocol version 9 where the new one is
/// registered.
pub open spec fn vote_delegated(s: LedgerModel, key: Hash32, drep: DRep) -> LedgerModel {
    let g = s.governance;
    let left = if s.protocol_params.protocol_version_major == 9 && is_registered_drep(g.dreps, drep) {
        g.dreps
    } else {
        deleg_left(g, key)
    };
    LedgerModel {
        governance: GovernanceModel {
            vote_delegations: g.vote_delegations.insert(key, drep),
            dreps: deleg_joined(left, key, drep),
            ..g
        },
        ..s
    }
}

/// A DRep registers, active from now on.
pub open spec fn drep_registered(s: LedgerModel, credential: Credential, deposit: Lovelace, anchor: Option<Anchor>) -> LedgerModel {
    LedgerModel {
        governance: GovernanceModel {
            dreps: s.governance.dreps.insert(
                credential.hash(),
                DRepModel {
                    credential,
                    deposit,
                    anchor,
                    registered_epoch: s.epoch,
                    last_active_epoch: s.epoch,
                    active: true,
                    delegs: Set::empty(),
                },
            ),
            drep_registration_count: (s.governance.drep_registration_count + 1) as u64,
            ..s.governance
        },
        ..s
    }
}

/// A DRep leaves, and the delegations that it remembers end.
pub open spec fn drep_unregistered(s: LedgerModel, key: Hash32) -> LedgerModel {
    let g = s.governance;
    LedgerModel {
        governance: GovernanceModel {
            vote_delegations: if g.dreps.dom().contains(key) {
                g.vote_delegations.remove_keys(g.dreps[key].delegs)
            } else {
                g.vote_delegations
            },
            dreps: g.dreps.remove(key),
            ..g
        },
        ..s
    }
}

/// A DRep changes its anchor, which counts as activity.
pub open spec fn drep_updated(s: LedgerModel, key: Hash32, anchor: Option<Anchor>) -> LedgerModel {
    let g = s.governance;
    if g.dreps.dom().contains(key) {
        LedgerModel {
            governance: GovernanceModel {
                dreps: g.dreps.insert(key, DRepModel { anchor, last_active_epoch: s.epoch, ..g.dreps[key] }),
                ..g
            },
            ..s
        }
    } else {
        s
    }
}

/// A committee member names a hot credential, and is no longer resigned.
pub open spec fn hot_key_authorized(s: LedgerModel, cold: Credential, hot: Credential) -> LedgerModel {
    let g = s.governance;
    LedgerModel {
        governance: GovernanceModel {
            committee_hot_keys: g.committee_hot_keys.insert(cold.hash(), hot.hash()),
            committee_resigned: g.committee_resigned.remove(cold.hash()),
            script_committee_credentials: with_script(g.script_committee_credentials, cold),
            ..g
        },
        ..s
    }
}

/// A committee member resigns.
pub open spec fn committee_resigned(s: LedgerModel, cold: Credential, anchor: Option<Anchor>) -> LedgerModel {
    let g = s.governance;
    LedgerModel {
        governance: GovernanceModel {
            committee_resigned: g.committee_resigned.insert(cold.hash(), anchor),
            committee_hot_keys: g.committee_hot_keys.remove(cold.hash()),
            script_committee_credentials: with_script(g.script_committee_credentials, cold),
            ..g
        },
        ..s
    }
}

/// Accounts after amounts were added one by one; new accounts start at zero.
pub open spec fn mir_credited(accounts: Map<Hash32, Lovelace>, creds: Seq<(Credential, Lovelace)>) -> Map<Hash32, Lovelace>
    decreases creds.len(),
{
    if creds.len() == 0 {
        accounts
    } else {
        let before = mir_credited(accounts, creds.drop_last());
        let k = creds.last().0.hash();
        let b = if before.dom().contains(k) { before[k].0 } else { 0u64 };
        before.insert(k, Lovelace(sat_add(b, creds.last().1.0)))
    }
}

pub open spec fn mir_total(creds: Seq<(Credential, Lovelace)>) -> nat
    decreases creds.len(),
{
    if creds.len() == 0 {
        0
    } else {
        mir_total(creds.drop_last()) + creds.last().1.0 as nat
    }
}

/// Instantaneous rewards: a pot pays credentials, or moves to the other pot.
pub open spec fn rewards_moved(s: LedgerModel, source: MIRSource, target: MIRTarget) -> LedgerModel {
    match target {
        MIRTarget::StakeCredentials(creds) => {
            let total = clamp(mir_total(creds@) as int);
            let accounts = mir_credited(s.reward_accounts, creds@);
            match source {
                MIRSource::Reserves => LedgerModel {
                    reward_accounts: accounts,
                    reserves: Lovelace(sat_sub(s.reserves.0, total)),
                    ..s
                },
                MIRSource::Treasury => LedgerModel {
                    reward_accounts: accounts,
                    treasury: Lovelace(sat_sub(s.treasury.0, total)),
                    ..s
                },
            }
        },
        MIRTarget::OtherPot(coin) => match source {
            MIRSource::Reserves => {
                let actual = if coin.0 < s.reserves.0 { coin.0 } else { s.reserves.0 };
                LedgerModel {
                    reserves: Lovelace((s.reserves.0 - actual) as u64),
                    treasury: Lovelace(sat_add(s.treasury.0, actual)),
                    ..s
                }
            },
            MIRSource::Treasury => {
                let actual = if coin.0 < s.treasury.0 { coin.0 } else { s.treasury.0 };
                LedgerModel {
                    treasury: Lovelace((s.treasury.0 - actual) as u64),
                    reserves: Lovelace(sat_add(s.reserves.0, actual)),
                    ..s
                }
            },
        },
    }
}

/// What a certificate of this era does.
pub open spec fn certified(s: LedgerModel, cert: Certificate) -> LedgerModel {
    match cert {
        Certificate::StakeRegistration(credential) => registered(s, credential),
        Certificate::StakeDeregistration(credential) => {
            let k = credential.hash();
            if s.reward_accounts.dom().contains(k) && s.reward_accounts[k].0 > 0 {
                s
            } else {
                deregistered(s, credential)
            }
        },
        Certificate::ConwayStakeRegistration { credential, deposit } => registered(s, credential),
        Certificate::ConwayStakeDeregistration { credential, refund } => deregistered(s, credential),
        Certificate::StakeDelegation { credential, pool_hash } => delegated(s, credential.hash(), pool_hash),
        Certificate::PoolRegistration(params) => pool_registered(s, pool_of(params)),
        Certificate::PoolRetirement { pool_hash, epoch } => if epoch > sat_add(s.epoch.0, s.protocol_params.e_max) {
            s
        } else {
            LedgerModel { pending_retirements: s.pending_retirements.insert(pool_hash, EpochNo(epoch)), ..s }
        },
        Certificate::RegStakeDeleg { credential, pool_hash, deposit } => delegated(
            registered(s, credential),
            credential.hash(),
            pool_hash,
        ),
        Certificate::RegDRep { credential, deposit, anchor } => drep_registered(s, credential, deposit, anchor),
        Certificate::UnregDRep { credential, refund } => drep_unregistered(s, credential.hash()),
        Certificate::UpdateDRep { credential, anchor } => drep_updated(s, credential.hash(), anchor),
        Certificate::VoteDelegation { credential, drep } => vote_delegated(s, credential.hash(), drep),
        Certificate::StakeVoteDelegation { credential, pool_hash, drep } => vote_delegated(
            delegated(s, credential.hash(), pool_hash),
            credential.hash(),
            drep,
        ),
        Certificate::CommitteeHotAuth { cold_credential, hot_credential } => hot_key_authorized(
            s,
            cold_credential,
            hot_credential,
        ),
        Certificate::CommitteeColdResign { cold_credential, anchor } => committee_resigned(s, cold_credential, anchor),
        Certificate::RegStakeVoteDeleg { credential, pool_hash, drep, deposit } => vote_delegated(
            delegated(registered(s, credential), credential.hash(), pool_hash),
            credential.hash(),
            drep,
        ),
        Certificate::VoteRegDeleg { credential, drep, deposit } => vote_delegated(
            registered(s, credential),
            credential.hash(),
            drep,
        ),
        Certificate::GenesisKeyDelegation { .. } => s,
        Certificate::MoveInstantaneousRewardsCert { source, target } => rewards_moved(s, source, target),
    }
}

/// What a certificate does; a Conway-only one does nothing before version 9.
pub open spec fn after_certificate(s: LedgerModel, cert: Certificate) -> LedgerModel {
    if conway_only(cert) && s.protocol_params.protocol_version_major < 9 {
        s
    } else {
        certified(s, cert)
    }
}

impl LedgerState {
    pub(crate) fn register(&mut self, credential: &Credential)
        ensures
            final(self)@ == registered(old(self)@, *credential),
    {
        let ghost start = self@;
        let key = credential_to_hash(credential);
        ensure_account(&mut self.stake_distribution.stake_map, key);
        ensure_account(&mut self.reward_accounts, key);
        note_script(&mut self.script_stake_credentials, credential);
        assert(self@ =~= registered(start, *credential));
    }

    fn deregister(&mut self, credential: &Credential)
        ensures
            final(self)@ == deregistered(old(self)@, *credential),
    {
        let ghost start = self@;
        let key = credential_to_hash(credential);
        self.stake_distribution.stake_map.remove(&key);
        self.delegations.remove(&key);
        self.reward_accounts.remove(&key);
        self.script_stake_credentials.remove(&key);
        assert(self@ =~= deregistered(start, *credential));
    }

    pub(crate) fn delegate(&mut self, key: Hash32, pool: Hash28)
        ensures
            final(self)@ == delegated(old(self)@, key, pool),
    {
        let ghost start = self@;
        self.delegations.insert(key, pool);
        assert(self@ =~= delegated(start, key, pool));
    }

    /// Registers a pool; tells whether it is new.
    pub(crate) fn register_pool(&mut self, pool: PoolRegistration) -> (r: bool)
        ensures
            final(self)@ == pool_registered(old(self)@, pool.model()),
            r == !old(self)@.pool_params.dom().contains(pool.pool_id),
    {
        let ghost start = self@;
        let id: Hash28 = pool.pool_id;
        let ghost model = pool.model();
        if self.pool_params.contains_key(&id) {
            self.future_pool_params.insert(id, pool);
            self.pending_retirements.remove(&id);
            assert(self@ =~= pool_registered(start, model));
            false
        } else {
            self.pool_params.insert(id, pool);
            assert(self@ =~= pool_registered(start, model));
            true
        }
    }

    pub(crate) fn delegate_vote(&mut self, key: Hash32, drep: DRep)
        ensures
            final(self)@ == vote_delegated(old(self)@, key, drep),
    {
        let ghost start = self@;
        let target: Option<Hash32> = hash_of_drep(&drep);
        let joins: bool = match target {
            Some(h) => self.governance.dreps.contains_key(&h),
            None => false,
        };
        assert(joins == is_registered_drep(start.governance.dreps, drep));
        if !(self.protocol_params.protocol_version_major == 9 && joins) {
            let before: Option<Hash32> = match self.governance.vote_delegations.get(&key) {
                Some(d) => hash_of_drep(d),
                None => None,
            };
            if let Some(h) = before {
                let held: Option<DRepRegistration> = self.governance.dreps.remove(&h);
                match held {
                    Some(mut reg) => {
                        reg.delegs.remove(&key);
                        self.governance.dreps.insert(h, reg);
                    },
                    None => {},
                }
            }
            assert(self.governance.dreps@ =~= deleg_left(start.governance, key));
        }
        let ghost mid = self.governance.dreps@;
        self.governance.vote_delegations.insert(key, drep);
        if let Some(h) = target {
            let held: Option<DRepRegistration> = self.governance.dreps.remove(&h);
            match held {
                Some(mut reg) => {
                    reg.delegs.insert(key);
                    self.governance.dreps.insert(h, reg);
                },
                None => {},
            }
        }
        assert(self.governance.dreps@ =~= deleg_joined(mid, key, drep));
        assert(self@ =~= vote_delegated(start, key, drep));
    }

    pub(crate) fn register_drep(&mut self, credential: Credential, deposit: Lovelace, anchor: Option<Anchor>)
        requires
            old(self)@.governance.drep_registration_count < u64::MAX,
        ensures
            final(self)@ == drep_registered(old(self)@, credential, deposit, anchor),
    {
        let ghost start = self@;
        let key = credential_to_hash(&credential);
        let reg = DRepRegistration {
            credential,
            deposit,
            anchor,
            registered_epoch: self.epoch,
            last_active_epoch: self.epoch,
            active: true,
            delegs: KeySet::new(),
        };
        self.governance.dreps.insert(key, reg);
        self.governance.drep_registration_count = self.governance.drep_registration_count + 1;
        assert(self@ =~= drep_registered(start, credential, deposit, anchor));
    }

    pub(crate) fn unregister_drep(&mut self, key: &Hash32)
        ensures
            final(self)@ == drep_unregistered(old(self)@, *key),
    {
        let ghost start = self@;
        let ghost votes = self.governance.vote_delegations@;
        match self.governance.dreps.remove(key) {
            Some(reg) => {
                let n: usize = reg.delegs.len();
                proof {
                    reg.delegs.lemma_members();
                }
                let ghost ms = reg.delegs.members();
                let ghost mid = self@;
                let mut i: usize = 0;
                while i < n
                    invariant
                        i <= n,
                        n == ms.len(),
                        ms == reg.delegs.members(),
                        self@ == (LedgerModel {
                            governance: GovernanceModel {
                                vote_delegations: self.governance.vote_delegations@,
                                ..mid.governance
                            },
                            ..mid
                        }),
                        forall|k: Hash32| #[trigger]
                            self.governance.vote_delegations@.dom().contains(k) <==> votes.dom().contains(k) && !(exists|
                                j: int,
                            |
                                #![trigger ms[j]]
                                0 <= j < i && ms[j].0 == k),
                        forall|k: Hash32| #[trigger]
                            self.governance.vote_delegations@.dom().contains(k)
                                ==> self.governance.vote_delegations@[k] == votes[k],
                    decreases n - i,
                {
                    let ghost before = self.governance.vote_delegations@;
                    let k: Hash32 = *reg.delegs.at(i);
                    self.governance.vote_delegations.remove(&k);
                    let ghost after = self.governance.vote_delegations@;
                    assert forall|q: Hash32| #[trigger] after.dom().contains(q) <==> votes.dom().contains(q) && !(exists|
                        j: int,
                    |
                        #![trigger ms[j]]
                        0 <= j < i + 1 && ms[j].0 == q) by {
                        assert(before.dom().contains(q) <==> votes.dom().contains(q) && !(exists|j: int|
                            #![trigger ms[j]]
                            0 <= j < i && ms[j].0 == q));
                        if q == k {
                            assert(ms[i as int].0 == q);
                        }
                    }
                    assert forall|q: Hash32| #[trigger] after.dom().contains(q) implies after[q] == votes[q] by {
                        assert(before.dom().contains(q));
                    }
                    i += 1;
                }
                assert(self.governance.vote_delegations@ =~= votes.remove_keys(reg.delegs@)) by {
                    assert forall|k: Hash32| votes.dom().contains(k) && !reg.delegs@.contains(k) implies
                        #[trigger] self.governance.vote_delegations@.dom().contains(k) by {
                        if exists|j: int| #![trigger ms[j]] 0 <= j < i && ms[j].0 == k {
                            let j = choose|j: int| #![trigger ms[j]] 0 <= j < i && ms[j].0 == k;
                            assert(reg.delegs@.contains(ms[j].0));
                        }
                    }
                    assert forall|k: Hash32| #[trigger] self.governance.vote_delegations@.dom().contains(k) implies
                        !reg.delegs@.contains(k) by {
                        if reg.delegs@.contains(k) {
                            let j = choose|j: int| #![trigger ms[j]] 0 <= j < ms.len() && ms[j].0 == k;
                            assert(0 <= j < i && ms[j].0 == k);
                        }
                    }
                }
            },
            None => {},
        }
        assert(self@ =~= drep_unregistered(start, *key));
    }

    pub(crate) fn update_drep(&mut self, key: &Hash32, anchor: Option<Anchor>)
        ensures
            final(self)@ == drep_updated(old(self)@, *key, anchor),
    {
        let ghost start = self@;
        let held: Option<DRepRegistration> = self.governance.dreps.remove(key);
        match held {
            Some(mut reg) => {
                reg.anchor = anchor;
                reg.last_active_epoch = self.epoch;
                self.governance.dreps.insert(*key, reg);
            },
            None => {},
        }
        assert(self@ =~= drep_updated(start, *key, anchor));
    }

    pub(crate) fn authorize_hot_key(&mut self, cold: &Credential, hot: &Credential)
        ensures
            final(self)@ == hot_key_authorized(old(self)@, *cold, *hot),
    {
        let ghost start = self@;
        let cold_key = credential_to_hash(cold);
        let hot_key = credential_to_hash(hot);
        self.governance.committee_hot_keys.insert(cold_key, hot_key);
        self.governance.committee_resigned.remove(&cold_key);
        note_script(&mut self.governance.script_committee_credentials, cold);
        assert(self@ =~= hot_key_authorized(start, *cold, *hot));
    }

    pub(crate) fn resign_committee(&mut self, cold: &Credential, anchor: Option<Anchor>)
        ensures
            final(self)@ == committee_resigned(old(self)@, *cold, anchor),
    {
        let ghost start = self@;
        let cold_key = credential_to_hash(cold);
        proof {
            assert(anchor.model() == anchor);
        }
        self.governance.committee_resigned.insert(cold_key, anchor);
        self.governance.committee_hot_keys.remove(&cold_key);
        note_script(&mut self.governance.script_committee_credentials, cold);
        assert(self@ =~= committee_resigned(start, *cold, anchor));
    }

    fn move_rewards(&mut self, source: &MIRSource, target: &MIRTarget)
        ensures
            final(self)@ == rewards_moved(old(self)@, *source, *target),
    {
        let ghost start = self@;
        match target {
            MIRTarget::StakeCredentials(creds) => {
                let mut total: u64 = 0;
                let mut i: usize = 0;
                while i < creds.len()
                    invariant
                        i <= creds.len(),
                        total == clamp(mir_total(creds@.take(i as int)) as int),
                        self@ == (LedgerModel {
                            reward_accounts: mir_credited(start.reward_accounts, creds@.take(i as int)),
                            ..start
                        }),
                    decreases creds.len() - i,
                {
                    assert(creds@.take(i + 1).drop_last() =~= creds@.take(i as int));
                    let key = credential_to_hash(&creds[i].0);
                    let amount: Lovelace = creds[i].1;
                    let balance: Lovelace = match self.reward_accounts.get(&key) {
                        Some(b) => *b,
                        None => Lovelace(0),
                    };
                    self.reward_accounts.insert(key, balance + amount);
                    total = total.saturating_add(amount.0);
                    i += 1;
                }
                assert(creds@.take(i as int) =~= creds@);
                match source {
                    MIRSource::Reserves => {
                        self.reserves = Lovelace(self.reserves.0.saturating_sub(total));
                    },
                    MIRSource::Treasury => {
                        self.treasury = Lovelace(self.treasury.0.saturating_sub(total));
                    },
                }
            },
            MIRTarget::OtherPot(coin) => {
                match source {
                    MIRSource::Reserves => {
                        let actual: u64 = if coin.0 < self.reserves.0 { coin.0 } else { self.reserves.0 };
                        self.reserves = Lovelace(self.reserves.0 - actual);
                        self.treasury = Lovelace(self.treasury.0.saturating_add(actual));
                    },
                    MIRSource::Treasury => {
                        let actual: u64 = if coin.0 < self.treasury.0 { coin.0 } else { self.treasury.0 };
                        self.treasury = Lovelace(self.treasury.0 - actual);
                        self.reserves = Lovelace(self.reserves.0.saturating_add(actual));
                    },
                }
            },
        }
        assert(self@ =~= rewards_moved(start, *source, *target));
    }

    /// Processes a certificate. Conway-only certificates are skipped before
    /// protocol version 9.
    pub fn process_certificate(&mut self, cert: &Certificate)
        requires
            cert is RegDRep && old(self)@.protocol_params.protocol_version_major >= 9
                ==> old(self)@.governance.drep_registration_count < u64::MAX,
        ensures
            final(self)@ == after_certificate(old(self)@, *cert),
    {
        if is_conway_only_certificate(cert) && self.protocol_params.protocol_version_major < 9 {
            return;
        }
        match cert {
            Certificate::StakeRegistration(credential) => {
                self.register(credential);
            },
            Certificate::StakeDeregistration(credential) => {
                let key = credential_to_hash(credential);
                let balance: u64 = match self.reward_accounts.get(&key) {
                    Some(b) => b.0,
                    None => 0,
                };
                if balance == 0 {
                    self.deregister(credential);
                }
            },
            Certificate::ConwayStakeRegistration { credential, deposit: _ } => {
                self.register(credential);
            },
            Certificate::ConwayStakeDeregistration { credential, refund: _ } => {
                self.deregister(credential);
            },
            Certificate::StakeDelegation { credential, pool_hash } => {
                self.delegate(credential_to_hash(credential), *pool_hash);
            },
            Certificate::PoolRegistration(params) => {
                self.register_pool(registration_of(params));
            },
            Certificate::PoolRetirement { pool_hash, epoch } => {
                let last: u64 = self.epoch.0.saturating_add(self.protocol_params.e_max);
                if *epoch <= last {
                    let ghost start = self@;
                    self.pending_retirements.insert(*pool_hash, EpochNo(*epoch));
                    assert(self@ =~= certified(start, *cert));
                }
            },
            Certificate::RegStakeDeleg { credential, pool_hash, deposit: _ } => {
                self.register(credential);
                self.delegate(credential_to_hash(credential), *pool_hash);
            },
            Certificate::RegDRep { credential, deposit, anchor } => {
                self.register_drep(*credential, *deposit, dup_anchor(anchor));
            },
            Certificate::UnregDRep { credential, refund: _ } => {
                self.unregister_drep(&credential_to_hash(credential));
            },
            Certificate::UpdateDRep { credential, anchor } => {
                self.update_drep(&credential_to_hash(credential), dup_anchor(anchor));
            },
            Certificate::VoteDelegation { credential, drep } => {
                self.delegate_vote(credential_to_hash(credential), *drep);
            },
            Certificate::StakeVoteDelegation { credential, pool_hash, drep } => {
                self.delegate(credential_to_hash(credential), *pool_hash);
                self.delegate_vote(credential_to_hash(credential), *drep);
            },
            Certificate::CommitteeHotAuth { cold_credential, hot_credential } => {
                self.authorize_hot_key(cold_credential, hot_credential);
            },
            Certificate::CommitteeColdResign { cold_credential, anchor } => {
                self.resign_committee(cold_credential, dup_anchor(anchor));
            },
            Certificate::RegStakeVoteDeleg { credential, pool_hash, drep, deposit: _ } => {
                self.register(credential);
                self.delegate(credential_to_hash(credential), *pool_hash);
                self.delegate_vote(credential_to_hash(credential), *drep);
            },
            Certificate::VoteRegDeleg { credential, drep, deposit: _ } => {
                self.register(credential);
                self.delegate_vote(credential_to_hash(credential), *drep);
            },
            Certificate::GenesisKeyDelegation { .. } => {},
            Certificate::MoveInstantaneousRewardsCert { source, target } => {
                self.move_rewards(source, target);
            },
        }
    }

    /// Processes a withdrawal: the balance of a registered account becomes
    /// zero, whatever amount was asked for.
    pub fn process_withdrawal(&mut self, reward_account: &[u8], amount: Lovelace)
        ensures
            final(self)@ == after_withdrawal(old(self)@, account_key(reward_account@)),
    {
        let key = Self::reward_account_to_hash(reward_account);
        self.zero_balance(&key);
    }

    pub(crate) fn zero_balance(&mut self, key: &Hash32)
        ensures
            final(self)@ == after_withdrawal(old(self)@, *key),
    {
        let ghost start = self@;
        if self.reward_accounts.contains_key(key) {
            self.reward_accounts.insert(*key, Lovelace(0));
        }
        assert(self@ =~= after_withdrawal(start, *key));
    }
}

/// The ledger after a withdrawal from an account.
pub open spec fn after_withdrawal(s: LedgerModel, key: Hash32) -> LedgerModel {
    if s.reward_accounts.dom().contains(key) {
        LedgerModel { reward_accounts: s.reward_accounts.insert(key, Lovelace(0)), ..s }
    } else {
        s
    }
}

fn hash_of_drep(drep: &DRep) -> (r: Option<Hash32>)
    ensures
        r == drep_hash(*drep),
{
    match drep {
        DRep::KeyHash(h) => Some(*h),
        DRep::ScriptHash(h) => Some(*h),
        _ => None,
    }
}

/// The registration that pool parameters stand for.
pub fn registration_of(params: &PoolParams) -> (r: PoolRegistration)
    ensures
        r.model() == pool_of(*params),
{
    let owners: Vec<Hash28> = dup_vec(&params.pool_owners);
    assert(owners@ =~= params.pool_owners@);
    let relays: Vec<Relay> = dup_vec(&params.relays);
    assert(relays@ =~= params.relays@);
    PoolRegistration {
        pool_id: params.operator,
        vrf_keyhash: params.vrf_keyhash,
        pledge: params.pledge,
        cost: params.cost,
        margin_numerator: params.margin.numerator,
        margin_denominator: params.margin.denominator,
        reward_account: params.reward_account.dup(),
        owners,
        relays,
        metadata_url: match &params.pool_metadata {
            Some(m) => Some(m.url.clone()),
            None => None,
        },
        metadata_hash: match &params.pool_metadata {
            Some(m) => Some(m.hash),
            None => None,
        },
    }
}

// ---- laws ----

/// Certificates that came with Conway change nothing before protocol version
/// 9.
pub proof fn law_conway_certificates_wait(s: LedgerModel, cert: Certificate)
    requires
        conway_only(cert),
        s.protocol_params.protocol_version_major < 9,
    ensures
        after_certificate(s, cert) == s,
{
}

/// Registering a credential that was unknown and deregistering it again is a
/// round trip.
pub proof fn law_registration_undone(s: LedgerModel, cred: Credential)
    requires
        !s.stake_map.dom().contains(cred.hash()),
        !s.reward_accounts.dom().contains(cred.hash()),
        !s.delegations.dom().contains(cred.hash()),
        !s.script_stake_credentials.contains(cred.hash()),
    ensures
        after_certificate(
            after_certificate(s, Certificate::StakeRegistration(cred)),
            Certificate::StakeDeregistration(cred),
        ) == s,
{
    let t = after_certificate(
        after_certificate(s, Certificate::StakeRegistration(cred)),
        Certificate::StakeDeregistration(cred),
    );
    assert(t.stake_map =~= s.stake_map);
    assert(t.reward_accounts =~= s.reward_accounts);
    assert(t.delegations =~= s.delegations);
    assert(t.script_stake_credentials =~= s.script_stake_credentials);
}

/// A credential that is registered keeps its stake, its balance and its
/// delegation when it registers again, and one with a balance cannot
/// deregister before Conway.
pub proof fn law_accounts_protected(s: LedgerModel, cred: Credential)
    requires
        s.stake_map.dom().contains(cred.hash()),
        s.reward_accounts.dom().contains(cred.hash()),
    ensures
        ({
            let t = after_certificate(s, Certificate::StakeRegistration(cred));
            &&& t.stake_map == s.stake_map
            &&& t.reward_accounts == s.reward_accounts
            &&& t.delegations == s.delegations
        }),
        s.reward_accounts[cred.hash()].0 > 0 ==> after_certificate(s, Certificate::StakeDeregistration(cred)) == s,
{
}

/// A withdrawal empties one account, which stays registered, and touches no
/// other.
pub proof fn law_withdrawal_empties(s: LedgerModel, key: Hash32, other: Hash32)
    requires
        s.reward_accounts.dom().contains(key),
        other != key,
    ensures
        ({
            let t = after_withdrawal(s, key);
            &&& t.reward_accounts.dom() == s.reward_accounts.dom()
            &&& t.reward_accounts[key] == Lovelace(0)
            &&& t.reward_accounts.dom().contains(other) ==> t.reward_accounts[other] == s.reward_accounts[other]
            &&& after_withdrawal(t, key) == t
        }),
{
    let t = after_withdrawal(s, key);
    assert(t.reward_accounts.dom() =~= s.reward_accounts.dom());
    assert(after_withdrawal(t, key).reward_accounts =~= t.reward_accounts);
}

/// Moving lovelace between the pots leaves their sum as it is.
pub proof fn law_pots_conserved(s: LedgerModel, source: MIRSource, coin: Lovelace)
    requires
        s.treasury.0 + s.reserves.0 <= u64::MAX,
    ensures
        ({
            let t = after_certificate(
                s,
                Certificate::MoveInstantaneousRewardsCert { source, target: MIRTarget::OtherPot(coin) },
            );
            t.treasury.0 + t.reserves.0 == s.treasury.0 + s.reserves.0
        }),
{
}

/// A pool that registers again does not retire and keeps its parameters until
/// the boundary; a retirement further ahead than the protocol allows is
/// ignored.
pub proof fn law_pool_certificates(s: LedgerModel, params: PoolParams, epoch: u64)
    requires
        s.pool_params.dom().contains(params.operator),
    ensures
        ({
            let t = after_certificate(s, Certificate::PoolRegistration(params));
            &&& t.pool_params == s.pool_params
            &&& t.future_pool_params[params.operator] == pool_of(params)
            &&& !t.pending_retirements.dom().contains(params.operator)
        }),
        epoch > s.epoch.0 + s.protocol_params.e_max ==> after_certificate(
            s,
            Certificate::PoolRetirement { pool_hash: params.operator, epoch },
        ) == s,
        epoch <= s.epoch.0 + s.protocol_params.e_max ==> after_certificate(
            s,
            Certificate::PoolRetirement { pool_hash: params.operator, epoch },
        ).pending_retirements[params.operator] == EpochNo(epoch),
{
}

/// A vote that is given to a registered DRep is remembered by it, and ends
/// when the DRep leaves.
pub proof fn law_vote_ends_with_drep(s: LedgerModel, voter: Credential, drep: Credential)
    requires
        s.protocol_params.protocol_version_major >= 9,
        s.governance.dreps.dom().contains(drep.hash()),
    ensures
        ({
            let d = match drep {
                Credential::Key(h) => DRep::KeyHash(h),
                Credential::Script(h) => DRep::ScriptHash(h),
            };
            let t = after_certificate(s, Certificate::VoteDelegation { credential: voter, drep: d });
            let u = after_certificate(t, Certificate::UnregDRep { credential: drep, refund: Lovelace(0) });
            &&& t.governance.vote_delegations[voter.hash()] == d
            &&& t.governance.dreps[drep.hash()].delegs.contains(voter.hash())
            &&& !u.governance.dreps.dom().contains(drep.hash())
            &&& !u.governance.vote_delegations.dom().contains(voter.hash())
        }),
{
}

} // verus!
