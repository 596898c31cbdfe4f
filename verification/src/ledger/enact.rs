//! Enactment of governance actions and protocol parameter updates.

use vstd::prelude::*;
use crate::item::Item;
use crate::ledger::primitives::{
    sat_add, ActionModel, Credential, EpochNo, GovActionId, GovernanceAction, Hash32, Lovelace, ProtocolParamUpdate,
    ProtocolParameters, Rational,
};
use crate::ledger::rewards::lovelace_of;
use crate::ledger::state::{
    credential_to_hash, enactment_models, keep_or, or_keep, without_deposit, DepositType, EnactmentModel,
    GovernanceModel, LedgerModel, LedgerState, PendingEnactment,
};
use crate::table::Table;

verus! {

// ---- parameter updates ----

/// The decentralization parameter after an update. From protocol version 7 on
/// it is forced to zero, unless the update itself sets it.
pub open spec fn updated_decentralization(p: ProtocolParameters, u: ProtocolParamUpdate) -> Rational {
    match u.decentralization {
        Some(d) => d,
        None => match u.protocol_version {
            Some((major, _)) => if major >= 7 && p.decentralization.numerator != 0 {
                Rational { numerator: 0, denominator: 1 }
            } else {
                p.decentralization
            },
            None => p.decentralization,
        },
    }
}

/// The parameters after an update: what it sets replaces what was there.
pub open spec fn updated_params(p: ProtocolParameters, u: ProtocolParamUpdate) -> ProtocolParameters {
    ProtocolParameters {
        min_fee_a: or_keep(u.min_fee_a, p.min_fee_a),
        min_fee_b: or_keep(u.min_fee_b, p.min_fee_b),
        max_block_body_size: or_keep(u.max_block_body_size, p.max_block_body_size),
        max_transaction_size: or_keep(u.max_transaction_size, p.max_transaction_size),
        max_block_header_size: or_keep(u.max_block_header_size, p.max_block_header_size),
        protocol_version_major: match u.protocol_version {
            Some((major, _)) => major,
            None => p.protocol_version_major,
        },
        protocol_version_minor: match u.protocol_version {
            Some((_, minor)) => minor,
            None => p.protocol_version_minor,
        },
        key_deposit: or_keep(u.key_deposit, p.key_deposit),
        pool_deposit: or_keep(u.pool_deposit, p.pool_deposit),
        min_pool_cost: or_keep(u.min_pool_cost, p.min_pool_cost),
        min_pool_cost_lovelace: or_keep(u.min_pool_cost, p.min_pool_cost_lovelace),
        rho: or_keep(u.rho, p.rho),
        tau: or_keep(u.tau, p.tau),
        a0: or_keep(u.a0, p.a0),
        n_opt: or_keep(u.n_opt, p.n_opt),
        e_max: or_keep(u.e_max, p.e_max),
        decentralization: updated_decentralization(p, u),
        drep_deposit: or_keep(u.drep_deposit, p.drep_deposit),
        drep_activity_period: or_keep(u.drep_activity, p.drep_activity_period),
        gov_action_lifetime: or_keep(u.gov_action_lifetime, p.gov_action_lifetime),
        gov_action_deposit: or_keep(u.gov_action_deposit, p.gov_action_deposit),
        committee_min_size: or_keep(u.committee_min_size, p.committee_min_size),
        committee_max_term_length: or_keep(u.committee_max_term_length, p.committee_max_term_length),
        min_fee_ref_script_cost_per_byte: match u.min_fee_ref_script_cost_per_byte {
            Some(v) => if v.denominator == 0 {
                v.numerator
            } else {
                v.numerator / v.denominator
            },
            None => p.min_fee_ref_script_cost_per_byte,
        },
        dvt_motion_no_confidence: or_keep(u.dvt_motion_no_confidence, p.dvt_motion_no_confidence),
        dvt_committee_normal: or_keep(u.dvt_committee_normal, p.dvt_committee_normal),
        dvt_committee_no_confidence: or_keep(u.dvt_committee_no_confidence, p.dvt_committee_no_confidence),
        dvt_constitution: or_keep(u.dvt_update_to_constitution, p.dvt_constitution),
        dvt_hard_fork: or_keep(u.dvt_hard_fork_initiation, p.dvt_hard_fork),
        dvt_pp_network_group: or_keep(u.dvt_pp_network_group, p.dvt_pp_network_group),
        dvt_pp_economic_group: or_keep(u.dvt_pp_economic_group, p.dvt_pp_economic_group),
        dvt_pp_technical_group: or_keep(u.dvt_pp_technical_group, p.dvt_pp_technical_group),
        dvt_pp_gov_group: or_keep(u.dvt_pp_gov_group, p.dvt_pp_gov_group),
        dvt_treasury_withdrawal: or_keep(u.dvt_treasury_withdrawal, p.dvt_treasury_withdrawal),
        pvt_motion_no_confidence: or_keep(u.pvt_motion_no_confidence, p.pvt_motion_no_confidence),
        pvt_committee_normal: or_keep(u.pvt_committee_normal, p.pvt_committee_normal),
        pvt_committee_no_confidence: or_keep(u.pvt_committee_no_confidence, p.pvt_committee_no_confidence),
        pvt_hard_fork: or_keep(u.pvt_hard_fork_initiation, p.pvt_hard_fork),
        pvt_pp_security_group: or_keep(u.pvt_pp_security_group, p.pvt_pp_security_group),
        ..p
    }
}

fn decentralization_after(p: &ProtocolParameters, u: &ProtocolParamUpdate) -> (r: Rational)
    ensures
        r == updated_decentralization(*p, *u),
{
    match u.decentralization {
        Some(d) => d,
        None => match u.protocol_version {
            Some((major, _)) => if major >= 7 && p.decentralization.numerator != 0 {
                Rational { numerator: 0, denominator: 1 }
            } else {
                p.decentralization
            },
            None => p.decentralization,
        },
    }
}

impl LedgerState {
    /// Applies a parameter update of a governance action or of the genesis
    /// delegates.
    pub fn apply_protocol_param_update(&mut self, update: &ProtocolParamUpdate) -> (r: Result<(), String>)
        ensures
            r is Ok,
            final(self)@ == (LedgerModel {
                protocol_params: updated_params(old(self)@.protocol_params, *update),
                ..old(self)@
            }),
    {
        let p: ProtocolParameters = self.protocol_params;
        let u: &ProtocolParamUpdate = update;
        let (major, minor): (u64, u64) = match u.protocol_version {
            Some(v) => v,
            None => (p.protocol_version_major, p.protocol_version_minor),
        };
        let ref_cost: u64 = match u.min_fee_ref_script_cost_per_byte {
            Some(v) => if v.denominator == 0 {
                v.numerator
            } else {
                v.numerator / v.denominator
            },
            None => p.min_fee_ref_script_cost_per_byte,
        };
        self.protocol_params = ProtocolParameters {
            min_fee_a: keep_or(u.min_fee_a, p.min_fee_a),
            min_fee_b: keep_or(u.min_fee_b, p.min_fee_b),
            max_block_body_size: keep_or(u.max_block_body_size, p.max_block_body_size),
            max_transaction_size: keep_or(u.max_transaction_size, p.max_transaction_size),
            max_block_header_size: keep_or(u.max_block_header_size, p.max_block_header_size),
            protocol_version_major: major,
            protocol_version_minor: minor,
            key_deposit: keep_or(u.key_deposit, p.key_deposit),
            pool_deposit: keep_or(u.pool_deposit, p.pool_deposit),
            min_pool_cost: keep_or(u.min_pool_cost, p.min_pool_cost),
            min_pool_cost_lovelace: keep_or(u.min_pool_cost, p.min_pool_cost_lovelace),
            rho: keep_or(u.rho, p.rho),
            tau: keep_or(u.tau, p.tau),
            a0: keep_or(u.a0, p.a0),
            n_opt: keep_or(u.n_opt, p.n_opt),
            e_max: keep_or(u.e_max, p.e_max),
            decentralization: decentralization_after(&p, u),
            drep_deposit: keep_or(u.drep_deposit, p.drep_deposit),
            drep_activity_period: keep_or(u.drep_activity, p.drep_activity_period),
            gov_action_lifetime: keep_or(u.gov_action_lifetime, p.gov_action_lifetime),
            gov_action_deposit: keep_or(u.gov_action_deposit, p.gov_action_deposit),
            committee_min_size: keep_or(u.committee_min_size, p.committee_min_size),
            committee_max_term_length: keep_or(u.committee_max_term_length, p.committee_max_term_length),
            min_fee_ref_script_cost_per_byte: ref_cost,
            dvt_motion_no_confidence: keep_or(u.dvt_motion_no_confidence, p.dvt_motion_no_confidence),
            dvt_committee_normal: keep_or(u.dvt_committee_normal, p.dvt_committee_normal),
            dvt_committee_no_confidence: keep_or(u.dvt_committee_no_confidence, p.dvt_committee_no_confidence),
            dvt_constitution: keep_or(u.dvt_update_to_constitution, p.dvt_constitution),
            dvt_hard_fork: keep_or(u.dvt_hard_fork_initiation, p.dvt_hard_fork),
            dvt_pp_network_group: keep_or(u.dvt_pp_network_group, p.dvt_pp_network_group),
            dvt_pp_economic_group: keep_or(u.dvt_pp_economic_group, p.dvt_pp_economic_group),
            dvt_pp_technical_group: keep_or(u.dvt_pp_technical_group, p.dvt_pp_technical_group),
            dvt_pp_gov_group: keep_or(u.dvt_pp_gov_group, p.dvt_pp_gov_group),
            dvt_treasury_withdrawal: keep_or(u.dvt_treasury_withdrawal, p.dvt_treasury_withdrawal),
            pvt_motion_no_confidence: keep_or(u.pvt_motion_no_confidence, p.pvt_motion_no_confidence),
            pvt_committee_normal: keep_or(u.pvt_committee_normal, p.pvt_committee_normal),
            pvt_committee_no_confidence: keep_or(u.pvt_committee_no_confidence, p.pvt_committee_no_confidence),
            pvt_hard_fork: keep_or(u.pvt_hard_fork_initiation, p.pvt_hard_fork),
            pvt_pp_security_group: keep_or(u.pvt_pp_security_group, p.pvt_pp_security_group),
            ..p
        };
        Ok(())
    }
}

// ---- enactment ----

/// The accounts with an amount added to one, which starts at zero if it is new.
pub open spec fn paid(accounts: Map<Hash32, Lovelace>, k: Hash32, amount: u64) -> Map<Hash32, Lovelace> {
    accounts.insert(k, Lovelace(sat_add(lovelace_of(accounts, k), amount)))
}

pub(crate) fn pay_account(accounts: &mut Table<Hash32, Lovelace>, k: &Hash32, amount: u64)
    ensures
        final(accounts)@ == paid(old(accounts)@, *k, amount),
{
    let before: u64 = match accounts.get(k) {
        Some(l) => l.0,
        None => 0,
    };
    accounts.insert(*k, Lovelace(before.saturating_add(amount)));
}

/// What a withdrawal pays out of what is left.
pub open spec fn payable(amount: u64, left: u64) -> u64 {
    if amount < left {
        amount
    } else {
        left
    }
}

/// The treasury after withdrawals; one that asks for more than is left gets
/// what is left.
pub open spec fn treasury_left(treasury: u64, w: Seq<(Credential, Lovelace)>) -> u64
    decreases w.len(),
{
    if w.len() == 0 {
        treasury
    } else {
        let left = treasury_left(treasury, w.drop_last());
        (left - payable(w.last().1.0, left)) as u64
    }
}

/// The accounts after treasury withdrawals.
pub open spec fn treasury_paid(accounts: Map<Hash32, Lovelace>, treasury: u64, w: Seq<(Credential, Lovelace)>) -> Map<Hash32, Lovelace>
    decreases w.len(),
{
    if w.len() == 0 {
        accounts
    } else {
        let before = treasury_paid(accounts, treasury, w.drop_last());
        let amount = payable(w.last().1.0, treasury_left(treasury, w.drop_last()));
        if amount > 0 {
            paid(before, w.last().0.hash(), amount)
        } else {
            before
        }
    }
}

/// A map without the listed credentials.
pub open spec fn without_members<V>(m: Map<Hash32, V>, l: Seq<Credential>) -> Map<Hash32, V>
    decreases l.len(),
{
    if l.len() == 0 {
        m
    } else {
        without_members(m, l.drop_last()).remove(l.last().hash())
    }
}

/// Terms with those of new members.
pub open spec fn with_members(m: Map<Hash32, EpochNo>, l: Seq<(Credential, EpochNo)>) -> Map<Hash32, EpochNo>
    decreases l.len(),
{
    if l.len() == 0 {
        m
    } else {
        with_members(m, l.drop_last()).insert(l.last().0.hash(), l.last().1)
    }
}

pub open spec fn versioned(p: ProtocolParameters, version: (u64, u64)) -> ProtocolParameters {
    ProtocolParameters { protocol_version_major: version.0, protocol_version_minor: version.1, ..p }
}

/// The ledger after a governance action took effect.
pub open spec fn enacted(s: LedgerModel, a: ActionModel) -> LedgerModel {
    let g = s.governance;
    match a {
        ActionModel::ParameterChange { update, .. } => {
            let p = updated_params(s.protocol_params, update);
            LedgerModel {
                protocol_params: p,
                prev_protocol_params: match g.conway_cur_params {
                    Some(c) => Some(c),
                    None => Some(s.protocol_params),
                },
                governance: GovernanceModel {
                    conway_cur_params: match g.conway_cur_params {
                        Some(_) => Some(p),
                        None => None,
                    },
                    ..g
                },
                ..s
            }
        },
        ActionModel::HardForkInitiation { protocol_version, .. } => LedgerModel {
            protocol_params: versioned(s.protocol_params, protocol_version),
            governance: GovernanceModel {
                conway_cur_params: match g.conway_cur_params {
                    Some(c) => Some(versioned(c, protocol_version)),
                    None => None,
                },
                ..g
            },
            ..s
        },
        ActionModel::TreasuryWithdrawals { withdrawals, .. } => LedgerModel {
            treasury: Lovelace(treasury_left(s.treasury.0, withdrawals)),
            reward_accounts: treasury_paid(s.reward_accounts, s.treasury.0, withdrawals),
            ..s
        },
        ActionModel::NoConfidence { .. } => LedgerModel {
            governance: GovernanceModel {
                committee_hot_keys: Map::empty(),
                committee_expiration: Map::empty(),
                committee_threshold: None,
                no_confidence: true,
                ..g
            },
            ..s
        },
        ActionModel::UpdateCommittee { members_to_remove, members_to_add, quorum, .. } => LedgerModel {
            governance: GovernanceModel {
                committee_hot_keys: without_members(g.committee_hot_keys, members_to_remove),
                committee_expiration: with_members(
                    without_members(g.committee_expiration, members_to_remove),
                    members_to_add,
                ),
                committee_resigned: without_members(g.committee_resigned, members_to_remove),
                committee_threshold: Some(quorum),
                no_confidence: false,
                ..g
            },
            ..s
        },
        ActionModel::NewConstitution { constitution, .. } => LedgerModel {
            governance: GovernanceModel { constitution: Some(constitution), ..g },
            ..s
        },
        ActionModel::InfoAction => s,
    }
}

/// The ledger after the deposit of a proposal went back: to the reward account
/// of the return credential.
pub open spec fn deposit_returned(s: LedgerModel, id: GovActionId, cred: Hash32, deposit: Lovelace) -> LedgerModel {
    if deposit.0 > 0 {
        LedgerModel {
            reward_accounts: paid(s.reward_accounts, cred, deposit.0),
            deposits: without_deposit(s.deposits, cred, DepositType::Governance(id)),
            ..s
        }
    } else {
        s
    }
}

/// The ledger after ratified actions took effect, one after the other, and
/// their deposits went back.
pub open spec fn enacted_all(s: LedgerModel, l: Seq<EnactmentModel>) -> LedgerModel
    decreases l.len(),
{
    if l.len() == 0 {
        s
    } else {
        let e = l.last();
        deposit_returned(
            enacted(enacted_all(s, l.drop_last()), e.gov_action),
            e.action_id,
            e.return_cred_hash,
            e.deposit,
        )
    }
}

impl LedgerState {
    fn withdraw_from_treasury(&mut self, withdrawals: &Vec<(Credential, Lovelace)>)
        ensures
            final(self)@ == (LedgerModel {
                treasury: Lovelace(treasury_left(old(self)@.treasury.0, withdrawals@)),
                reward_accounts: treasury_paid(old(self)@.reward_accounts, old(self)@.treasury.0, withdrawals@),
                ..old(self)@
            }),
    {
        let ghost s = self@;
        let ghost w = withdrawals@;
        let mut i: usize = 0;
        while i < withdrawals.len()
            invariant
                i <= withdrawals.len(),
                w == withdrawals@,
                self@ == (LedgerModel {
                    treasury: Lovelace(treasury_left(s.treasury.0, w.take(i as int))),
                    reward_accounts: treasury_paid(s.reward_accounts, s.treasury.0, w.take(i as int)),
                    ..s
                }),
            decreases withdrawals.len() - i,
        {
            assert(w.take(i + 1).drop_last() =~= w.take(i as int));
            let left: u64 = self.treasury.0;
            let asked: u64 = withdrawals[i].1.0;
            let amount: u64 = if asked < left {
                asked
            } else {
                left
            };
            self.treasury = Lovelace(left - amount);
            if amount > 0 {
                pay_account(&mut self.reward_accounts, &credential_to_hash(&withdrawals[i].0), amount);
            }
            i += 1;
        }
        assert(w.take(i as int) =~= w);
    }

    fn update_committee(
        &mut self,
        members_to_remove: &Vec<Credential>,
        members_to_add: &Vec<(Credential, EpochNo)>,
        quorum: &Rational,
    )
        ensures
            final(self)@ == (LedgerModel {
                governance: GovernanceModel {
                    committee_hot_keys: without_members(old(self)@.governance.committee_hot_keys, members_to_remove@),
                    committee_expiration: with_members(
                        without_members(old(self)@.governance.committee_expiration, members_to_remove@),
                        members_to_add@,
                    ),
                    committee_resigned: without_members(old(self)@.governance.committee_resigned, members_to_remove@),
                    committee_threshold: Some(*quorum),
                    no_confidence: false,
                    ..old(self)@.governance
                },
                ..old(self)@
            }),
    {
        let ghost s = self@;
        let ghost g = s.governance;
        let ghost gone = members_to_remove@;
        let ghost new = members_to_add@;
        let mut i: usize = 0;
        while i < members_to_remove.len()
            invariant
                i <= members_to_remove.len(),
                gone == members_to_remove@,
                self@ == (LedgerModel {
                    governance: GovernanceModel {
                        committee_hot_keys: without_members(g.committee_hot_keys, gone.take(i as int)),
                        committee_expiration: without_members(g.committee_expiration, gone.take(i as int)),
                        committee_resigned: without_members(g.committee_resigned, gone.take(i as int)),
                        ..g
                    },
                    ..s
                }),
            decreases members_to_remove.len() - i,
        {
            assert(gone.take(i + 1).drop_last() =~= gone.take(i as int));
            let key = credential_to_hash(&members_to_remove[i]);
            self.governance.committee_hot_keys.remove(&key);
            self.governance.committee_expiration.remove(&key);
            self.governance.committee_resigned.remove(&key);
            i += 1;
        }
        assert(gone.take(i as int) =~= gone);
        let ghost t = self@;
        let mut j: usize = 0;
        while j < members_to_add.len()
            invariant
                j <= members_to_add.len(),
                new == members_to_add@,
                self@ == (LedgerModel {
                    governance: GovernanceModel {
                        committee_expiration: with_members(t.governance.committee_expiration, new.take(j as int)),
                        ..t.governance
                    },
                    ..t
                }),
            decreases members_to_add.len() - j,
        {
            assert(new.take(j + 1).drop_last() =~= new.take(j as int));
            let key = credential_to_hash(&members_to_add[j].0);
            self.governance.committee_expiration.insert(key, members_to_add[j].1);
            j += 1;
        }
        assert(new.take(j as int) =~= new);
        self.governance.committee_threshold = Some(*quorum);
        self.governance.no_confidence = false;
    }

    /// Applies the effects of a ratified governance action.
    pub fn enact_gov_action(&mut self, action: &GovernanceAction)
        ensures
            final(self)@ == enacted(old(self)@, action.model()),
    {
        let ghost s = self@;
        match action {
            GovernanceAction::ParameterChange { update, .. } => {
                let current = self.governance.conway_cur_params;
                self.prev_protocol_params = match current {
                    Some(c) => Some(c),
                    None => Some(self.protocol_params),
                };
                let _ = self.apply_protocol_param_update(update);
                if current.is_some() {
                    self.governance.conway_cur_params = Some(self.protocol_params);
                }
            },
            GovernanceAction::HardForkInitiation { protocol_version, .. } => {
                self.protocol_params.protocol_version_major = protocol_version.0;
                self.protocol_params.protocol_version_minor = protocol_version.1;
                if let Some(c) = self.governance.conway_cur_params {
                    self.governance.conway_cur_params = Some(
                        ProtocolParameters {
                            protocol_version_major: protocol_version.0,
                            protocol_version_minor: protocol_version.1,
                            ..c
                        },
                    );
                }
            },
            GovernanceAction::TreasuryWithdrawals { withdrawals, .. } => {
                self.withdraw_from_treasury(withdrawals);
            },
            GovernanceAction::NoConfidence { .. } => {
                self.governance.committee_hot_keys.clear();
                self.governance.committee_expiration.clear();
                self.governance.committee_threshold = None;
                self.governance.no_confidence = true;
            },
            GovernanceAction::UpdateCommittee { members_to_remove, members_to_add, quorum, .. } => {
                self.update_committee(members_to_remove, members_to_add, quorum);
            },
            GovernanceAction::NewConstitution { constitution, .. } => {
                self.governance.constitution = Some(constitution.dup());
            },
            GovernanceAction::InfoAction => {},
        }
        assert(self@ =~= enacted(s, action.model()));
    }

    /// Gives the deposit of a proposal back.
    pub(crate) fn return_deposit(&mut self, id: &GovActionId, cred: &Hash32, deposit: Lovelace)
        ensures
            final(self)@ == deposit_returned(old(self)@, *id, *cred, deposit),
    {
        let ghost s = self@;
        if deposit.0 > 0 {
            pay_account(&mut self.reward_accounts, cred, deposit.0);
            let _ = self.deposit_tracker.refund_deposit(cred, DepositType::Governance(*id));
        }
        assert(self@ =~= deposit_returned(s, *id, *cred, deposit));
    }

    /// Enacts ratified actions and gives their deposits back.
    pub fn enact_ratified(&mut self, ratified: &Vec<PendingEnactment>)
        ensures
            final(self)@ == enacted_all(old(self)@, enactment_models(ratified@)),
    {
        let ghost s = self@;
        let ghost l = enactment_models(ratified@);
        let mut i: usize = 0;
        while i < ratified.len()
            invariant
                i <= ratified.len(),
                l == enactment_models(ratified@),
                self@ == enacted_all(s, l.take(i as int)),
            decreases ratified.len() - i,
        {
            assert(l.take(i + 1).drop_last() =~= l.take(i as int));
            let e: &PendingEnactment = &ratified[i];
            self.enact_gov_action(&e.gov_action);
            self.return_deposit(&e.action_id, &e.return_cred_hash, e.deposit);
            i += 1;
        }
        assert(l.take(i as int) =~= l);
    }
}

} // verus!
