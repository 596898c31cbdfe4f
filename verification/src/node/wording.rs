//! How governance actions are worded.

use vstd::prelude::*;
use crate::ledger::changes::{ratio_chars, version_chars};
use crate::ledger::eras::era_chars;
use crate::ledger::primitives::{no_update, ActionModel, Credential, Lovelace, ProtocolParamUpdate, ProtocolParameters, Rational};
use crate::node::describe::{
    action_chars, economic_listed, governance_listed, joined, thresholds_moved, update_listed, withdrawal_sum,
};
use crate::text::decimal_chars;

verus! {

/// A change in words: the name, what was there, and what comes.
pub open spec fn worded(name: Seq<char>, before: Seq<char>, after: Seq<char>) -> Seq<char> {
    name + ": "@ + before + "→"@ + after
}

proof fn lemma_first(c: Seq<char>)
    ensures
        joined(Seq::empty(), c) == c,
{
    reveal(joined);
}

/// Changes are set apart by commas.
pub proof fn law_joined(t: Seq<char>, c: Seq<char>)
    ensures
        t.len() == 0 ==> joined(t, c) == c,
        t.len() > 0 ==> joined(t, c) == t + ", "@ + c,
{
    reveal(joined);
}

/// An update that sets nothing, or what is there already, changes nothing.
pub proof fn law_nothing_listed(p: ProtocolParameters)
    ensures
        update_listed(p, no_update()) == Seq::<char>::empty(),
        update_listed(p, (ProtocolParamUpdate { rho: Some(p.rho), n_opt: Some(p.n_opt), ..no_update() })) == Seq::<
            char,
        >::empty(),
{
    reveal(economic_listed);
    reveal(governance_listed);
}

/// An update that changes one parameter is worded by its name and its two
/// values: fees, pools and deposits.
pub proof fn law_economic_worded(p: ProtocolParameters, x: u64, r: Rational)
    ensures
        x != p.min_fee_a ==> update_listed(p, (ProtocolParamUpdate { min_fee_a: Some(x), ..no_update() })) == worded(
            "minFeeA"@,
            decimal_chars(p.min_fee_a as nat),
            decimal_chars(x as nat),
        ),
        x != p.min_fee_b ==> update_listed(p, (ProtocolParamUpdate { min_fee_b: Some(x), ..no_update() })) == worded(
            "minFeeB"@,
            decimal_chars(p.min_fee_b as nat),
            decimal_chars(x as nat),
        ),
        x != p.n_opt ==> update_listed(p, (ProtocolParamUpdate { n_opt: Some(x), ..no_update() })) == worded(
            "nOpt"@,
            decimal_chars(p.n_opt as nat),
            decimal_chars(x as nat),
        ),
        x != p.key_deposit ==> update_listed(p, (ProtocolParamUpdate { key_deposit: Some(x), ..no_update() })) == worded(
            "keyDeposit"@,
            decimal_chars(p.key_deposit as nat),
            decimal_chars(x as nat),
        ),
        x != p.pool_deposit ==> update_listed(p, (ProtocolParamUpdate { pool_deposit: Some(x), ..no_update() })) == worded(
            "poolDeposit"@,
            decimal_chars(p.pool_deposit as nat),
            decimal_chars(x as nat),
        ),
        x != p.e_max ==> update_listed(p, (ProtocolParamUpdate { e_max: Some(x), ..no_update() })) == worded(
            "eMax"@,
            decimal_chars(p.e_max as nat),
            decimal_chars(x as nat),
        ),
        x != p.min_pool_cost ==> update_listed(p, (ProtocolParamUpdate { min_pool_cost: Some(x), ..no_update() })) == worded(
            "minPoolCost"@,
            decimal_chars(p.min_pool_cost as nat),
            decimal_chars(x as nat),
        ),
        r != p.rho ==> update_listed(p, (ProtocolParamUpdate { rho: Some(r), ..no_update() })) == worded(
            "rho"@,
            ratio_chars(p.rho),
            ratio_chars(r),
        ),
        r != p.tau ==> update_listed(p, (ProtocolParamUpdate { tau: Some(r), ..no_update() })) == worded(
            "tau"@,
            ratio_chars(p.tau),
            ratio_chars(r),
        ),
        r != p.a0 ==> update_listed(p, (ProtocolParamUpdate { a0: Some(r), ..no_update() })) == worded(
            "a0"@,
            ratio_chars(p.a0),
            ratio_chars(r),
        ),
{
    reveal(economic_listed);
    reveal(governance_listed);
    lemma_first(worded("minFeeA"@, decimal_chars(p.min_fee_a as nat), decimal_chars(x as nat)));
    lemma_first(worded("minFeeB"@, decimal_chars(p.min_fee_b as nat), decimal_chars(x as nat)));
    lemma_first(worded("nOpt"@, decimal_chars(p.n_opt as nat), decimal_chars(x as nat)));
    lemma_first(worded("keyDeposit"@, decimal_chars(p.key_deposit as nat), decimal_chars(x as nat)));
    lemma_first(worded("poolDeposit"@, decimal_chars(p.pool_deposit as nat), decimal_chars(x as nat)));
    lemma_first(worded("eMax"@, decimal_chars(p.e_max as nat), decimal_chars(x as nat)));
    lemma_first(worded("minPoolCost"@, decimal_chars(p.min_pool_cost as nat), decimal_chars(x as nat)));
    lemma_first(worded("rho"@, ratio_chars(p.rho), ratio_chars(r)));
    lemma_first(worded("tau"@, ratio_chars(p.tau), ratio_chars(r)));
    lemma_first(worded("a0"@, ratio_chars(p.a0), ratio_chars(r)));
}

/// An update that changes one parameter is worded by its name and its two
/// values: governance.
pub proof fn law_governance_worded(p: ProtocolParameters, x: u64)
    ensures
        x != p.drep_deposit ==> update_listed(p, (ProtocolParamUpdate { drep_deposit: Some(x), ..no_update() })) == worded(
            "drepDeposit"@,
            decimal_chars(p.drep_deposit as nat),
            decimal_chars(x as nat),
        ),
        x != p.drep_activity_period ==> update_listed(p, (ProtocolParamUpdate { drep_activity: Some(x), ..no_update() })) == worded(
            "drepActivity"@,
            decimal_chars(p.drep_activity_period as nat),
            decimal_chars(x as nat),
        ),
        x != p.gov_action_lifetime ==> update_listed(p, (ProtocolParamUpdate { gov_action_lifetime: Some(x), ..no_update() })) == worded(
            "govActionLifetime"@,
            decimal_chars(p.gov_action_lifetime as nat),
            decimal_chars(x as nat),
        ),
        x != p.gov_action_deposit ==> update_listed(p, (ProtocolParamUpdate { gov_action_deposit: Some(x), ..no_update() })) == worded(
            "govActionDeposit"@,
            decimal_chars(p.gov_action_deposit as nat),
            decimal_chars(x as nat),
        ),
        x != p.committee_min_size ==> update_listed(p, (ProtocolParamUpdate { committee_min_size: Some(x), ..no_update() })) == worded(
            "committeeMinSize"@,
            decimal_chars(p.committee_min_size as nat),
            decimal_chars(x as nat),
        ),
        x != p.committee_max_term_length ==> update_listed(p, (ProtocolParamUpdate { committee_max_term_length: Some(x), ..no_update() })) == worded(
            "committeeMaxTermLength"@,
            decimal_chars(p.committee_max_term_length as nat),
            decimal_chars(x as nat),
        ),
{
    reveal(economic_listed);
    reveal(governance_listed);
    lemma_first(worded("drepDeposit"@, decimal_chars(p.drep_deposit as nat), decimal_chars(x as nat)));
    lemma_first(worded("drepActivity"@, decimal_chars(p.drep_activity_period as nat), decimal_chars(x as nat)));
    lemma_first(worded("govActionLifetime"@, decimal_chars(p.gov_action_lifetime as nat), decimal_chars(x as nat)));
    lemma_first(worded("govActionDeposit"@, decimal_chars(p.gov_action_deposit as nat), decimal_chars(x as nat)));
    lemma_first(worded("committeeMinSize"@, decimal_chars(p.committee_min_size as nat), decimal_chars(x as nat)));
    lemma_first(worded("committeeMaxTermLength"@, decimal_chars(p.committee_max_term_length as nat), decimal_chars(x as nat)));
}

/// A new version is worded with both versions.
pub proof fn law_version_worded(p: ProtocolParameters, v: (u64, u64))
    requires
        v != (p.protocol_version_major, p.protocol_version_minor),
    ensures
        update_listed(p, (ProtocolParamUpdate { protocol_version: Some(v), ..no_update() })) == "protocolVersion: v"@
            + version_chars((p.protocol_version_major, p.protocol_version_minor)) + "→v"@ + version_chars(v),
{
    reveal(economic_listed);
    reveal(governance_listed);
    lemma_first(
        "protocolVersion: v"@ + version_chars((p.protocol_version_major, p.protocol_version_minor)) + "→v"@
            + version_chars(v),
    );
}

/// Each voting threshold that changes counts once.
pub proof fn law_thresholds_counted(p: ProtocolParameters, u: ProtocolParamUpdate, r: Rational)
    ensures
        thresholds_moved(p, no_update()) == 0,
        u.dvt_motion_no_confidence is None && r != p.dvt_motion_no_confidence ==> thresholds_moved(p, (ProtocolParamUpdate { dvt_motion_no_confidence: Some(r), ..u })) == thresholds_moved(p, u) + 1,
        u.dvt_committee_normal is None && r != p.dvt_committee_normal ==> thresholds_moved(p, (ProtocolParamUpdate { dvt_committee_normal: Some(r), ..u })) == thresholds_moved(p, u) + 1,
        u.dvt_committee_no_confidence is None && r != p.dvt_committee_no_confidence ==> thresholds_moved(p, (ProtocolParamUpdate { dvt_committee_no_confidence: Some(r), ..u })) == thresholds_moved(p, u) + 1,
        u.dvt_hard_fork_initiation is None && r != p.dvt_hard_fork ==> thresholds_moved(p, (ProtocolParamUpdate { dvt_hard_fork_initiation: Some(r), ..u })) == thresholds_moved(p, u) + 1,
        u.dvt_pp_network_group is None && r != p.dvt_pp_network_group ==> thresholds_moved(p, (ProtocolParamUpdate { dvt_pp_network_group: Some(r), ..u })) == thresholds_moved(p, u) + 1,
        u.dvt_pp_economic_group is None && r != p.dvt_pp_economic_group ==> thresholds_moved(p, (ProtocolParamUpdate { dvt_pp_economic_group: Some(r), ..u })) == thresholds_moved(p, u) + 1,
        u.dvt_pp_technical_group is None && r != p.dvt_pp_technical_group ==> thresholds_moved(p, (ProtocolParamUpdate { dvt_pp_technical_group: Some(r), ..u })) == thresholds_moved(p, u) + 1,
        u.dvt_pp_gov_group is None && r != p.dvt_pp_gov_group ==> thresholds_moved(p, (ProtocolParamUpdate { dvt_pp_gov_group: Some(r), ..u })) == thresholds_moved(p, u) + 1,
        u.dvt_treasury_withdrawal is None && r != p.dvt_treasury_withdrawal ==> thresholds_moved(p, (ProtocolParamUpdate { dvt_treasury_withdrawal: Some(r), ..u })) == thresholds_moved(p, u) + 1,
        u.pvt_motion_no_confidence is None && r != p.pvt_motion_no_confidence ==> thresholds_moved(p, (ProtocolParamUpdate { pvt_motion_no_confidence: Some(r), ..u })) == thresholds_moved(p, u) + 1,
        u.pvt_committee_normal is None && r != p.pvt_committee_normal ==> thresholds_moved(p, (ProtocolParamUpdate { pvt_committee_normal: Some(r), ..u })) == thresholds_moved(p, u) + 1,
        u.pvt_committee_no_confidence is None && r != p.pvt_committee_no_confidence ==> thresholds_moved(p, (ProtocolParamUpdate { pvt_committee_no_confidence: Some(r), ..u })) == thresholds_moved(p, u) + 1,
        u.pvt_hard_fork_initiation is None && r != p.pvt_hard_fork ==> thresholds_moved(p, (ProtocolParamUpdate { pvt_hard_fork_initiation: Some(r), ..u })) == thresholds_moved(p, u) + 1,
        u.pvt_pp_security_group is None && r != p.pvt_pp_security_group ==> thresholds_moved(p, (ProtocolParamUpdate { pvt_pp_security_group: Some(r), ..u })) == thresholds_moved(p, u) + 1,
{
}

/// What an action asks for, in words.
pub proof fn law_action_worded(a: ActionModel, p: ProtocolParameters)
    ensures
        a matches ActionModel::HardForkInitiation { protocol_version, .. } ==> ({
            let (from, to) = (era_chars(p.protocol_version_major), era_chars(protocol_version.0));
            &&& from != to ==> action_chars(a, p) == "HardFork "@ + from + "→"@ + to
            &&& from == to ==> action_chars(a, p) == "HardFork "@ + from + " v"@ + version_chars(
                (p.protocol_version_major, p.protocol_version_minor),
            ) + "→v"@ + version_chars(protocol_version)
        }),
        a matches ActionModel::ParameterChange { update, .. } ==> (update_listed(p, update).len() == 0 ==> action_chars(
            a,
            p,
        ) == "ParameterChange (no fields changed)"@) && (update_listed(p, update).len() > 0 ==> action_chars(a, p)
            == "ParameterChange: "@ + update_listed(p, update)),
        a matches ActionModel::TreasuryWithdrawals { withdrawals, .. } ==> action_chars(a, p)
            == "TreasuryWithdrawals ("@ + decimal_chars(withdrawals.len()) + " recipients, "@ + decimal_chars(
            withdrawal_sum(withdrawals) / 1_000_000,
        ) + " ADA)"@,
        a is NoConfidence ==> action_chars(a, p) == "NoConfidence"@,
        a matches ActionModel::UpdateCommittee { members_to_add, members_to_remove, .. } ==> action_chars(a, p)
            == "UpdateCommittee (+"@ + decimal_chars(members_to_add.len()) + " -"@ + decimal_chars(
            members_to_remove.len(),
        ) + " members)"@,
        a is NewConstitution ==> action_chars(a, p) == "NewConstitution"@,
        a is InfoAction ==> action_chars(a, p) == "InfoAction"@,
{
}

/// What is withdrawn adds up.
pub proof fn law_withdrawal_sum(l: Seq<(Credential, Lovelace)>, x: (Credential, Lovelace))
    ensures
        withdrawal_sum(Seq::empty()) == 0,
        withdrawal_sum(l.push(x)) == withdrawal_sum(l) + x.1.0,
{
    assert(l.push(x).drop_last() =~= l);
}

} // verus!
