//! The ledger that a chain starts with, and the start of its eras.

use vstd::prelude::*;
use crate::genesis::{
    byron_started, configured, fork_planned, genesis_fits, genesis_ledger, nothing_staked, shelley_params, shelley_started, window, ByronStart,
    Committee, ConwayGenesis, ShelleyGenesis,
};
use crate::hexa::{digit_value, hex_bytes, hex_chars, hex_digit, is_hex};
use crate::ledger::conway::{
    anchor_bytes, anchor_hash, committee_set, constitution_of, conway_params, conway_started, credential_key, scripts_set,
    terms_set,
};
use crate::ledger::primitives::{
    mainnet_parameters, ChainPointer, EpochNo, GovActionId, Hash28, Hash32, Lovelace, ProtocolParameters, Rational,
};
use crate::ledger::registry::records;
use crate::ledger::rewards::reward_update;
use crate::ledger::state::{
    account_hash, account_key, byron_slots, epoch_at, given_params, hard_fork_recorded, initial_ledger, shelley_plus,
    zero_hash, GovernanceModel, LedgerModel,
};
use crate::text::has_prefix;

verus! {

// ---- the first ledger ----

/// All lovelace is in the reserves, and nothing is registered, delegated,
/// deposited or staked.
pub proof fn law_first_ledger(params: ProtocolParameters)
    ensures
        ({
            let s = initial_ledger(params);
            &&& s.epoch.0 == 0
            &&& s.reserves.0 == 45_000_000_000_000_000
            &&& s.treasury.0 == 0
            &&& s.protocol_params == params
            &&& s.epoch_fees.0 == 0
            &&& s.epoch_block_count == 0
            &&& !s.has_byron
            &&& s.epoch_length == 432_000
            &&& s.update_quorum == 5
            &&& s.randomness_stabilisation_window == 172_800
            &&& s.stability_window_3kf == 129_600
            &&& s.stability_window_2kf == 86_400
            &&& forall|c: Hash32| !#[trigger] s.stake_map.dom().contains(c)
            &&& forall|c: Hash32| !#[trigger] s.reward_accounts.dom().contains(c)
            &&& forall|c: Hash32| !#[trigger] s.delegations.dom().contains(c)
            &&& forall|c: Hash32| !#[trigger] s.deposits.dom().contains(c)
            &&& forall|p: Hash28| !#[trigger] s.pool_params.dom().contains(p)
            &&& forall|p: Hash28| !#[trigger] s.future_pool_params.dom().contains(p)
            &&& forall|p: Hash28| !#[trigger] s.pending_retirements.dom().contains(p)
            &&& forall|c: Hash32| !#[trigger] s.governance.dreps.dom().contains(c)
            &&& forall|c: Hash32| !#[trigger] s.governance.vote_delegations.dom().contains(c)
            &&& forall|c: Hash32| !#[trigger] s.governance.committee_expiration.dom().contains(c)
            &&& s.governance.committee_threshold is None
            &&& s.governance.constitution is None
            &&& s.governance.conway_cur_params is None
            &&& s.conway_genesis_epoch is None
            &&& s.pending_reward_update is None
            &&& s.snapshots.mark is None && s.snapshots.set is None && s.snapshots.go is None
            &&& s.evolving_nonce == zero_hash() && s.candidate_nonce == zero_hash() && s.epoch_nonce == zero_hash()
        }),
{
}

/// The outputs of Byron genesis come out of the reserves, and a Byron epoch has
/// ten times k slots.
pub proof fn law_byron_start(s: LedgerModel, b: ByronStart)
    requires
        b.total_lovelace <= s.reserves.0,
        10 * b.security_param <= u64::MAX,
    ensures
        ({
            let t = byron_started(s, b);
            &&& t.reserves.0 + b.total_lovelace == s.reserves.0
            &&& t.genesis_hash == b.hash
            &&& t.byron_epoch_length == 10 * b.security_param
            &&& t == (LedgerModel {
                reserves: t.reserves,
                genesis_hash: t.genesis_hash,
                byron_epoch_length: t.byron_epoch_length,
                ..s
            })
        }),
{
}

/// A window is the least number of slots in which `c * k` blocks are expected,
/// where every slot has one with chance `f`.
pub proof fn law_window(c: int, k: u64, f: Rational)
    requires
        f.numerator > 0,
        0 <= c,
        c * k * f.denominator <= u64::MAX,
    ensures
        window(c, k, f) * f.numerator >= c * k * f.denominator,
        window(c, k, f) > 0 ==> (window(c, k, f) - 1) * f.numerator < c * k * f.denominator,
{
    let x = c * k * f.denominator;
    let n = f.numerator as int;
    assert(x >= 0) by (nonlinear_arith)
        requires
            x == c * k * f.denominator,
            c >= 0,
            k >= 0,
            f.denominator >= 0,
    ;
    let q = (x + n - 1) / n;
    vstd::arithmetic::div_mod::lemma_fundamental_div_mod(x + n - 1, n);
    vstd::arithmetic::div_mod::lemma_mod_bound(x + n - 1, n);
    assert(n * q == q * n && (q - 1) * n == q * n - n) by (nonlinear_arith);
    assert(q <= x) by (nonlinear_arith)
        requires
            q * n <= x + n - 1,
            n >= 1,
            x >= 0,
    ;
    vstd::arithmetic::div_mod::lemma_div_pos_is_pos(x + n - 1, n);
}

/// Shelley genesis sets the parameters that it gives, and leaves the others.
pub proof fn law_shelley_parameters(p: ProtocolParameters, g: ShelleyGenesis)
    ensures
        ({
            let q = shelley_params(p, g);
            let n = g.protocol_params;
            &&& n.rho matches Some(x) ==> q.rho == x
            &&& n.rho is None ==> q.rho == p.rho
            &&& n.tau matches Some(x) ==> q.tau == x
            &&& n.tau is None ==> q.tau == p.tau
            &&& n.decentralisation_param matches Some(x) ==> q.decentralization == x
            &&& n.decentralisation_param is None ==> q.decentralization == p.decentralization
            &&& n.a0 matches Some(x) ==> q.a0 == x
            &&& n.a0 is None ==> q.a0 == p.a0
            &&& n.n_opt matches Some(x) ==> q.n_opt == x
            &&& n.n_opt is None ==> q.n_opt == p.n_opt
            &&& n.min_fee_a matches Some(x) ==> q.min_fee_a == x
            &&& n.min_fee_a is None ==> q.min_fee_a == p.min_fee_a
            &&& n.min_fee_b matches Some(x) ==> q.min_fee_b == x
            &&& n.min_fee_b is None ==> q.min_fee_b == p.min_fee_b
            &&& n.pool_deposit matches Some(x) ==> q.pool_deposit == x
            &&& n.pool_deposit is None ==> q.pool_deposit == p.pool_deposit
            &&& n.key_deposit matches Some(x) ==> q.key_deposit == x
            &&& n.key_deposit is None ==> q.key_deposit == p.key_deposit
            &&& n.min_pool_cost matches Some(x) ==> q.min_pool_cost == x
            &&& n.min_pool_cost is None ==> q.min_pool_cost == p.min_pool_cost
            &&& n.min_pool_cost matches Some(x) ==> q.min_pool_cost_lovelace == x
            &&& n.min_pool_cost is None ==> q.min_pool_cost_lovelace == p.min_pool_cost_lovelace
            &&& q.active_slot_coefficient == g.active_slots_coeff
            &&& n.protocol_version matches Some(v) ==> q.protocol_version_major == v.major && q.protocol_version_minor
                == v.minor
            &&& n.protocol_version is None ==> q.protocol_version_major == p.protocol_version_major
                && q.protocol_version_minor == p.protocol_version_minor
            &&& q == (ProtocolParameters {
                protocol_version_major: q.protocol_version_major,
                protocol_version_minor: q.protocol_version_minor,
                min_fee_a: q.min_fee_a,
                min_fee_b: q.min_fee_b,
                key_deposit: q.key_deposit,
                pool_deposit: q.pool_deposit,
                min_pool_cost: q.min_pool_cost,
                rho: q.rho,
                tau: q.tau,
                decentralization: q.decentralization,
                active_slot_coefficient: q.active_slot_coefficient,
                min_pool_cost_lovelace: q.min_pool_cost_lovelace,
                n_opt: q.n_opt,
                a0: q.a0,
                ..p
            })
        }),
{
}

/// Shelley genesis sets the epoch length, the quorum and the windows of two,
/// three and four k/f slots; the last one is that in which the nonce is fixed.
pub proof fn law_shelley_start(s: LedgerModel, g: ShelleyGenesis)
    ensures
        ({
            let t = shelley_started(s, g);
            let (k, f) = (g.security_param, g.active_slots_coeff);
            &&& t.epoch_length == g.epoch_length
            &&& t.update_quorum == g.update_quorum
            &&& t.protocol_params == shelley_params(s.protocol_params, g)
            &&& f.numerator > 0 ==> t.stability_window_2kf == window(2, k, f)
            &&& f.numerator > 0 ==> t.stability_window_3kf == window(3, k, f)
            &&& f.numerator > 0 ==> t.randomness_stabilisation_window == window(4, k, f)
            &&& f.numerator == 0 ==> t.stability_window_2kf == s.stability_window_2kf && t.stability_window_3kf
                == s.stability_window_3kf && t.randomness_stabilisation_window == s.randomness_stabilisation_window
            &&& t == (LedgerModel {
                epoch_length: t.epoch_length,
                update_quorum: t.update_quorum,
                protocol_params: t.protocol_params,
                stability_window_2kf: t.stability_window_2kf,
                stability_window_3kf: t.stability_window_3kf,
                randomness_stabilisation_window: t.randomness_stabilisation_window,
                ..s
            })
        }),
{
}

/// A chain with a Byron era knows at which epoch that ends, or waits for the
/// chain to say so; one whose fork is at epoch zero has none.
pub proof fn law_fork_planned(s: LedgerModel, at: Option<u64>)
    ensures
        ({
            let t = fork_planned(s, at);
            &&& at == Some(0u64) ==> t == s
            &&& at matches Some(n) ==> (n > 0 ==> t.has_byron && t.shelley_transition_epoch == n)
            &&& at is None && s.byron_epoch_length > 0 ==> t.has_byron && t.shelley_transition_epoch == u64::MAX
            &&& at is None && s.byron_epoch_length == 0 ==> t == s
            &&& t == (LedgerModel {
                has_byron: t.has_byron,
                shelley_transition_epoch: t.shelley_transition_epoch,
                ..s
            })
        }),
{
}

/// What a chain starts with: the reserves without the outputs of Byron genesis,
/// the lengths and the quorum of the genesis files, and, where it has no Byron
/// era, a reward update without stake and fees.
pub proof fn law_genesis(byron: Option<ByronStart>, shelley: Option<ShelleyGenesis>, fork: Option<u64>)
    ensures
        ({
            let s = genesis_ledger(byron, shelley, fork);
            &&& s.treasury.0 == 0
            &&& s.epoch.0 == 0
            &&& byron is None ==> s.reserves.0 == 45_000_000_000_000_000
            &&& byron matches Some(b) ==> (b.total_lovelace <= 45_000_000_000_000_000 ==> s.reserves.0
                == 45_000_000_000_000_000 - b.total_lovelace)
            &&& byron matches Some(b) ==> s.genesis_hash == b.hash
            &&& shelley matches Some(g) ==> s.epoch_length == g.epoch_length && s.update_quorum == g.update_quorum
                && s.protocol_params.active_slot_coefficient == g.active_slots_coeff
            &&& fork matches Some(n) ==> s.has_byron == (n > 0)
            &&& s.has_byron ==> s.pending_reward_update is None
            &&& !s.has_byron ==> s.pending_reward_update == Some(
                reward_update(configured(byron, shelley, fork), nothing_staked(), Lovelace(0), s.protocol_params),
            )
            &&& forall|p: Hash28| !#[trigger] nothing_staked().pool_stake.dom().contains(p)
            &&& forall|c: Hash32| !#[trigger] s.reward_accounts.dom().contains(c)
        }),
{
}

// ---- Conway ----

/// The Conway parameters are those in force with what the genesis gives, at
/// version 9.0.
pub proof fn law_conway_parameters(p: ProtocolParameters, g: ConwayGenesis)
    ensures
        ({
            let q = conway_params(p, g);
            &&& q.protocol_version_major == 9
            &&& q.protocol_version_minor == 0
            &&& g.committee_max_term_length matches Some(x) ==> q.committee_max_term_length == x
            &&& g.committee_max_term_length is None ==> q.committee_max_term_length == p.committee_max_term_length
            &&& g.gov_action_lifetime matches Some(x) ==> q.gov_action_lifetime == x
            &&& g.gov_action_lifetime is None ==> q.gov_action_lifetime == p.gov_action_lifetime
            &&& g.gov_action_deposit matches Some(x) ==> q.gov_action_deposit == x
            &&& g.gov_action_deposit is None ==> q.gov_action_deposit == p.gov_action_deposit
            &&& g.d_rep_deposit matches Some(x) ==> q.drep_deposit == x
            &&& g.d_rep_deposit is None ==> q.drep_deposit == p.drep_deposit
            &&& g.d_rep_activity matches Some(x) ==> q.drep_activity_period == x
            &&& g.d_rep_activity is None ==> q.drep_activity_period == p.drep_activity_period
            &&& g.committee_min_size matches Some(x) ==> q.committee_min_size == x
            &&& g.committee_min_size is None ==> q.committee_min_size == p.committee_min_size
            &&& g.pool_voting_thresholds matches Some(t) ==> q.pvt_motion_no_confidence == t.motion_no_confidence
            &&& g.pool_voting_thresholds is None ==> q.pvt_motion_no_confidence == p.pvt_motion_no_confidence
            &&& g.pool_voting_thresholds matches Some(t) ==> q.pvt_committee_normal == t.committee_normal
            &&& g.pool_voting_thresholds is None ==> q.pvt_committee_normal == p.pvt_committee_normal
            &&& g.pool_voting_thresholds matches Some(t) ==> q.pvt_committee_no_confidence == t.committee_no_confidence
            &&& g.pool_voting_thresholds is None ==> q.pvt_committee_no_confidence == p.pvt_committee_no_confidence
            &&& g.pool_voting_thresholds matches Some(t) ==> q.pvt_hard_fork == t.hard_fork_initiation
            &&& g.pool_voting_thresholds is None ==> q.pvt_hard_fork == p.pvt_hard_fork
            &&& g.pool_voting_thresholds matches Some(t) ==> q.pvt_pp_security_group == t.pp_security_group
            &&& g.pool_voting_thresholds is None ==> q.pvt_pp_security_group == p.pvt_pp_security_group
            &&& g.d_rep_voting_thresholds matches Some(t) ==> q.dvt_motion_no_confidence == t.motion_no_confidence
            &&& g.d_rep_voting_thresholds is None ==> q.dvt_motion_no_confidence == p.dvt_motion_no_confidence
            &&& g.d_rep_voting_thresholds matches Some(t) ==> q.dvt_committee_normal == t.committee_normal
            &&& g.d_rep_voting_thresholds is None ==> q.dvt_committee_normal == p.dvt_committee_normal
            &&& g.d_rep_voting_thresholds matches Some(t) ==> q.dvt_committee_no_confidence == t.committee_no_confidence
            &&& g.d_rep_voting_thresholds is None ==> q.dvt_committee_no_confidence == p.dvt_committee_no_confidence
            &&& g.d_rep_voting_thresholds matches Some(t) ==> q.dvt_constitution == t.update_to_constitution
            &&& g.d_rep_voting_thresholds is None ==> q.dvt_constitution == p.dvt_constitution
            &&& g.d_rep_voting_thresholds matches Some(t) ==> q.dvt_hard_fork == t.hard_fork_initiation
            &&& g.d_rep_voting_thresholds is None ==> q.dvt_hard_fork == p.dvt_hard_fork
            &&& g.d_rep_voting_thresholds matches Some(t) ==> q.dvt_pp_network_group == t.pp_network_group
            &&& g.d_rep_voting_thresholds is None ==> q.dvt_pp_network_group == p.dvt_pp_network_group
            &&& g.d_rep_voting_thresholds matches Some(t) ==> q.dvt_pp_economic_group == t.pp_economic_group
            &&& g.d_rep_voting_thresholds is None ==> q.dvt_pp_economic_group == p.dvt_pp_economic_group
            &&& g.d_rep_voting_thresholds matches Some(t) ==> q.dvt_pp_technical_group == t.pp_technical_group
            &&& g.d_rep_voting_thresholds is None ==> q.dvt_pp_technical_group == p.dvt_pp_technical_group
            &&& g.d_rep_voting_thresholds matches Some(t) ==> q.dvt_pp_gov_group == t.pp_gov_group
            &&& g.d_rep_voting_thresholds is None ==> q.dvt_pp_gov_group == p.dvt_pp_gov_group
            &&& g.d_rep_voting_thresholds matches Some(t) ==> q.dvt_treasury_withdrawal == t.treasury_withdrawal
            &&& g.d_rep_voting_thresholds is None ==> q.dvt_treasury_withdrawal == p.dvt_treasury_withdrawal
            &&& q == (ProtocolParameters {
                protocol_version_major: q.protocol_version_major,
                protocol_version_minor: q.protocol_version_minor,
                drep_deposit: q.drep_deposit,
                drep_activity_period: q.drep_activity_period,
                gov_action_lifetime: q.gov_action_lifetime,
                gov_action_deposit: q.gov_action_deposit,
                committee_min_size: q.committee_min_size,
                committee_max_term_length: q.committee_max_term_length,
                dvt_motion_no_confidence: q.dvt_motion_no_confidence,
                dvt_committee_normal: q.dvt_committee_normal,
                dvt_committee_no_confidence: q.dvt_committee_no_confidence,
                dvt_hard_fork: q.dvt_hard_fork,
                dvt_pp_network_group: q.dvt_pp_network_group,
                dvt_pp_economic_group: q.dvt_pp_economic_group,
                dvt_pp_technical_group: q.dvt_pp_technical_group,
                dvt_pp_gov_group: q.dvt_pp_gov_group,
                dvt_treasury_withdrawal: q.dvt_treasury_withdrawal,
                dvt_constitution: q.dvt_constitution,
                pvt_motion_no_confidence: q.pvt_motion_no_confidence,
                pvt_committee_normal: q.pvt_committee_normal,
                pvt_committee_no_confidence: q.pvt_committee_no_confidence,
                pvt_hard_fork: q.pvt_hard_fork,
                pvt_pp_security_group: q.pvt_pp_security_group,
                ..p
            })
        }),
{
}

/// The Conway era begins with its parameters waiting, its first committee and
/// its first constitution. It does not begin twice.
pub proof fn law_conway_begins(s: LedgerModel, g: ConwayGenesis, e: EpochNo)
    ensures
        ({
            let t = conway_started(s, g, e);
            let (a, b) = (s.governance, t.governance);
            let new = s.conway_genesis_epoch is None;
            &&& !new ==> t == s
            &&& new ==> {
                &&& t.conway_genesis_epoch == Some(e.0)
                &&& b.conway_cur_params == Some(conway_params(s.protocol_params, g))
                &&& g.constitution is None ==> b.constitution == a.constitution
                &&& g.constitution matches Some(c) ==> b.constitution == Some(constitution_of(c))
                &&& g.committee is None ==> b.committee_expiration == a.committee_expiration && b.committee_threshold
                    == a.committee_threshold && b.script_committee_credentials == a.script_committee_credentials
                &&& g.committee matches Some(c) ==> b.committee_expiration == committee_set(a, c).committee_expiration
                    && b.committee_threshold == committee_set(a, c).committee_threshold
                    && b.script_committee_credentials == committee_set(a, c).script_committee_credentials
                &&& t == (LedgerModel {
                    conway_genesis_epoch: t.conway_genesis_epoch,
                    governance: GovernanceModel {
                        conway_cur_params: b.conway_cur_params,
                        constitution: b.constitution,
                        committee_expiration: b.committee_expiration,
                        committee_threshold: b.committee_threshold,
                        script_committee_credentials: b.script_committee_credentials,
                        ..a
                    },
                    ..s
                })
            }
        }),
{
}

/// The quorum of the first committee is that of the genesis, where it gives
/// one.
pub proof fn law_first_quorum(g: GovernanceModel, c: Committee)
    ensures
        c.threshold is None ==> committee_set(g, c).committee_threshold == g.committee_threshold,
        c.threshold matches Some(t) ==> (committee_set(g, c).committee_threshold matches Some(u) && u.numerator
            == t.numerator && u.denominator == t.denominator),
{
}

/// A member whose name can be read takes office for its term; a script is
/// noted as one. Other members are not affected.
pub proof fn law_member_seated(m: Map<Hash32, EpochNo>, k: Set<Hash32>, l: Seq<(Seq<char>, u64)>, x: (Seq<char>, u64))
    ensures
        ({
            let (a, b) = (terms_set(m, l), terms_set(m, l.push(x)));
            let (c, d) = (scripts_set(k, l), scripts_set(k, l.push(x)));
            &&& terms_set(m, Seq::empty()) == m
            &&& scripts_set(k, Seq::empty()) == k
            &&& credential_key(x.0) is None ==> b == a && d == c
            &&& credential_key(x.0) matches Some(h) ==> records(a, b, h, EpochNo(x.1))
            &&& credential_key(x.0) matches Some(h) ==> d == (if has_prefix(x.0, "scriptHash-"@) {
                c.insert(h)
            } else {
                c
            })
        }),
{
    assert(l.push(x).drop_last() =~= l);
}

// ---- hexadecimal ----

proof fn lemma_digit(n: int)
    requires
        0 <= n < 16,
    ensures
        digit_value(hex_digit(n)) == Some(n),
{
}

/// What is written in hexadecimal is read back.
pub proof fn law_hex_read_back(b: Seq<u8>)
    ensures
        is_hex(hex_chars(b)),
        hex_bytes(hex_chars(b)) == b,
{
    let s = hex_chars(b);
    assert(s.len() == 2 * b.len());
    assert forall|i: int| #![trigger s[i]] 0 <= i < s.len() implies digit_value(s[i]) is Some by {
        let n = if i % 2 == 0 {
            b[i / 2] as int / 16
        } else {
            b[i / 2] as int % 16
        };
        assert(0 <= n < 16);
        assert(s[i] == hex_digit(n));
        lemma_digit(n);
    }
    assert forall|i: int| 0 <= i < b.len() implies hex_bytes(s)[i] == b[i] by {
        let (hi, lo) = (b[i] as int / 16, b[i] as int % 16);
        assert((2 * i) / 2 == i && (2 * i + 1) / 2 == i && (2 * i) % 2 == 0 && (2 * i + 1) % 2 == 1);
        assert(s[2 * i] == hex_digit(hi));
        assert(s[2 * i + 1] == hex_digit(lo));
        lemma_digit(hi);
        lemma_digit(lo);
    }
    assert(hex_bytes(s) =~= b);
}

/// The name of a credential is its kind and its hash in hexadecimal: 28 bytes
/// count, and four zeros stand behind them.
pub proof fn law_credential_named(hash: Seq<u8>, script: bool, k: Hash32)
    requires
        hash.len() >= 28,
        k@ == hash.take(28) + Seq::new(4, |i: int| 0u8),
    ensures
        credential_key(
            if script {
                "scriptHash-"@
            } else {
                "keyHash-"@
            } + hex_chars(hash),
        ) == Some(k),
{
    reveal_strlit("keyHash-");
    reveal_strlit("scriptHash-");
    law_hex_read_back(hash);
    let p = if script { "scriptHash-"@ } else { "keyHash-"@ };
    let s = p + hex_chars(hash);
    assert(s.take(p.len() as int) =~= p);
    assert(s.skip(p.len() as int) =~= hex_chars(hash));
    if script {
        assert(s[0] == 's');
        assert(!has_prefix(s, "keyHash-"@)) by {
            if has_prefix(s, "keyHash-"@) {
                assert(s.take(8)[0] == 'k');
            }
        }
    }
    let h = crate::ledger::primitives::padded_key(hash.take(28));
    assert(k@ =~= crate::ledger::primitives::padded(hash.take(28)));
    assert(h@ == k@);
    assert(h =~= k);
}

/// The first 32 bytes of the constitution's hash count, with zeros where there
/// are fewer; a text that is no hexadecimal gives zeros.
pub proof fn law_anchor_hash(b: Seq<u8>, s: Seq<char>, i: int)
    requires
        0 <= i < 32,
    ensures
        i < b.len() ==> anchor_bytes(hex_chars(b))[i] == b[i],
        i >= b.len() ==> anchor_bytes(hex_chars(b))[i] == 0,
        !is_hex(s) ==> anchor_bytes(s)[i] == 0,
{
    law_hex_read_back(b);
}

// ---- slots ----

/// A slot of the Byron era is in a Byron epoch, and a later one in a Shelley
/// epoch.
pub proof fn law_eras_apart(s: LedgerModel, slot: u64)
    requires
        s.epoch_length > 0,
        s.has_byron ==> s.byron_epoch_length > 0,
        s.has_byron && s.shelley_transition_epoch != u64::MAX ==> s.byron_epoch_length * s.shelley_transition_epoch
            <= u64::MAX,
    ensures
        shelley_plus(s, epoch_at(s, slot)) == (!s.has_byron || (s.shelley_transition_epoch != u64::MAX && slot
            >= s.byron_epoch_length * s.shelley_transition_epoch)),
        s.has_byron && slot < s.byron_epoch_length * s.shelley_transition_epoch ==> epoch_at(s, slot) == slot
            / s.byron_epoch_length,
        s.has_byron && s.shelley_transition_epoch == u64::MAX ==> epoch_at(s, slot) == slot / s.byron_epoch_length,
        !s.has_byron ==> epoch_at(s, slot) == slot / s.epoch_length,
        s.has_byron && s.shelley_transition_epoch != u64::MAX && slot >= s.byron_epoch_length
            * s.shelley_transition_epoch ==> epoch_at(s, slot) >= s.shelley_transition_epoch,
{
    if s.has_byron {
        let (b, n, x) = (s.byron_epoch_length as int, s.shelley_transition_epoch as int, slot as int);
        if s.shelley_transition_epoch != u64::MAX {
            assert(byron_slots(s) == b * n);
            if x < b * n {
                assert(x / b < n) by {
                    vstd::arithmetic::div_mod::lemma_fundamental_div_mod(x, b);
                    vstd::arithmetic::div_mod::lemma_mod_bound(x, b);
                    let q = x / b;
                    if q >= n {
                        assert(b * q >= b * n) by (nonlinear_arith)
                            requires
                                q >= n,
                                b > 0,
                        ;
                    }
                }
            }
        }
    }
}

/// The first proposal of the hard fork fixes its epoch; later ones, and those
/// on a chain whose fork is known, change nothing.
pub proof fn law_fork_recorded_once(s: LedgerModel, a: u64, b: u64)
    requires
        a < u64::MAX - 1,
    ensures
        ({
            let t = hard_fork_recorded(s, a);
            let waiting = s.has_byron && s.shelley_transition_epoch == u64::MAX;
            &&& waiting ==> t.shelley_transition_epoch == a + 1
            &&& !waiting ==> t == s
            &&& hard_fork_recorded(t, b) == t
            &&& t == (LedgerModel { shelley_transition_epoch: t.shelley_transition_epoch, ..s })
        }),
{
}

// ---- accounts ----

/// The credential of a reward account: the 28 bytes behind its header, and a
/// one behind them where the header's upper half is full, which says that it is
/// a script's.
pub proof fn law_account_hash(account: Seq<u8>, i: int)
    requires
        account.len() >= 29,
        0 <= i < 32,
    ensures
        account_hash(account).len() == 32,
        i < 28 ==> account_hash(account)[i] == account[i + 1],
        i == 28 ==> account_hash(account)[i] == (if account[0] / 16 == 15 {
            1u8
        } else {
            0u8
        }),
        i > 28 ==> account_hash(account)[i] == 0,
{
}

/// Parameters that are given have the values that are given, and the others
/// stay.
pub proof fn law_given_params(
    p: ProtocolParameters,
    rho: Option<Rational>,
    tau: Option<Rational>,
    d: Option<Rational>,
    a0: Option<Rational>,
    n_opt: Option<u64>,
    min_fee_a: Option<u64>,
    min_fee_b: Option<u64>,
    pool_deposit: Option<u64>,
    key_deposit: Option<u64>,
    min_pool_cost: Option<u64>,
    f: Option<Rational>,
    version: Option<(u64, u64)>,
)
    ensures
        ({
            let q = given_params(
                p,
                rho,
                tau,
                d,
                a0,
                n_opt,
                min_fee_a,
                min_fee_b,
                pool_deposit,
                key_deposit,
                min_pool_cost,
                f,
                version,
            );
            &&& rho matches Some(x) ==> q.rho == x
            &&& rho is None ==> q.rho == p.rho
            &&& tau matches Some(x) ==> q.tau == x
            &&& tau is None ==> q.tau == p.tau
            &&& d matches Some(x) ==> q.decentralization == x
            &&& d is None ==> q.decentralization == p.decentralization
            &&& a0 matches Some(x) ==> q.a0 == x
            &&& a0 is None ==> q.a0 == p.a0
            &&& n_opt matches Some(x) ==> q.n_opt == x
            &&& n_opt is None ==> q.n_opt == p.n_opt
            &&& min_fee_a matches Some(x) ==> q.min_fee_a == x
            &&& min_fee_a is None ==> q.min_fee_a == p.min_fee_a
            &&& min_fee_b matches Some(x) ==> q.min_fee_b == x
            &&& min_fee_b is None ==> q.min_fee_b == p.min_fee_b
            &&& pool_deposit matches Some(x) ==> q.pool_deposit == x
            &&& pool_deposit is None ==> q.pool_deposit == p.pool_deposit
            &&& key_deposit matches Some(x) ==> q.key_deposit == x
            &&& key_deposit is None ==> q.key_deposit == p.key_deposit
            &&& min_pool_cost matches Some(x) ==> q.min_pool_cost == x && q.min_pool_cost_lovelace == x
            &&& min_pool_cost is None ==> q.min_pool_cost == p.min_pool_cost && q.min_pool_cost_lovelace
                == p.min_pool_cost_lovelace
            &&& f matches Some(x) ==> q.active_slot_coefficient == x
            &&& f is None ==> q.active_slot_coefficient == p.active_slot_coefficient
            &&& version matches Some(v) ==> q.protocol_version_major == v.0 && q.protocol_version_minor == v.1
            &&& version is None ==> q.protocol_version_major == p.protocol_version_major && q.protocol_version_minor
                == p.protocol_version_minor
            &&& q == (ProtocolParameters {
                rho: q.rho,
                tau: q.tau,
                decentralization: q.decentralization,
                a0: q.a0,
                n_opt: q.n_opt,
                min_fee_a: q.min_fee_a,
                min_fee_b: q.min_fee_b,
                pool_deposit: q.pool_deposit,
                key_deposit: q.key_deposit,
                min_pool_cost: q.min_pool_cost,
                min_pool_cost_lovelace: q.min_pool_cost_lovelace,
                active_slot_coefficient: q.active_slot_coefficient,
                protocol_version_major: q.protocol_version_major,
                protocol_version_minor: q.protocol_version_minor,
                ..p
            })
        }),
{
}

/// Genesis files can be read where a Byron epoch fits, and, on a chain that
/// starts in the Shelley era, where the expansion and the treasury's part are
/// at most one.
pub proof fn law_genesis_readable(byron: Option<ByronStart>, shelley: Option<ShelleyGenesis>, fork: Option<u64>)
    requires
        byron matches Some(b) ==> 10 * b.security_param <= u64::MAX,
        ({
            let p = configured(byron, shelley, fork).protocol_params;
            p.rho.numerator <= p.rho.denominator && p.tau.numerator <= p.tau.denominator
        }),
    ensures
        genesis_fits(byron, shelley, fork),
{
    let s = configured(byron, shelley, fork);
    let g = nothing_staked();
    assert(g.pool_stake.dom() =~= Set::<Hash28>::empty());
    assert(g.epoch_blocks_by_pool.dom() =~= Set::<Hash28>::empty());
    crate::sums::lemma_sum_empty::<Hash28, u64>(|p: Hash28, n: u64| n as nat);
    assert(crate::ledger::rewards::block_total(g.epoch_blocks_by_pool) == 0);
    crate::ledger::bounds::law_consistent_rewards_fit(s, g, Lovelace(0), s.protocol_params);
}

/// A Byron epoch that does not fit makes genesis files unreadable.
pub proof fn law_genesis_refused(b: ByronStart, shelley: Option<ShelleyGenesis>, fork: Option<u64>)
    requires
        10 * b.security_param > u64::MAX,
    ensures
        !genesis_fits(Some(b), shelley, fork),
{
}

/// An account, and the hash of an anchor, are known by the bytes that they
/// stand for.
pub proof fn law_keys_spelled(account: Seq<u8>, s: Seq<char>, h: Hash32)
    ensures
        h@ == account_hash(account) ==> account_key(account) == h,
        h@ == anchor_bytes(s) ==> anchor_hash(s) == h,
        account.len() < 29 ==> account_hash(account) == Seq::new(32, |i: int| 0u8),
{
    if h@ == account_hash(account) {
        let k = account_key(account);
        assert(k@ == account_hash(account));
        assert(k =~= h);
    }
    if h@ == anchor_bytes(s) {
        let k = anchor_hash(s);
        assert(k@ == anchor_bytes(s));
        assert(k =~= h);
    }
}

/// Nothing has been proposed, voted on, ratified or enacted yet, and nobody has
/// lost confidence in the committee.
pub proof fn law_first_governance(params: ProtocolParameters)
    ensures
        ({
            let g = initial_ledger(params).governance;
            &&& !g.no_confidence
            &&& !g.last_ratify_delayed
            &&& g.drep_registration_count == 0 && g.proposal_count == 0
            &&& g.enacted_pparam_update is None && g.enacted_hard_fork is None
            &&& g.enacted_committee is None && g.enacted_constitution is None
            &&& g.last_ratified.len() == 0 && g.last_expired.len() == 0
            &&& g.drep_no_confidence_snapshot == 0 && g.drep_abstain_snapshot == 0
            &&& forall|c: Hash32| !#[trigger] g.committee_hot_keys.dom().contains(c)
            &&& forall|c: Hash32| !#[trigger] g.committee_resigned.dom().contains(c)
            &&& forall|c: Hash32| !#[trigger] g.script_committee_credentials.contains(c)
            &&& forall|c: Hash32| !#[trigger] g.script_committee_hot_credentials.contains(c)
            &&& forall|c: Hash32| !#[trigger] g.drep_power_snapshot.dom().contains(c)
            &&& forall|id: GovActionId| !#[trigger] g.proposals.dom().contains(id)
            &&& forall|id: GovActionId| !#[trigger] g.votes_by_action.dom().contains(id)
        }),
{
}

/// No epoch has ended yet: there is nothing to enact, to log or to remember of
/// an earlier one, and the overlay schedule is in full force.
pub proof fn law_first_epoch(params: ProtocolParameters)
    ensures
        ({
            let s = initial_ledger(params);
            &&& s.shelley_transition_epoch == 0
            &&& s.byron_epoch_length == 0
            &&& s.genesis_hash == zero_hash() && s.lab_nonce == zero_hash() && s.last_epoch_block_nonce == zero_hash()
            &&& s.snapshots.pay is None
            &&& s.snapshots.current_epoch_fees.0 == 0
            &&& s.last_applied_rupd is None
            &&& s.ppup_enacted_log is None
            &&& s.prev_protocol_params is None
            &&& s.pending_enactments.len() == 0
            &&& s.prev_epoch_decentralization.numerator == s.prev_epoch_decentralization.denominator
            &&& s.prev_epoch_decentralization.denominator == 1
            &&& forall|p: Hash28| !#[trigger] s.epoch_blocks_by_pool.dom().contains(p)
            &&& forall|e: EpochNo| !#[trigger] s.pending_pp_updates.dom().contains(e)
            &&& forall|c: Hash32| !#[trigger] s.script_stake_credentials.contains(c)
            &&& forall|c: ChainPointer| !#[trigger] s.ptr_map.dom().contains(c)
        }),
{
}

/// A rational that equals a percentage.
pub open spec fn percent(r: Rational, n: int) -> bool {
    &&& r.denominator > 0
    &&& r.numerator * 100 == n * r.denominator
}

/// Parameters of the main network: the expansion is 0.3 % and the treasury gets
/// a fifth, one slot in twenty has a leader, 500 pools are wanted, and most
/// actions need more than half of the stake that votes.
pub proof fn law_mainnet_parameters()
    ensures
        ({
            let p = mainnet_parameters();
            &&& p.protocol_version_major == 10 && p.protocol_version_minor == 0
            &&& p.min_fee_a == 44 && p.min_fee_b == 155_381
            &&& p.max_block_body_size == 88 * 1024 && p.max_transaction_size == 16 * 1024 && p.max_block_header_size == 1100
            &&& p.key_deposit == 2_000_000 && p.pool_deposit == 250 * p.key_deposit && p.drep_deposit == p.pool_deposit
            &&& p.gov_action_deposit == 200 * p.drep_deposit
            &&& p.min_pool_cost == 340_000_000 && p.min_pool_cost_lovelace == p.min_pool_cost
            &&& p.utxo_cost_per_byte == 4310
            &&& percent(p.tau, 20) && percent(p.decentralization, 0) && percent(p.active_slot_coefficient, 5) && percent(
                p.a0,
                30,
            )
            &&& p.rho.numerator * 1000 == 3 * p.rho.denominator && p.rho.denominator > 0
            &&& p.extra_entropy is None
            &&& p.n_opt == 500 && p.e_max == 18
            &&& p.drep_activity_period == 20 && p.gov_action_lifetime == 6
            &&& p.committee_min_size == 7 && p.committee_max_term_length == 146
            &&& percent(p.dvt_motion_no_confidence, 51) && percent(p.dvt_committee_normal, 51)
            &&& percent(p.dvt_committee_no_confidence, 60) && percent(p.dvt_hard_fork, 60)
            &&& percent(p.dvt_pp_network_group, 51) && percent(p.dvt_pp_economic_group, 51)
            &&& percent(p.dvt_pp_technical_group, 51) && percent(p.dvt_pp_gov_group, 75)
            &&& percent(p.dvt_treasury_withdrawal, 51) && percent(p.dvt_constitution, 75) && percent(p.dvt_no_confidence, 51)
            &&& percent(p.pvt_motion_no_confidence, 51) && percent(p.pvt_committee_normal, 51)
            &&& percent(p.pvt_committee_no_confidence, 51) && percent(p.pvt_hard_fork, 60)
            &&& percent(p.pvt_pp_security_group, 51)
            &&& p.max_tx_execution_units_mem == 14_000_000 && p.max_tx_execution_units_steps == 10_000_000_000
            &&& p.max_block_execution_units_mem == 62_000_000 && p.max_block_execution_units_steps == 4
                * p.max_tx_execution_units_steps
            &&& p.max_value_size == 5000 && p.collateral_percentage == 150 && p.max_collateral_inputs == 3
            &&& p.min_fee_ref_script_cost_per_byte == 15
            &&& p.price_mem.numerator * 10_000 == 577 * p.price_mem.denominator && p.price_mem.denominator > 0
            &&& p.price_step.numerator * 10_000_000 == 721 * p.price_step.denominator && p.price_step.denominator > 0
        }),
{
}

} // verus!
