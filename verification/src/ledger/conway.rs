//! The start of the Conway era.

use vstd::prelude::*;
use crate::genesis::{Committee, Constitution as GenesisConstitution, ConwayGenesis};
use crate::hexa::{decode_hex, hex_bytes, is_hex};
use crate::ledger::primitives::{
    pad_key, padded_key, Anchor, Constitution, EpochNo, Hash32, ProtocolParameters, Rational,
};
use crate::ledger::state::{keep_or, or_keep, GovernanceModel, LedgerModel, LedgerState};
use crate::table::listing;
use crate::text::{has_prefix, starts_with};

verus! {

/// A hash in hexadecimal as a padded key, if it has at least 28 bytes.
pub open spec fn hex_key(s: Seq<char>) -> Option<Hash32> {
    if is_hex(s) && hex_bytes(s).len() >= 28 {
        Some(padded_key(hex_bytes(s).take(28)))
    } else {
        None
    }
}

fn read_hex_key(s: &str) -> (r: Option<Hash32>)
    ensures
        r == hex_key(s@),
{
    match decode_hex(s) {
        Some(bytes) => {
            if bytes.len() < 28 {
                return None;
            }
            assert(bytes@.subrange(0, 28) =~= bytes@.take(28));
            Some(pad_key(bytes.as_slice(), 0))
        },
        None => None,
    }
}

/// The key of a credential such as `keyHash-aabb..` or `scriptHash-aabb..`.
pub open spec fn credential_key(s: Seq<char>) -> Option<Hash32> {
    if has_prefix(s, "keyHash-"@) {
        hex_key(s.skip("keyHash-"@.len() as int))
    } else if has_prefix(s, "scriptHash-"@) {
        hex_key(s.skip("scriptHash-"@.len() as int))
    } else {
        None
    }
}

/// Terms with those of the members of the first committee that can be read.
pub open spec fn terms_set(m: Map<Hash32, EpochNo>, l: Seq<(Seq<char>, u64)>) -> Map<Hash32, EpochNo>
    decreases l.len(),
{
    if l.len() == 0 {
        m
    } else {
        let before = terms_set(m, l.drop_last());
        match credential_key(l.last().0) {
            Some(h) => before.insert(h, EpochNo(l.last().1)),
            None => before,
        }
    }
}

/// The script credentials with those of the first committee.
pub open spec fn scripts_set(s: Set<Hash32>, l: Seq<(Seq<char>, u64)>) -> Set<Hash32>
    decreases l.len(),
{
    if l.len() == 0 {
        s
    } else {
        let before = scripts_set(s, l.drop_last());
        match credential_key(l.last().0) {
            Some(h) => if has_prefix(l.last().0, "scriptHash-"@) {
                before.insert(h)
            } else {
                before
            },
            None => before,
        }
    }
}

/// The first 32 bytes of a hash in hexadecimal, filled up with zeros.
pub open spec fn anchor_hash(s: Seq<char>) -> Hash32 {
    choose|h: Hash32| h@ == anchor_bytes(s)
}

pub open spec fn anchor_bytes(s: Seq<char>) -> Seq<u8> {
    Seq::new(
        32,
        |i: int|
            if is_hex(s) && i < hex_bytes(s).len() {
                hex_bytes(s)[i]
            } else {
                0u8
            },
    )
}

fn read_anchor_hash(s: &str) -> (r: Hash32)
    ensures
        r == anchor_hash(s@),
{
    let mut h: Hash32 = [0u8; 32];
    if let Some(bytes) = decode_hex(s) {
        let mut i: usize = 0;
        while i < 32 && i < bytes.len()
            invariant
                i <= 32,
                i <= bytes@.len(),
                forall|j: int| 0 <= j < i ==> h@[j] == bytes@[j],
                forall|j: int| i <= j < 32 ==> h@[j] == 0,
            decreases 32 - i,
        {
            h[i] = bytes[i];
            i += 1;
        }
    }
    proof {
        assert(h@ =~= anchor_bytes(s@));
        let k = anchor_hash(s@);
        assert(k@ == anchor_bytes(s@));
        assert(h =~= k);
    }
    h
}

/// The first constitution.
pub open spec fn constitution_of(c: GenesisConstitution) -> Constitution {
    Constitution {
        anchor: match c.anchor {
            Some(a) => Some(Anchor { url: a.url, hash: anchor_hash(a.data_hash@) }),
            None => None,
        },
        script_hash: match c.script {
            Some(s) => hex_key(s@),
            None => None,
        },
    }
}

fn read_constitution(c: &GenesisConstitution) -> (r: Constitution)
    ensures
        r == constitution_of(*c),
{
    Constitution {
        anchor: match &c.anchor {
            Some(a) => Some(Anchor { url: a.url.clone(), hash: read_anchor_hash(a.data_hash.as_str()) }),
            None => None,
        },
        script_hash: match &c.script {
            Some(s) => read_hex_key(s.as_str()),
            None => None,
        },
    }
}

/// The Conway parameters: the current ones with those of the genesis, at
/// protocol version 9.
pub open spec fn conway_params(p: ProtocolParameters, g: ConwayGenesis) -> ProtocolParameters {
    let q = ProtocolParameters {
        protocol_version_major: 9,
        protocol_version_minor: 0,
        committee_max_term_length: or_keep(g.committee_max_term_length, p.committee_max_term_length),
        gov_action_lifetime: or_keep(g.gov_action_lifetime, p.gov_action_lifetime),
        gov_action_deposit: or_keep(g.gov_action_deposit, p.gov_action_deposit),
        drep_deposit: or_keep(g.d_rep_deposit, p.drep_deposit),
        drep_activity_period: or_keep(g.d_rep_activity, p.drep_activity_period),
        committee_min_size: or_keep(g.committee_min_size, p.committee_min_size),
        ..p
    };
    let r = match g.pool_voting_thresholds {
        Some(t) => ProtocolParameters {
            pvt_motion_no_confidence: t.motion_no_confidence,
            pvt_committee_normal: t.committee_normal,
            pvt_committee_no_confidence: t.committee_no_confidence,
            pvt_hard_fork: t.hard_fork_initiation,
            pvt_pp_security_group: t.pp_security_group,
            ..q
        },
        None => q,
    };
    match g.d_rep_voting_thresholds {
        Some(t) => ProtocolParameters {
            dvt_motion_no_confidence: t.motion_no_confidence,
            dvt_committee_normal: t.committee_normal,
            dvt_committee_no_confidence: t.committee_no_confidence,
            dvt_constitution: t.update_to_constitution,
            dvt_hard_fork: t.hard_fork_initiation,
            dvt_pp_network_group: t.pp_network_group,
            dvt_pp_economic_group: t.pp_economic_group,
            dvt_pp_technical_group: t.pp_technical_group,
            dvt_pp_gov_group: t.pp_gov_group,
            dvt_treasury_withdrawal: t.treasury_withdrawal,
            ..r
        },
        None => r,
    }
}

fn build_conway_params(p: &ProtocolParameters, g: &ConwayGenesis) -> (r: ProtocolParameters)
    ensures
        r == conway_params(*p, *g),
{
    let q = ProtocolParameters {
        protocol_version_major: 9,
        protocol_version_minor: 0,
        committee_max_term_length: keep_or(g.committee_max_term_length, p.committee_max_term_length),
        gov_action_lifetime: keep_or(g.gov_action_lifetime, p.gov_action_lifetime),
        gov_action_deposit: keep_or(g.gov_action_deposit, p.gov_action_deposit),
        drep_deposit: keep_or(g.d_rep_deposit, p.drep_deposit),
        drep_activity_period: keep_or(g.d_rep_activity, p.drep_activity_period),
        committee_min_size: keep_or(g.committee_min_size, p.committee_min_size),
        ..*p
    };
    let r = match g.pool_voting_thresholds {
        Some(t) => ProtocolParameters {
            pvt_motion_no_confidence: t.motion_no_confidence,
            pvt_committee_normal: t.committee_normal,
            pvt_committee_no_confidence: t.committee_no_confidence,
            pvt_hard_fork: t.hard_fork_initiation,
            pvt_pp_security_group: t.pp_security_group,
            ..q
        },
        None => q,
    };
    match g.d_rep_voting_thresholds {
        Some(t) => ProtocolParameters {
            dvt_motion_no_confidence: t.motion_no_confidence,
            dvt_committee_normal: t.committee_normal,
            dvt_committee_no_confidence: t.committee_no_confidence,
            dvt_constitution: t.update_to_constitution,
            dvt_hard_fork: t.hard_fork_initiation,
            dvt_pp_network_group: t.pp_network_group,
            dvt_pp_economic_group: t.pp_economic_group,
            dvt_pp_technical_group: t.pp_technical_group,
            dvt_pp_gov_group: t.pp_gov_group,
            dvt_treasury_withdrawal: t.treasury_withdrawal,
            ..r
        },
        None => r,
    }
}

/// The first committee takes office, member by member in ascending order of
/// their names.
pub open spec fn committee_set(g: GovernanceModel, c: Committee) -> GovernanceModel {
    GovernanceModel {
        committee_expiration: terms_set(Map::empty(), listing::<String, u64>(c.members@)),
        script_committee_credentials: scripts_set(
            g.script_committee_credentials,
            listing::<String, u64>(c.members@),
        ),
        committee_threshold: match c.threshold {
            Some(t) => Some(Rational { numerator: t.numerator, denominator: t.denominator }),
            None => g.committee_threshold,
        },
        ..g
    }
}

/// The ledger after the Conway era began; it begins once.
pub open spec fn conway_started(s: LedgerModel, genesis: ConwayGenesis, new_epoch: EpochNo) -> LedgerModel {
    if s.conway_genesis_epoch is Some {
        s
    } else {
        let g = GovernanceModel { conway_cur_params: Some(conway_params(s.protocol_params, genesis)), ..s.governance };
        let h = match genesis.committee {
            Some(c) => committee_set(g, c),
            None => g,
        };
        LedgerModel {
            governance: GovernanceModel {
                constitution: match genesis.constitution {
                    Some(c) => Some(constitution_of(c)),
                    None => h.constitution,
                },
                ..h
            },
            conway_genesis_epoch: Some(new_epoch.0),
            ..s
        }
    }
}

impl LedgerState {
    /// The key of a credential such as `keyHash-aabb..` or `scriptHash-aabb..`.
    pub fn parse_credential_key(cred_str: &str) -> (r: Option<Hash32>)
        ensures
            r == credential_key(cred_str@),
    {
        let n: usize = cred_str.unicode_len();
        proof {
            reveal_strlit("keyHash-");
            reveal_strlit("scriptHash-");
        }
        if starts_with(cred_str, "keyHash-") {
            assert(cred_str@.skip(8) =~= cred_str@.subrange(8, n as int));
            read_hex_key(cred_str.substring_char(8, n))
        } else if starts_with(cred_str, "scriptHash-") {
            assert(cred_str@.skip(11) =~= cred_str@.subrange(11, n as int));
            read_hex_key(cred_str.substring_char(11, n))
        } else {
            None
        }
    }

    fn set_committee(&mut self, committee: &Committee)
        ensures
            final(self)@ == (LedgerModel {
                governance: committee_set(old(self)@.governance, *committee),
                ..old(self)@
            }),
    {
        let ghost s = self@;
        let ghost g = s.governance;
        let ghost l = committee.members.entries();
        let n: usize = committee.members.len();
        proof {
            committee.members.lemma_entries();
        }
        self.governance.committee_expiration.clear();
        let mut i: usize = 0;
        while i < n
            invariant
                i <= n,
                n == l.len(),
                l == committee.members.entries(),
                self@ == (LedgerModel {
                    governance: GovernanceModel {
                        committee_expiration: terms_set(Map::empty(), l.take(i as int)),
                        script_committee_credentials: scripts_set(g.script_committee_credentials, l.take(i as int)),
                        ..g
                    },
                    ..s
                }),
            decreases n - i,
        {
            assert(l.take(i + 1).drop_last() =~= l.take(i as int));
            assert(l.take(i + 1).last() == l[i as int]);
            let name = committee.members.key_at(i).as_str();
            if let Some(hash) = Self::parse_credential_key(name) {
                if starts_with(name, "scriptHash-") {
                    self.governance.script_committee_credentials.insert(hash);
                }
                self.governance.committee_expiration.insert(hash, EpochNo(*committee.members.value_at(i)));
            }
            i += 1;
        }
        assert(l.take(i as int) =~= l);
        if let Some(t) = &committee.threshold {
            self.governance.committee_threshold = Some(
                Rational { numerator: t.numerator, denominator: t.denominator },
            );
        }
        assert(self@.governance =~= committee_set(g, *committee));
    }

    /// Starts the Conway era: sets its parameters, the first committee and the
    /// first constitution. Called again, it changes nothing.
    pub fn apply_conway_genesis(&mut self, genesis: &ConwayGenesis, new_epoch: EpochNo)
        ensures
            final(self)@ == conway_started(old(self)@, *genesis, new_epoch),
    {
        let ghost s = self@;
        if self.conway_genesis_epoch.is_some() {
            return;
        }
        self.governance.conway_cur_params = Some(build_conway_params(&self.protocol_params, genesis));
        if let Some(c) = &genesis.committee {
            self.set_committee(c);
        }
        if let Some(c) = &genesis.constitution {
            self.governance.constitution = Some(read_constitution(c));
        }
        self.conway_genesis_epoch = Some(new_epoch.0);
        assert(self@ =~= conway_started(s, *genesis, new_epoch));
    }
}

// ---- laws ----

/// The Conway era begins once: its genesis changes nothing the second time.
pub proof fn law_conway_starts_once(s: LedgerModel, g: ConwayGenesis, e: EpochNo, h: ConwayGenesis, f: EpochNo)
    ensures
        conway_started(conway_started(s, g, e), h, f) == conway_started(s, g, e),
{
}

/// The parameters in force stay as they are when the Conway era begins.
pub proof fn law_conway_params_wait(s: LedgerModel, g: ConwayGenesis, e: EpochNo)
    ensures
        conway_started(s, g, e).protocol_params == s.protocol_params,
{
}

} // verus!
