//! What blocks and their transactions do, part by part.

use vstd::prelude::*;
use crate::genesis::ConwayGenesis;
use crate::item::Item;
use crate::ledger::certificates::{after_withdrawal, conway_only};
use crate::ledger::conway::conway_started;
use crate::ledger::governance::{prev_ok, proposed, voted};
use crate::ledger::primitives::{
    padded, padded_key, Certificate, ChainPointer, Credential, EpochNo, GovActionId, Hash28, Hash32, Lovelace, ProcedureModel,
    ProtocolParamUpdate, Vote, Voter, VotingProcedure,
};
use crate::ledger::rebuild::{amounts_total, listed_stake};
use crate::ledger::registry::{agree, records};
use crate::ledger::state::{deposits_of, epoch_at, hard_fork_recorded, shelley_plus, LedgerModel};
use crate::node::block::{
    account_credential, all_removed, amount_set, amounts_of, asset_views, block_counted, body_applied, certs_applied,
    datum_hash, fee_of, fitted, fitted_key, found, proposal_submitted, proposals_set, proposals_submitted, raw_assets,
    stored_as, tx_applied, update_proposed, value_of, votes_cast, withdrawn, DatumData, OutputData, ProposalData, TxData,
    UpdateData,
};
use crate::node::certs::{node_certified, pointer_noted};
use crate::node::header::{
    block_model, content_digest, key_digest, nonce_rolled, pool_id, slot_in_epoch, slot_of, BlockModel, BlockPlace, FactsModel,
};
use crate::node::registry::law_choices_kept;
use crate::node::storage::{
    by_pointer, entry_views, epoch_slots, output_added, output_removed, pointers_purged, stake_in, staked_in, stakes_in,
    EntryModel, Network, TrackerModel, UtxoEntry,
};
use crate::node::sync::{
    announced, boundary_prepared, hash_noted, header_applied, header_noted, ledger_after, step_of, Step, SyncModel,
};
use crate::table::listing;

verus! {

// ---- outputs ----

/// An output is stored with its address, its amount, its assets and its datum.
pub proof fn law_output_stored(o: OutputData, delegation: Option<Seq<u8>>, e: UtxoEntry)
    requires
        stored_as(o, delegation, e),
    ensures
        e@.address == o.address@,
        e@.amount == o.amount,
        e@.stake_credential == delegation,
        asset_views(e.assets@) == amounts_of(raw_assets(o.assets@)),
        o.datum is Absent ==> e@.datum_hash is None && e@.datum is None,
        o.datum matches DatumData::Hash(h) ==> e@.datum_hash == Some(h@) && e@.datum is None,
        o.datum matches DatumData::Inline(b) ==> e@.datum == Some(b@) && e@.datum_hash == Some(content_digest(b@)),
        e@.script_ref is None,
{
}

/// Setting the amount of an asset gives it that amount, and leaves those of
/// others.
pub proof fn law_asset_set(l: Seq<(Seq<char>, u64)>, key: Seq<char>, amount: u64, other: Seq<char>, x: u64)
    requires
        other != key,
    ensures
        ({
            let m = amount_set(l, key, amount);
            &&& m.contains((key, amount))
            &&& m.contains((other, x)) == l.contains((other, x))
        }),
    decreases l.len(),
{
    let m = amount_set(l, key, amount);
    if l.len() == 0 {
        assert(m[0] == (key, amount));
        assert forall|i: int| 0 <= i < m.len() implies m[i] != (other, x) by {}
    } else if l[0].0 == key {
        assert(m[0] == (key, amount));
        if l.contains((other, x)) {
            let i = l.index_of((other, x));
            assert(l[i] == (other, x));
            assert(m[i] == l.skip(1)[i - 1]);
            assert(m[i] == l[i]);
        }
        if m.contains((other, x)) {
            let i = m.index_of((other, x));
            assert(m[i] == (other, x));
            assert(m[i] == l.skip(1)[i - 1]);
            assert(l[i] == m[i]);
        }
    } else {
        let t = l.skip(1);
        law_asset_set(t, key, amount, other, x);
        let n = amount_set(t, key, amount);
        assert(m == seq![l[0]] + n);
        let i = n.index_of((key, amount));
        assert(m[i + 1] == (key, amount));
        if l.contains((other, x)) {
            let i = l.index_of((other, x));
            if i == 0 {
                assert(m[0] == (other, x));
            } else {
                assert(t[i - 1] == (other, x));
                let j = n.index_of((other, x));
                assert(m[j + 1] == (other, x));
            }
        }
        if m.contains((other, x)) {
            let i = m.index_of((other, x));
            if i == 0 {
                assert(l[0] == (other, x));
            } else {
                assert(n[i - 1] == (other, x));
                let j = t.index_of((other, x));
                assert(l[j + 1] == (other, x));
            }
        }
    }
}

/// The amounts of an output are set one after the other under the names of
/// their assets: policy and name in hexadecimal, with a point between them.
pub proof fn law_assets_named(l: Seq<(Seq<u8>, Seq<u8>, u64)>, x: (Seq<u8>, Seq<u8>, u64))
    ensures
        amounts_of(Seq::empty()).len() == 0,
        amounts_of(l.push(x)) == amount_set(
            amounts_of(l),
            crate::hexa::hex_chars(x.0) + "."@ + crate::hexa::hex_chars(x.1),
            x.2,
        ),
{
    assert(l.push(x).drop_last() =~= l);
}

/// Outputs that are spent are taken from the stake one after the other, and
/// their amounts add up; those that the store did not have count for nothing.
pub proof fn law_spending(t: TrackerModel, l: Seq<Option<UtxoEntry>>, x: Option<UtxoEntry>)
    ensures
        found(Seq::empty()).len() == 0,
        value_of(Seq::empty()) == 0,
        all_removed(t, Seq::empty()) == t,
        x is None ==> found(l.push(x)) == found(l),
        x matches Some(e) ==> found(l.push(x)) == found(l).push(e@) && value_of(found(l.push(x))) == value_of(found(l))
            + e.amount && all_removed(t, found(l.push(x))) == output_removed(all_removed(t, found(l)), e@),
{
    assert(l.push(x).drop_last() =~= l);
    if let Some(e) = x {
        assert(found(l).push(e@).drop_last() =~= found(l));
    }
}

// ---- stake of outputs ----

/// Pointer addresses are those of types four and five.
pub proof fn law_pointer_addresses(address: Seq<u8>)
    ensures
        address.len() == 0 ==> !by_pointer(address),
        address.len() > 0 ==> by_pointer(address) == (0x40 <= address[0] <= 0x5f),
{
}

/// An output that is stored adds its amount to its credential, unless it
/// delegates by pointer and pointers are ignored; other credentials stay.
pub proof fn law_output_counts(t: TrackerModel, e: EntryModel)
    ensures
        ({
            let u = output_added(t, e);
            let ignored = e.stake_credential is None || (t.skip_pointers && by_pointer(e.address));
            &&& ignored ==> u == t
            &&& !ignored ==> ({
                let c = e.stake_credential->0;
                let before = if t.stake.dom().contains(c) { t.stake[c] } else { 0 };
                before + e.amount <= u64::MAX ==> records(t.stake, u.stake, c, (before + e.amount) as u64)
            })
            &&& u.skip_pointers == t.skip_pointers
        }),
{
}

/// An output that is spent takes its amount from its credential, which is
/// forgotten where nothing is left; other credentials stay.
pub proof fn law_output_leaves(t: TrackerModel, e: EntryModel, other: Seq<u8>)
    ensures
        ({
            let u = output_removed(t, e);
            let ignored = e.stake_credential is None || (t.skip_pointers && by_pointer(e.address));
            &&& ignored ==> u == t
            &&& !ignored ==> ({
                let c = e.stake_credential->0;
                &&& t.stake.dom().contains(c) && t.stake[c] > e.amount ==> u.stake.dom().contains(c) && u.stake[c]
                    == t.stake[c] - e.amount
                &&& !t.stake.dom().contains(c) || t.stake[c] <= e.amount ==> !u.stake.dom().contains(c)
                &&& other != c ==> agree(t.stake, u.stake, other)
            })
            &&& u.skip_pointers == t.skip_pointers
        }),
{
}

/// When pointers end, each output that delegates by one takes its amount from
/// its credential; the others stay.
pub proof fn law_pointers_purged(m: Map<Seq<u8>, u64>, l: Seq<EntryModel>, e: EntryModel)
    ensures
        pointers_purged(m, Seq::empty()) == m,
        e.stake_credential is None || !by_pointer(e.address) ==> pointers_purged(m, l.push(e)) == pointers_purged(m, l),
        e.stake_credential is Some && by_pointer(e.address) ==> pointers_purged(m, l.push(e)) == output_removed(
            TrackerModel { stake: pointers_purged(m, l), skip_pointers: false },
            e,
        ).stake,
{
    assert(l.push(e).drop_last() =~= l);
}

/// The stake of a credential in outputs is what those with it hold together.
pub proof fn law_stake_in_outputs(l: Seq<EntryModel>, e: EntryModel, c: Seq<u8>)
    ensures
        stake_in(Seq::empty(), c) == 0,
        stake_in(l.push(e), c) == stake_in(l, c) + if e.stake_credential == Some(c) { e.amount as nat } else { 0 },
        !stakes_in(Seq::empty()).dom().contains(c),
        stakes_in(l.push(e)).dom().contains(c) == (stakes_in(l).dom().contains(c) || e.stake_credential == Some(c)),
        stakes_in(l).dom().contains(c) && stake_in(l, c) <= u64::MAX ==> stakes_in(l)[c] == stake_in(l, c),
{
    let m = l.push(e);
    assert(m.drop_last() =~= l);
    if staked_in(l, c) {
        let i = choose|i: int| #![trigger l[i]] 0 <= i < l.len() && l[i].stake_credential == Some(c);
        assert(m[i] == l[i]);
    }
    if staked_in(m, c) {
        let i = choose|i: int| #![trigger m[i]] 0 <= i < m.len() && m[i].stake_credential == Some(c);
        if i < l.len() {
            assert(l[i] == m[i]);
        }
    }
    assert(m[l.len() as int] == e);
}

/// The epochs of the networks.
pub proof fn law_epoch_lengths(n: Network)
    ensures
        n is Mainnet || n is Preprod || n is Custom ==> epoch_slots(n) == 5 * 86_400,
        n is Preview || n is SanchoNet ==> epoch_slots(n) == 86_400,
{
}

// ---- headers ----

/// Byron epochs have 21600 slots and later ones 432000; the slots of an epoch
/// follow on its first one.
pub proof fn law_chain_slots(epoch: int, slot: int)
    requires
        epoch >= 0,
    ensures
        slot_in_epoch(0, 0) == 0,
        slot_in_epoch(epoch, slot) == slot_in_epoch(epoch, 0) + slot,
        epoch < 208 ==> slot_in_epoch(epoch + 1, 0) == slot_in_epoch(epoch, 0) + 21_600,
        epoch >= 208 ==> slot_in_epoch(epoch + 1, 0) == slot_in_epoch(epoch, 0) + 432_000,
{
}

/// A block stands at the slot of its header, and is Byron, a boundary or later
/// by its place; all else is as it says of itself.
pub proof fn law_block_read(p: BlockPlace, f: FactsModel)
    requires
        0 <= slot_of(p) <= u64::MAX,
    ensures
        ({
            let b = block_model(p, f);
            &&& p matches BlockPlace::Slot(s) ==> b.slot == s && !b.is_byron && !b.is_ebb
            &&& p matches BlockPlace::Byron(e, s) ==> b.slot == slot_in_epoch(e as int, s as int) && b.is_byron
                && !b.is_ebb
            &&& p matches BlockPlace::Boundary(e) ==> b.slot == slot_in_epoch(e as int, 0) && b.is_ebb && !b.is_byron
            &&& b.hash == f.hash
            &&& b.tx_count == f.tx_count
            &&& b.vrf_output == f.vrf_output
            &&& b.is_praos == f.is_praos
            &&& b.is_conway == f.is_conway
            &&& b.byron_update == f.byron_update
            &&& b.issuer_vkey == f.issuer_vkey
        }),
{
}

/// The pool of a block is the digest of its issuer's key of 32 bytes.
pub proof fn law_pool_of_block(k: Seq<u8>, p: Hash28)
    requires
        p@ == key_digest(k),
    ensures
        pool_id(None) is None,
        k.len() != 32 ==> pool_id(Some(k)) is None,
        k.len() == 32 ==> pool_id(Some(k)) == Some(p),
{
    if k.len() == 32 {
        let q = choose|q: Hash28| q@ == key_digest(k);
        assert(q@ == key_digest(k));
        assert(q =~= p);
    }
}

/// The rolling nonce takes the digest of the first 32 bytes of a VRF output
/// behind itself; a block without one, or with a shorter one, leaves it.
pub proof fn law_nonce_rolls(nonce: Option<Seq<u8>>, v: Seq<u8>)
    ensures
        nonce_rolled(nonce, None) == nonce,
        v.len() < 32 ==> nonce_rolled(nonce, Some(v)) == nonce,
        v.len() >= 32 && nonce is Some ==> nonce_rolled(nonce, Some(v)) == Some(
            content_digest(nonce->0 + content_digest(v.take(32))),
        ),
        v.len() >= 32 && nonce is None ==> nonce_rolled(nonce, Some(v)) == Some(
            content_digest(Seq::new(32, |i: int| 0u8) + content_digest(v.take(32))),
        ),
{
}

// ---- along the chain ----

/// A header that proposes version 2.0.0 announces the Shelley era for the
/// epoch after the current one; a Conway header starts the Conway era, in the
/// epoch of its slot, where there is a genesis for it. Nothing else changes the
/// ledger.
pub proof fn law_header(s: LedgerModel, b: BlockModel, current: u64, conway: Option<ConwayGenesis>)
    ensures
        ({
            let major = b.byron_update matches Some(v) && v.0 == 2 && v.1 == 0 && v.2 == 0;
            let t = if major { hard_fork_recorded(s, current) } else { s };
            &&& announced(s, b, current) == t
            &&& !b.is_conway || conway is None ==> header_applied(s, b, current, conway) == t
            &&& b.is_conway ==> (conway matches Some(g) ==> header_applied(s, b, current, conway) == conway_started(
                t,
                g,
                EpochNo(epoch_at(t, b.slot)),
            ))
        }),
{
}

/// A block of a later epoch asks for a transition where that epoch is Shelley
/// or later, and for none in the Byron era; the reserves are counted anew where
/// the epoch before was Byron.
pub proof fn law_step(s: LedgerModel, slot: u64, current: u64)
    ensures
        ({
            let e = epoch_at(s, slot);
            let step = step_of(s, slot, current);
            &&& e <= current ==> step is Same
            &&& e > current && !shelley_plus(s, e) ==> step == (Step::ByronEpoch { epoch: e })
            &&& e > current && shelley_plus(s, e) && shelley_plus(s, current) ==> step == (Step::Boundary {
                epoch: e,
                from_byron: false,
            })
            &&& e > current && shelley_plus(s, e) && !shelley_plus(s, current) ==> step == (Step::Boundary {
                epoch: e,
                from_byron: true,
            })
            &&& step is ByronEpoch ==> ledger_after(s, step).epoch.0 == e
            &&& !(step is ByronEpoch) ==> ledger_after(s, step) == s
            &&& ledger_after(s, step) == (LedgerModel { epoch: ledger_after(s, step).epoch, ..s })
        }),
{
}

/// A header goes into the rolling nonce, and a version that it proposes is
/// noted behind the others.
pub proof fn law_header_noted(y: SyncModel, b: BlockModel)
    ensures
        ({
            let z = header_noted(y, b);
            &&& z.rolling_nonce == nonce_rolled(y.rolling_nonce, b.vrf_output)
            &&& b.byron_update is None ==> z.epoch_update_proposals == y.epoch_update_proposals
            &&& b.byron_update matches Some(v) ==> z.epoch_update_proposals == y.epoch_update_proposals.push(v)
            &&& z == (SyncModel {
                rolling_nonce: z.rolling_nonce,
                epoch_update_proposals: z.epoch_update_proposals,
                ..y
            })
        }),
{
}

/// Before a boundary the stake of credentials is what the tracker lists, with
/// nothing for those that only delegate or have an account. Where outputs are
/// given, the reserves are the supply without them.
pub proof fn law_boundary_prepared(
    s: LedgerModel,
    stake: Map<Seq<u8>, u64>,
    outputs: Option<Seq<UtxoEntry>>,
    c: Hash32,
)
    ensures
        ({
            let t = boundary_prepared(s, stake, outputs);
            let m = listed_stake(listing::<Vec<u8>, u64>(stake));
            &&& m.dom().contains(c) ==> t.stake_map.dom().contains(c) && t.stake_map[c] == m[c]
            &&& !m.dom().contains(c) && (s.delegations.dom().contains(c) || s.reward_accounts.dom().contains(c))
                ==> t.stake_map.dom().contains(c) && t.stake_map[c].0 == 0
            &&& !m.dom().contains(c) && !s.delegations.dom().contains(c) && !s.reward_accounts.dom().contains(c)
                ==> !t.stake_map.dom().contains(c)
            &&& outputs is None ==> t.reserves == s.reserves
            &&& outputs matches Some(l) ==> ({
                let total = amounts_total(entry_views(l));
                total <= 45_000_000_000_000_000 ==> t.reserves.0 == 45_000_000_000_000_000 - total
            })
            &&& t == (LedgerModel { stake_map: t.stake_map, reserves: t.reserves, ..s })
        }),
{
}

/// The amounts of outputs add up.
pub proof fn law_amounts_total(l: Seq<EntryModel>, e: EntryModel)
    ensures
        amounts_total(Seq::empty()) == 0,
        amounts_total(l.push(e)) == amounts_total(l) + e.amount,
{
    assert(l.push(e).drop_last() =~= l);
}

/// The hash of the last block is kept, its first 32 bytes.
pub proof fn law_hash_noted(before: Seq<u8>, hash: Seq<u8>)
    requires
        hash.len() >= 32,
    ensures
        hash_noted(before, hash) == hash.take(32),
{
    assert(hash_noted(before, hash) =~= hash.take(32));
}

// ---- blocks ----

/// A block is counted once for its epoch, and once for the pool that made it,
/// unless it is Byron or names none.
pub proof fn law_block_counted(s: LedgerModel, b: BlockModel)
    requires
        s.epoch_block_count < u64::MAX,
        forall|p: Hash28| #[trigger]
            s.epoch_blocks_by_pool.dom().contains(p) ==> s.epoch_blocks_by_pool[p] < u64::MAX,
    ensures
        ({
            let t = block_counted(s, b);
            let (x, y) = (s.epoch_blocks_by_pool, t.epoch_blocks_by_pool);
            &&& t.epoch_block_count == s.epoch_block_count + 1
            &&& b.is_byron || pool_id(b.issuer_vkey) is None ==> y == x
            &&& !b.is_byron ==> (pool_id(b.issuer_vkey) matches Some(p) ==> records(
                x,
                y,
                p,
                (if x.dom().contains(p) {
                    x[p] + 1
                } else {
                    1
                }) as u64,
            ))
            &&& t == (LedgerModel {
                epoch_block_count: t.epoch_block_count,
                epoch_blocks_by_pool: y,
                ..s
            })
        }),
{
}

// ---- transactions ----

/// Certificates take effect one after the other, each with its own place on
/// the chain; those that came with Conway do nothing in earlier blocks but
/// leave their place.
pub proof fn law_certificates_in_turn(
    s: LedgerModel,
    l: Seq<Certificate>,
    cert: Certificate,
    conway: bool,
    slot: u64,
    tx: u32,
)
    requires
        l.len() <= u32::MAX,
    ensures
        ({
            let before = certs_applied(s, l, conway, slot, tx);
            let after = certs_applied(s, l.push(cert), conway, slot, tx);
            let at = ChainPointer { slot, tx_index: tx, cert_index: l.len() as u32 };
            &&& certs_applied(s, Seq::empty(), conway, slot, tx) == s
            &&& conway || !conway_only(cert) ==> after == pointer_noted(node_certified(before, cert), at, cert)
            &&& !conway && conway_only(cert) ==> after == pointer_noted(before, at, cert)
        }),
{
    assert(l.push(cert).drop_last() =~= l);
}

/// The certificates that came with Conway.
pub proof fn law_conway_kinds(cert: Certificate)
    ensures
        conway_only(cert) == !(cert is StakeRegistration || cert is StakeDeregistration || cert is StakeDelegation
            || cert is PoolRegistration || cert is PoolRetirement || cert is GenesisKeyDelegation
            || cert is MoveInstantaneousRewardsCert),
{
}

/// A proposed update is kept for its epoch under each delegate that proposes
/// it; the last one of a delegate counts.
pub proof fn law_update_kept(
    m: Map<Hash32, ProtocolParamUpdate>,
    l: Seq<(Vec<u8>, ProtocolParamUpdate)>,
    x: (Vec<u8>, ProtocolParamUpdate),
)
    ensures
        proposals_set(m, Seq::empty()) == m,
        records(proposals_set(m, l), proposals_set(m, l.push(x)), fitted_key(x.0@), x.1),
{
    assert(l.push(x).drop_last() =~= l);
}

/// The delegate of a proposal: the first 32 bytes, with zeros where there are
/// fewer.
pub proof fn law_delegate_key(b: Seq<u8>, k: Hash32)
    requires
        forall|i: int| 0 <= i < 32 ==> #[trigger] k@[i] == (if i < b.len() {
            b[i]
        } else {
            0u8
        }),
    ensures
        fitted_key(b) == k,
{
    assert(k@ =~= fitted(b));
    let h = fitted_key(b);
    assert(h@ == fitted(b));
    assert(h =~= k);
}

/// Updates are kept with those that were proposed for the same epoch before;
/// other epochs, and all else, stay.
pub proof fn law_update_proposed(s: LedgerModel, u: UpdateData)
    ensures
        ({
            let t = update_proposed(s, u);
            let e = EpochNo(u.epoch);
            let before = if s.pending_pp_updates.dom().contains(e) {
                s.pending_pp_updates[e]
            } else {
                Map::empty()
            };
            &&& u.proposals@.len() == 0 ==> t == s
            &&& u.proposals@.len() > 0 ==> records(
                s.pending_pp_updates,
                t.pending_pp_updates,
                e,
                proposals_set(before, u.proposals@),
            )
            &&& t == (LedgerModel { pending_pp_updates: t.pending_pp_updates, ..s })
        }),
{
}

/// The credential of a reward account: 28 bytes behind the header, whose bit
/// four tells a script from a key.
pub proof fn law_account_credential(b: Seq<u8>, k: Hash32)
    requires
        b.len() >= 29,
        k@ == b.subrange(1, 29) + Seq::new(4, |i: int| 0u8),
    ensures
        account_credential(b.take(28)) is None,
        (b[0] / 16) % 2 == 1 ==> account_credential(b) == Some(Credential::Script(k)),
        (b[0] / 16) % 2 == 0 ==> account_credential(b) == Some(Credential::Key(k)),
{
    let h = padded_key(b.subrange(1, 29));
    assert(k@ =~= padded(b.subrange(1, 29)));
    assert(h@ == k@);
    assert(h =~= k);
}

/// A proposal is taken in under the hash of its transaction and its index,
/// where it follows on what was enacted. Its deposit is on record either way,
/// unless it has no proper return account.
pub proof fn law_proposal_submitted(s: LedgerModel, tx: [u8; 32], index: u32, p: ProposalData, other: Hash32)
    ensures
        ({
            let t = proposal_submitted(s, tx, index, p);
            let id = GovActionId { tx_hash: tx, index };
            let a = p.action.model();
            let back = account_credential(p.reward_account@);
            &&& back is None ==> t == s
            &&& back matches Some(c) ==> {
                let (x, y) = (deposits_of(s.deposits, c.hash()), deposits_of(t.deposits, c.hash()));
                &&& y.governance == x.governance.push((id, Lovelace(p.deposit)))
                &&& y.stake == x.stake && y.pool == x.pool && y.drep == x.drep
                &&& other != c.hash() ==> deposits_of(t.deposits, other) == deposits_of(s.deposits, other)
                &&& !prev_ok(a, s.governance) ==> t.governance == s.governance
                &&& prev_ok(a, s.governance) ==> t.governance == proposed(
                    s,
                    id,
                    ProcedureModel { deposit: Lovelace(p.deposit), return_addr: c, gov_action: a, anchor: None },
                ).governance
            }
            &&& t == (LedgerModel { deposits: t.deposits, governance: t.governance, ..s })
        }),
{
}

/// Proposals, votes and withdrawals of a transaction follow on each other.
pub proof fn law_parts_in_turn(
    s: LedgerModel,
    tx: [u8; 32],
    p: Seq<ProposalData>,
    x: ProposalData,
    v: Seq<(Voter, GovActionId, Vote)>,
    y: (Voter, GovActionId, Vote),
    w: Seq<Vec<u8>>,
    z: Vec<u8>,
)
    requires
        p.len() <= u32::MAX,
    ensures
        proposals_submitted(s, tx, Seq::empty()) == s,
        proposals_submitted(s, tx, p.push(x)) == proposal_submitted(
            proposals_submitted(s, tx, p),
            tx,
            p.len() as u32,
            x,
        ),
        votes_cast(s, Seq::empty()) == s,
        votes_cast(s, v.push(y)) == voted(
            votes_cast(s, v),
            y.0,
            y.1,
            VotingProcedure { vote: y.2, anchor: None },
        ),
        withdrawn(s, Seq::empty()) == s,
        z@.len() < 29 ==> withdrawn(s, w.push(z)) == withdrawn(s, w),
        z@.len() >= 29 ==> withdrawn(s, w.push(z)) == after_withdrawal(
            withdrawn(s, w),
            padded_key(z@.subrange(1, 29)),
        ),
{
    assert(p.push(x).drop_last() =~= p);
    assert(v.push(y).drop_last() =~= v);
    assert(w.push(z).drop_last() =~= w);
}

/// A transaction pays its fee. One whose scripts failed pays its collateral:
/// what it names, or what its inputs are worth beyond what it gets back.
pub proof fn law_fee(tx: TxData, consumed: u64)
    ensures
        tx.valid ==> (tx.fee matches Some(f) ==> fee_of(tx, consumed) == f),
        tx.valid && tx.fee is None ==> fee_of(tx, consumed) == 0,
        !tx.valid ==> (tx.total_collateral matches Some(c) ==> fee_of(tx, consumed) == c),
        !tx.valid && tx.total_collateral is None && tx.collateral_return is None ==> fee_of(tx, consumed) == consumed,
        !tx.valid && tx.total_collateral is None ==> (tx.collateral_return matches Some(v) ==> (v <= consumed ==> fee_of(
            tx,
            consumed,
        ) == consumed - v)),
{
}

/// What no part of a transaction but its fee and its donation changes.
pub open spec fn pots_kept(s: LedgerModel, t: LedgerModel) -> bool {
    &&& t.treasury == s.treasury
    &&& t.reserves == s.reserves
    &&& t.epoch_fees == s.epoch_fees
    &&& t.protocol_params == s.protocol_params
    &&& t.snapshots == s.snapshots
    &&& t.epoch == s.epoch
    &&& t.stake_map == s.stake_map
    &&& t.pending_reward_update == s.pending_reward_update
    &&& t.epoch_blocks_by_pool == s.epoch_blocks_by_pool
}

proof fn lemma_certs_pots(s: LedgerModel, l: Seq<Certificate>, conway: bool, slot: u64, tx: u32)
    ensures
        pots_kept(s, certs_applied(s, l, conway, slot, tx)),
    decreases l.len(),
{
    if l.len() > 0 {
        let before = certs_applied(s, l.drop_last(), conway, slot, tx);
        lemma_certs_pots(s, l.drop_last(), conway, slot, tx);
        law_choices_kept(before, l.last(), crate::ledger::state::zero_hash());
    }
}

proof fn lemma_proposals_pots(s: LedgerModel, tx: [u8; 32], l: Seq<ProposalData>)
    ensures
        pots_kept(s, proposals_submitted(s, tx, l)),
    decreases l.len(),
{
    if l.len() > 0 {
        lemma_proposals_pots(s, tx, l.drop_last());
    }
}

proof fn lemma_votes_pots(s: LedgerModel, l: Seq<(Voter, GovActionId, Vote)>)
    ensures
        pots_kept(s, votes_cast(s, l)),
    decreases l.len(),
{
    if l.len() > 0 {
        lemma_votes_pots(s, l.drop_last());
    }
}

proof fn lemma_withdrawn_pots(s: LedgerModel, l: Seq<Vec<u8>>)
    ensures
        pots_kept(s, withdrawn(s, l)),
    decreases l.len(),
{
    if l.len() > 0 {
        lemma_withdrawn_pots(s, l.drop_last());
    }
}

/// A transaction adds what it pays to the fees of the epoch, and what it
/// donates, where its scripts succeeded, to the treasury. It changes neither
/// the reserves nor the parameters nor the snapshots.
pub proof fn law_transaction_pays(s: LedgerModel, tx: TxData, slot: u64, index: u32, consumed: u64)
    requires
        s.epoch_fees.0 + fee_of(tx, consumed) <= u64::MAX,
    ensures
        ({
            let t = tx_applied(s, tx, slot, index, consumed);
            &&& t.epoch_fees.0 == s.epoch_fees.0 + fee_of(tx, consumed)
            &&& !tx.valid || tx.donation is None ==> t.treasury == s.treasury
            &&& tx.valid ==> (tx.donation matches Some(d) ==> (s.treasury.0 + d <= u64::MAX ==> t.treasury.0
                == s.treasury.0 + d))
            &&& t.reserves == s.reserves
            &&& t.protocol_params == s.protocol_params
            &&& t.snapshots == s.snapshots
            &&& t.epoch == s.epoch
            &&& t.pending_reward_update == s.pending_reward_update
        }),
{
    if tx.valid {
        let a = certs_applied(s, tx.certs@, tx.conway, slot, index);
        lemma_certs_pots(s, tx.certs@, tx.conway, slot, index);
        let b = match tx.update {
            Some(u) => update_proposed(a, u),
            None => a,
        };
        let p = proposals_submitted(b, tx.hash, tx.proposals@);
        lemma_proposals_pots(b, tx.hash, tx.proposals@);
        let c = votes_cast(p, tx.votes@);
        lemma_votes_pots(p, tx.votes@);
        let d = match tx.donation {
            Some(x) => LedgerModel { treasury: Lovelace(crate::ledger::primitives::sat_add(c.treasury.0, x)), ..c },
            None => c,
        };
        lemma_withdrawn_pots(d, tx.withdrawals@);
        assert(body_applied(s, tx, slot, index) == withdrawn(d, tx.withdrawals@));
    }
}

/// The parts of a transaction whose scripts succeeded take effect in their
/// order: certificates, updates, proposals, votes, the donation and withdrawals.
pub proof fn law_transaction_parts(s: LedgerModel, tx: TxData, slot: u64, index: u32)
    requires
        tx.donation is None,
    ensures
        tx.update is None ==> body_applied(s, tx, slot, index) == withdrawn(
            votes_cast(
                proposals_submitted(certs_applied(s, tx.certs@, tx.conway, slot, index), tx.hash, tx.proposals@),
                tx.votes@,
            ),
            tx.withdrawals@,
        ),
        tx.update matches Some(u) ==> body_applied(s, tx, slot, index) == withdrawn(
            votes_cast(
                proposals_submitted(
                    update_proposed(certs_applied(s, tx.certs@, tx.conway, slot, index), u),
                    tx.hash,
                    tx.proposals@,
                ),
                tx.votes@,
            ),
            tx.withdrawals@,
        ),
{
}

} // verus!
