//! The bookkeeping around stored outputs and epoch snapshots.

use vstd::prelude::*;
use crate::item::Item;
use crate::table::Table;
use crate::text::{
    all_digits, chars_of, decimal, decimal_chars, has_prefix, has_suffix, is_digit, law_decimal_read_back,
    lemma_decimal_digits, lemma_zeros_before, number_of, parse_part, parsed,
};

verus! {

// ---- networks ----

/// A Cardano network.
#[derive(Debug, Clone)]
pub enum Network {
    Mainnet,
    Preprod,
    Preview,
    SanchoNet,
    Custom(String),
}

impl Network {
    pub open spec fn name(&self) -> Seq<char> {
        match self {
            Network::Mainnet => "mainnet"@,
            Network::Preprod => "preprod"@,
            Network::Preview => "preview"@,
            Network::SanchoNet => "sanchonet"@,
            Network::Custom(name) => name@,
        }
    }

    /// The name of the network.
    pub fn as_str(&self) -> (r: &str)
        ensures
            r@ == self.name(),
    {
        match self {
            Network::Mainnet => "mainnet",
            Network::Preprod => "preprod",
            Network::Preview => "preview",
            Network::SanchoNet => "sanchonet",
            Network::Custom(name) => name.as_str(),
        }
    }
}

/// Slots of an epoch.
pub open spec fn epoch_slots(network: Network) -> u64 {
    match network {
        Network::Mainnet => 432_000,
        Network::Preprod => 432_000,
        Network::Preview => 86_400,
        Network::SanchoNet => 86_400,
        Network::Custom(_) => 432_000,
    }
}

fn epoch_length(network: &Network) -> (r: u64)
    ensures
        r == epoch_slots(*network),
        r > 0,
{
    match network {
        Network::Mainnet => 432_000,
        Network::Preprod => 432_000,
        Network::Preview => 86_400,
        Network::SanchoNet => 86_400,
        Network::Custom(_) => 432_000,
    }
}

/// The epoch of a slot.
pub fn slot_to_epoch(slot: u64, network: &Network) -> (r: u64)
    ensures
        r == slot / epoch_slots(*network),
{
    slot / epoch_length(network)
}

/// Whether a slot is the last one of its epoch.
pub fn is_epoch_boundary(slot: u64, network: &Network) -> (r: bool)
    requires
        slot < u64::MAX,
    ensures
        r == ((slot + 1) % (epoch_slots(*network) as int) == 0),
{
    (slot + 1) % epoch_length(network) == 0
}

/// The first slot of an epoch.
pub fn epoch_to_slot(epoch: u64, network: &Network) -> (r: u64)
    requires
        epoch * epoch_slots(*network) <= u64::MAX,
    ensures
        r == epoch * epoch_slots(*network),
{
    epoch * epoch_length(network)
}

/// The first slot of an epoch belongs to it.
pub proof fn law_first_slot(epoch: u64, network: Network)
    requires
        epoch * epoch_slots(network) <= u64::MAX,
    ensures
        (epoch * epoch_slots(network)) / (epoch_slots(network) as int) == epoch,
{
    vstd::arithmetic::div_mod::lemma_div_multiples_vanish(epoch as int, epoch_slots(network) as int);
    assert(epoch as int * epoch_slots(network) as int == epoch_slots(network) as int * epoch as int) by (nonlinear_arith);
}

/// The slot behind a boundary is the first one of the next epoch, and no other
/// slot starts an epoch.
pub proof fn law_boundary_ends_epoch(slot: u64, network: Network)
    requires
        slot < u64::MAX,
    ensures
        ((slot + 1) % (epoch_slots(network) as int) == 0) == ((slot + 1) / (epoch_slots(network) as int) == slot as int
            / epoch_slots(network) as int + 1),
{
    let l = epoch_slots(network) as int;
    vstd::arithmetic::div_mod::lemma_fundamental_div_mod(slot as int, l);
    vstd::arithmetic::div_mod::lemma_fundamental_div_mod(slot + 1, l);
    let q = slot as int / l;
    let p = (slot + 1) / l;
    assert(l * (q + 1) == l * q + l) by (nonlinear_arith);
    if (slot + 1) % l == 0 {
        assert(p == q + 1) by (nonlinear_arith)
            requires
                l > 0,
                l * p == slot + 1,
                l * q <= slot < l * q + l,
        ;
    } else if p == q + 1 {
        assert(slot >= l * q + l);
        assert(false) by (nonlinear_arith)
            requires
                slot >= l * q + l,
                slot < l * q + l,
        ;
    }
}

// ---- outputs ----

/// A stored output.
#[derive(Debug, Clone)]
pub struct UtxoEntry {
    pub address: Vec<u8>,
    pub amount: u64,
    /// Native assets: policy and name with a point between them, and amount.
    pub assets: Vec<(String, u64)>,
    pub datum_hash: Option<Vec<u8>>,
    /// Inline datum.
    pub datum: Option<Vec<u8>>,
    pub script_ref: Option<Vec<u8>>,
    pub stake_credential: Option<Vec<u8>>,
}

/// What an output holds.
pub struct EntryModel {
    pub address: Seq<u8>,
    pub amount: u64,
    pub assets: Seq<(String, u64)>,
    pub datum_hash: Option<Seq<u8>>,
    pub datum: Option<Seq<u8>>,
    pub script_ref: Option<Seq<u8>>,
    pub stake_credential: Option<Seq<u8>>,
}

pub open spec fn bytes_view(b: Option<Vec<u8>>) -> Option<Seq<u8>> {
    match b {
        Some(v) => Some(v@),
        None => None,
    }
}

impl UtxoEntry {
    pub open spec fn view(&self) -> EntryModel {
        EntryModel {
            address: self.address@,
            amount: self.amount,
            assets: self.assets@,
            datum_hash: bytes_view(self.datum_hash),
            datum: bytes_view(self.datum),
            script_ref: bytes_view(self.script_ref),
            stake_credential: bytes_view(self.stake_credential),
        }
    }
}

pub open spec fn entry_views(l: Seq<UtxoEntry>) -> Seq<EntryModel> {
    Seq::new(l.len(), |i: int| l[i]@)
}

/// The key of an output: the transaction hash, cut or filled up with zeros to
/// 32 bytes, and the index, the most significant byte first.
pub open spec fn output_key(tx_hash: Seq<u8>, index: u32) -> Seq<u8> {
    Seq::new(
        36,
        |i: int|
            if i < 32 {
                if i < tx_hash.len() {
                    tx_hash[i]
                } else {
                    0u8
                }
            } else if i == 32 {
                (index / 0x100_0000) as u8
            } else if i == 33 {
                (index / 0x1_0000 % 0x100) as u8
            } else if i == 34 {
                (index / 0x100 % 0x100) as u8
            } else {
                (index % 0x100) as u8
            },
    )
}

/// The key under which an output is stored.
pub fn utxo_key(tx_hash: &[u8], output_index: u32) -> (r: [u8; 36])
    ensures
        r@ == output_key(tx_hash@, output_index),
{
    let mut key: [u8; 36] = [0u8; 36];
    let n: usize = tx_hash.len();
    let mut i: usize = 0;
    while i < 32 && i < n
        invariant
            i <= 32,
            i <= n,
            n == tx_hash@.len(),
            forall|j: int| 0 <= j < i ==> key@[j] == tx_hash@[j],
            forall|j: int| i <= j < 36 ==> key@[j] == 0,
        decreases 32 - i,
    {
        key[i] = tx_hash[i];
        i += 1;
    }
    key[32] = (output_index / 0x100_0000) as u8;
    key[33] = (output_index / 0x1_0000 % 0x100) as u8;
    key[34] = (output_index / 0x100 % 0x100) as u8;
    key[35] = (output_index % 0x100) as u8;
    assert(key@ =~= output_key(tx_hash@, output_index));
    key
}

/// Outputs of different transactions, or with different indexes, have
/// different keys.
pub proof fn law_output_keys_differ(a: Seq<u8>, i: u32, b: Seq<u8>, j: u32)
    requires
        a.len() == 32,
        b.len() == 32,
        output_key(a, i) == output_key(b, j),
    ensures
        a == b,
        i == j,
{
    let x = output_key(a, i);
    let y = output_key(b, j);
    assert(a =~= b) by {
        assert forall|k: int| 0 <= k < 32 implies a[k] == b[k] by {
            assert(x[k] == y[k]);
        }
    }
    assert(x[32] == y[32] && x[33] == y[33] && x[34] == y[34] && x[35] == y[35]);
    assert(i == (i / 0x100_0000) * 0x100_0000 + (i / 0x1_0000 % 0x100) * 0x1_0000 + (i / 0x100 % 0x100) * 0x100 + i
        % 0x100);
    assert(j == (j / 0x100_0000) * 0x100_0000 + (j / 0x1_0000 % 0x100) * 0x1_0000 + (j / 0x100 % 0x100) * 0x100 + j
        % 0x100);
}

/// Whether an address delegates by pointer (types 4 and 5).
pub open spec fn by_pointer(address: Seq<u8>) -> bool {
    address.len() > 0 && (address[0] / 16 == 4 || address[0] / 16 == 5)
}

/// Whether an address delegates by pointer.
pub fn is_pointer_address(address: &[u8]) -> (r: bool)
    ensures
        r == by_pointer(address@),
{
    if address.len() == 0 {
        return false;
    }
    let kind: u8 = address[0] / 16;
    kind == 4 || kind == 5
}

// ---- stake of outputs ----

/// Stake of each credential in stored outputs, kept up to date as outputs come
/// and go. No credential is kept with a stake of zero.
pub struct StakeTracker {
    current_stake: Table<Vec<u8>, u64>,
    skip_pointer_stake: bool,
}

/// What a stake tracker holds.
#[verifier::ext_equal]
pub struct TrackerModel {
    pub stake: Map<Seq<u8>, u64>,
    /// Whether addresses that delegate by pointer count for nothing.
    pub skip_pointers: bool,
}

pub open spec fn stake_at(m: Map<Seq<u8>, u64>, c: Seq<u8>) -> u64 {
    if m.dom().contains(c) {
        m[c]
    } else {
        0
    }
}

/// Whether an output counts for its stake credential.
pub open spec fn counts(skip: bool, e: EntryModel) -> bool {
    e.stake_credential is Some && !(skip && by_pointer(e.address))
}

/// The tracker after an output was stored.
pub open spec fn output_added(t: TrackerModel, e: EntryModel) -> TrackerModel {
    if counts(t.skip_pointers, e) {
        let c = e.stake_credential->0;
        TrackerModel { stake: t.stake.insert(c, (stake_at(t.stake, c) + e.amount) as u64), ..t }
    } else {
        t
    }
}

/// Stake after an amount left a credential.
pub open spec fn lowered(m: Map<Seq<u8>, u64>, c: Seq<u8>, amount: u64) -> Map<Seq<u8>, u64> {
    if !m.dom().contains(c) {
        m
    } else if m[c] <= amount {
        m.remove(c)
    } else {
        m.insert(c, (m[c] - amount) as u64)
    }
}

/// The tracker after an output was spent.
pub open spec fn output_removed(t: TrackerModel, e: EntryModel) -> TrackerModel {
    if counts(t.skip_pointers, e) {
        TrackerModel { stake: lowered(t.stake, e.stake_credential->0, e.amount), ..t }
    } else {
        t
    }
}

/// Stake without what outputs that delegate by pointer contribute.
pub open spec fn pointers_purged(m: Map<Seq<u8>, u64>, l: Seq<EntryModel>) -> Map<Seq<u8>, u64>
    decreases l.len(),
{
    if l.len() == 0 {
        m
    } else {
        let before = pointers_purged(m, l.drop_last());
        let e = l.last();
        if e.stake_credential is Some && by_pointer(e.address) {
            lowered(before, e.stake_credential->0, e.amount)
        } else {
            before
        }
    }
}

/// Stake of a credential in outputs.
pub open spec fn stake_in(l: Seq<EntryModel>, c: Seq<u8>) -> nat
    decreases l.len(),
{
    if l.len() == 0 {
        0
    } else {
        stake_in(l.drop_last(), c) + if l.last().stake_credential == Some(c) {
            l.last().amount as nat
        } else {
            0
        }
    }
}

pub open spec fn staked_in(l: Seq<EntryModel>, c: Seq<u8>) -> bool {
    exists|i: int| #![trigger l[i]] 0 <= i < l.len() && l[i].stake_credential == Some(c)
}

/// Stake of all credentials in outputs.
pub open spec fn stakes_in(l: Seq<EntryModel>) -> Map<Seq<u8>, u64> {
    Map::new(|c: Seq<u8>| staked_in(l, c), |c: Seq<u8>| stake_in(l, c) as u64)
}

proof fn lemma_stake_in_prefix(l: Seq<EntryModel>, i: int, c: Seq<u8>)
    requires
        0 <= i <= l.len(),
    ensures
        stake_in(l.take(i), c) <= stake_in(l, c),
    decreases l.len() - i,
{
    if i == l.len() {
        assert(l.take(i) =~= l);
    } else {
        assert(l.take(i + 1).drop_last() =~= l.take(i));
        lemma_stake_in_prefix(l, i + 1, c);
    }
}

proof fn lemma_staked_in_step(l: Seq<EntryModel>, i: int, c: Seq<u8>)
    requires
        0 <= i < l.len(),
    ensures
        staked_in(l.take(i + 1), c) == (staked_in(l.take(i), c) || l[i].stake_credential == Some(c)),
{
    let a = l.take(i);
    let b = l.take(i + 1);
    assert(b[i] == l[i]);
    if staked_in(b, c) {
        let j = choose|j: int| #![trigger b[j]] 0 <= j < b.len() && b[j].stake_credential == Some(c);
        if j < i {
            assert(a[j] == b[j]);
        }
    }
    if staked_in(a, c) {
        let j = choose|j: int| #![trigger a[j]] 0 <= j < a.len() && a[j].stake_credential == Some(c);
        assert(b[j] == a[j]);
    }
}

fn copy_bytes(v: &Vec<u8>) -> (r: Vec<u8>)
    ensures
        r@ == v@,
{
    v.dup()
}

/// The stake of every credential in outputs can be counted in `u64`.
pub open spec fn countable(l: Seq<EntryModel>) -> bool {
    forall|c: Seq<u8>| #[trigger] stake_in(l, c) <= u64::MAX
}

/// Counts the stake in outputs, unless that of a credential leaves its range.
fn count_stake(outputs: &Vec<UtxoEntry>) -> (r: Option<Table<Vec<u8>, u64>>)
    ensures
        match r {
            Some(t) => countable(entry_views(outputs@)) && t@ == stakes_in(entry_views(outputs@)),
            None => !countable(entry_views(outputs@)),
        },
{
    let ghost l = entry_views(outputs@);
    let mut r: Table<Vec<u8>, u64> = Table::new();
    let mut i: usize = 0;
    while i < outputs.len()
        invariant
            i <= outputs.len(),
            l == entry_views(outputs@),
            forall|c: Seq<u8>|
                #![trigger r@.dom().contains(c)]
                r@.dom().contains(c) == staked_in(l.take(i as int), c),
            forall|c: Seq<u8>| #[trigger] stake_at(r@, c) == stake_in(l.take(i as int), c),
        decreases outputs.len() - i,
    {
        let e: &UtxoEntry = &outputs[i];
        let ghost before = r@;
        proof {
            assert(l.take(i + 1).drop_last() =~= l.take(i as int));
            assert(l.take(i + 1).last() == l[i as int]);
        }
        if let Some(cred) = &e.stake_credential {
            let now: u64 = match r.get(cred) {
                Some(x) => *x,
                None => 0,
            };
            proof {
                assert(stake_at(before, cred@) == stake_in(l.take(i as int), cred@));
                lemma_stake_in_prefix(l, i + 1, cred@);
            }
            if now > u64::MAX - e.amount {
                assert(stake_in(l, cred@) > u64::MAX);
                return None;
            }
            r.insert(copy_bytes(cred), now + e.amount);
        }
        proof {
            let after = r@;
            assert forall|c: Seq<u8>| #[trigger] stake_at(after, c) == stake_in(l.take(i + 1), c) by {
                assert(stake_at(before, c) == stake_in(l.take(i as int), c));
            }
            assert forall|c: Seq<u8>|
                #![trigger after.dom().contains(c)]
                after.dom().contains(c) == staked_in(l.take(i + 1), c) by {
                lemma_staked_in_step(l, i as int, c);
                assert(before.dom().contains(c) == staked_in(l.take(i as int), c));
            }
        }
        i += 1;
    }
    proof {
        assert(l.take(i as int) =~= l);
        assert forall|c: Seq<u8>| #[trigger] stake_in(l, c) <= u64::MAX by {
            assert(stake_at(r@, c) == stake_in(l, c));
        }
        assert forall|c: Seq<u8>| #[trigger] r@.dom().contains(c) implies r@[c] == stake_in(l, c) as u64 by {
            assert(stake_at(r@, c) == stake_in(l, c));
        }
        assert(r@ =~= stakes_in(l));
    }
    Some(r)
}

/// Whether the stake of every credential in outputs can be counted.
pub fn can_count(outputs: &Vec<UtxoEntry>) -> (r: bool)
    ensures
        r == countable(entry_views(outputs@)),
{
    count_stake(outputs).is_some()
}

impl StakeTracker {
    pub closed spec fn view(&self) -> TrackerModel {
        TrackerModel { stake: self.current_stake@, skip_pointers: self.skip_pointer_stake }
    }

    pub fn new() -> (r: Self)
        ensures
            r@ == (TrackerModel { stake: Map::empty(), skip_pointers: false }),
    {
        StakeTracker { current_stake: Table::new(), skip_pointer_stake: false }
    }

    /// Stake of each credential in stored outputs.
    pub fn current_stake(&self) -> (r: &Table<Vec<u8>, u64>)
        ensures
            r@ == self@.stake,
    {
        &self.current_stake
    }

    /// Whether the stake of a new output can be added.
    pub fn has_room(&self, utxo: &UtxoEntry) -> (r: bool)
        ensures
            r == (counts(self@.skip_pointers, utxo@) ==> stake_at(self@.stake, utxo@.stake_credential->0) + utxo.amount
                <= u64::MAX),
    {
        match &utxo.stake_credential {
            Some(cred) => {
                let now: u64 = match self.current_stake.get(cred) {
                    Some(x) => *x,
                    None => 0,
                };
                (self.skip_pointer_stake && is_pointer_address(utxo.address.as_slice())) || now <= u64::MAX - utxo.amount
            },
            None => true,
        }
    }

    /// Takes note of a new output.
    pub fn add_output(&mut self, utxo: &UtxoEntry)
        requires
            counts(old(self)@.skip_pointers, utxo@) ==> stake_at(old(self)@.stake, utxo@.stake_credential->0)
                + utxo.amount <= u64::MAX,
        ensures
            final(self)@ == output_added(old(self)@, utxo@),
    {
        let ghost t = self@;
        if let Some(cred) = &utxo.stake_credential {
            if !(self.skip_pointer_stake && is_pointer_address(utxo.address.as_slice())) {
                let now: u64 = match self.current_stake.get(cred) {
                    Some(x) => *x,
                    None => 0,
                };
                self.current_stake.insert(copy_bytes(cred), now + utxo.amount);
            }
        }
        assert(self@ =~= output_added(t, utxo@));
    }

    fn lower(&mut self, cred: &Vec<u8>, amount: u64)
        ensures
            final(self)@ == (TrackerModel { stake: lowered(old(self)@.stake, cred@, amount), ..old(self)@ }),
    {
        let ghost t = self@;
        let now: Option<u64> = match self.current_stake.get(cred) {
            Some(x) => Some(*x),
            None => None,
        };
        if let Some(x) = now {
            if x <= amount {
                self.current_stake.remove(cred);
            } else {
                self.current_stake.insert(copy_bytes(cred), x - amount);
            }
        }
        assert(self@ =~= (TrackerModel { stake: lowered(t.stake, cred@, amount), ..t }));
    }

    /// Takes note of a spent output.
    pub fn remove_output(&mut self, entry: &UtxoEntry)
        ensures
            final(self)@ == output_removed(old(self)@, entry@),
    {
        if let Some(cred) = &entry.stake_credential {
            if !(self.skip_pointer_stake && is_pointer_address(entry.address.as_slice())) {
                self.lower(cred, entry.amount);
            }
        }
    }

    /// Takes the stake of pointer addresses out, given all stored outputs, and
    /// ignores such addresses from now on. This happens once, when the Conway
    /// era begins.
    pub fn purge_pointer_stake_for_conway(&mut self, outputs: &Vec<UtxoEntry>)
        ensures
            final(self)@ == (TrackerModel {
                stake: pointers_purged(old(self)@.stake, entry_views(outputs@)),
                skip_pointers: true,
            }),
    {
        let ghost t = self@;
        let ghost l = entry_views(outputs@);
        let mut i: usize = 0;
        while i < outputs.len()
            invariant
                i <= outputs.len(),
                l == entry_views(outputs@),
                self@ == (TrackerModel { stake: pointers_purged(t.stake, l.take(i as int)), ..t }),
            decreases outputs.len() - i,
        {
            assert(l.take(i + 1).drop_last() =~= l.take(i as int));
            let e: &UtxoEntry = &outputs[i];
            if let Some(cred) = &e.stake_credential {
                if is_pointer_address(e.address.as_slice()) {
                    self.lower(cred, e.amount);
                }
            }
            i += 1;
        }
        assert(l.take(i as int) =~= l);
        self.skip_pointer_stake = true;
        assert(self@ =~= (TrackerModel { stake: pointers_purged(t.stake, l), skip_pointers: true }));
    }

    /// Ignores pointer addresses from now on, without taking anything out.
    pub fn set_skip_pointer_stake(&mut self)
        ensures
            final(self)@ == (TrackerModel { skip_pointers: true, ..old(self)@ }),
    {
        self.skip_pointer_stake = true;
    }

    /// Counts the stake of stored outputs anew.
    pub fn rebuild(&mut self, outputs: &Vec<UtxoEntry>)
        requires
            countable(entry_views(outputs@)),
        ensures
            final(self)@ == (TrackerModel { stake: stakes_in(entry_views(outputs@)), ..old(self)@ }),
    {
        let ghost t = self@;
        if let Some(stake) = count_stake(outputs) {
            self.current_stake = stake;
        }
        assert(self@ =~= (TrackerModel { stake: stakes_in(entry_views(outputs@)), ..t }));
    }
}

/// Spending an output undoes storing it: every credential has the stake that
/// it had before, and the tracker is the same as before, unless it kept a
/// credential without stake.
pub proof fn law_output_comes_and_goes(t: TrackerModel, e: EntryModel, c: Seq<u8>)
    requires
        counts(t.skip_pointers, e) ==> stake_at(t.stake, e.stake_credential->0) + e.amount <= u64::MAX,
    ensures
        stake_at(output_removed(output_added(t, e), e).stake, c) == stake_at(t.stake, c),
        (counts(t.skip_pointers, e) && t.stake.dom().contains(e.stake_credential->0) ==> t.stake[e.stake_credential->0]
            > 0) ==> output_removed(output_added(t, e), e) == t,
{
    if counts(t.skip_pointers, e) {
        let k = e.stake_credential->0;
        if t.stake.dom().contains(k) ==> t.stake[k] > 0 {
            assert(output_removed(output_added(t, e), e).stake =~= t.stake);
        }
    }
}

/// A pointer address changes nothing once pointers are ignored.
pub proof fn law_pointers_ignored(t: TrackerModel, e: EntryModel)
    requires
        t.skip_pointers,
        by_pointer(e.address),
    ensures
        output_added(t, e) == t,
        output_removed(t, e) == t,
{
}

// ---- epoch snapshots ----

/// A number in decimal, filled up with zeros from the left.
pub open spec fn zero_filled(n: u64, width: nat) -> Seq<char> {
    let d = decimal_chars(n as nat);
    if d.len() >= width {
        d
    } else {
        Seq::new((width - d.len()) as nat, |i: int| '0') + d
    }
}

/// The name of an epoch's snapshot.
pub open spec fn snapshot_chars(epoch: u64) -> Seq<char> {
    "epoch-"@ + zero_filled(epoch, 10)
}

/// The name under which the snapshot of an epoch is stored.
pub fn snapshot_name(epoch: u64) -> (r: String)
    ensures
        r@ == snapshot_chars(epoch),
{
    let digits = decimal(epoch);
    let n: usize = digits.as_str().unicode_len();
    let mut zeros = String::new();
    let mut i: usize = n;
    let ghost start = n;
    proof {
        reveal_strlit("0");
        assert(zeros@ =~= Seq::new(0, |j: int| '0'));
    }
    while i < 10
        invariant
            start <= i,
            start < 10 ==> i <= 10,
            start >= 10 ==> i == start,
            zeros@ == Seq::new((i - start) as nat, |j: int| '0'),
        decreases 10 - i,
    {
        proof {
            reveal_strlit("0");
        }
        zeros.append("0");
        assert(zeros@ =~= Seq::new((i + 1 - start) as nat, |j: int| '0'));
        i += 1;
    }
    let mut r = "epoch-".to_string();
    r.append(zeros.as_str());
    r.append(digits.as_str());
    assert(zeros@ + digits@ =~= zero_filled(epoch, 10));
    assert(r@ =~= snapshot_chars(epoch));
    r
}

/// The text behind all repetitions of a prefix.
pub open spec fn behind(s: Seq<char>, p: Seq<char>) -> Seq<char>
    decreases s.len(),
{
    if p.len() > 0 && has_prefix(s, p) {
        behind(s.skip(p.len() as int), p)
    } else {
        s
    }
}

/// The text before all repetitions of a suffix.
pub open spec fn before_suffix(s: Seq<char>, p: Seq<char>) -> Seq<char>
    decreases s.len(),
{
    if p.len() > 0 && has_suffix(s, p) {
        before_suffix(s.take(s.len() - p.len()), p)
    } else {
        s
    }
}

/// The epoch that a file of the epochs directory holds: the number between
/// `epoch-` and `.bin`.
pub open spec fn epoch_of_name(s: Seq<char>) -> Option<u64> {
    if has_suffix(s, ".bin"@) && has_prefix(s, "epoch-"@) {
        parsed(before_suffix(behind(s, "epoch-"@), ".bin"@))
    } else {
        None
    }
}

fn chars_match(v: &Vec<char>, at: usize, p: &Vec<char>) -> (r: bool)
    requires
        at + p@.len() <= v@.len(),
    ensures
        r == (v@.subrange(at as int, at + p@.len()) == p@),
{
    let n: usize = v.len();
    let mut i: usize = 0;
    while i < p.len()
        invariant
            i <= p@.len(),
            n == v@.len(),
            at + p@.len() <= n,
            forall|j: int| 0 <= j < i ==> v@[at + j] == p@[j],
        decreases p@.len() - i,
    {
        if v[at + i] != p[i] {
            assert(v@.subrange(at as int, at + p@.len())[i as int] != p@[i as int]);
            return false;
        }
        i += 1;
    }
    assert(v@.subrange(at as int, at + p@.len()) =~= p@);
    true
}

/// The epoch of a file name, if it is the name of an epoch file.
pub fn epoch_of_file(name: &str) -> (r: Option<u64>)
    ensures
        r == epoch_of_name(name@),
{
    let v = chars_of(name);
    let prefix = chars_of("epoch-");
    let suffix = chars_of(".bin");
    proof {
        reveal_strlit("epoch-");
        reveal_strlit(".bin");
    }
    let n: usize = v.len();
    if n < 6 || n < 4 {
        return None;
    }
    assert(v@.skip(n - 4) =~= v@.subrange(n - 4, n as int));
    if !chars_match(&v, n - 4, &suffix) {
        return None;
    }
    assert(v@.take(6) =~= v@.subrange(0, 6));
    if !chars_match(&v, 0, &prefix) {
        return None;
    }
    let mut from: usize = 0;
    assert(v@.skip(0) =~= v@);
    let mut more: bool = true;
    while more
        invariant
            from <= n,
            n == v@.len(),
            prefix@ == "epoch-"@,
            prefix@.len() == 6,
            behind(v@, prefix@) == behind(v@.skip(from as int), prefix@),
            !more ==> !has_prefix(v@.skip(from as int), prefix@),
        decreases n - from, (if more { 1int } else { 0int }),
    {
        let ghost s = v@.skip(from as int);
        more = false;
        if n - from >= 6 {
            assert(s.take(6) =~= v@.subrange(from as int, from + 6));
            if chars_match(&v, from, &prefix) {
                assert(s.skip(6) =~= v@.skip(from + 6));
                from += 6;
                more = true;
            }
        }
    }
    let ghost rest = v@.skip(from as int);
    let mut to: usize = n;
    assert(v@.subrange(from as int, n as int) =~= rest);
    more = true;
    while more
        invariant
            from <= to <= n,
            n == v@.len(),
            suffix@ == ".bin"@,
            suffix@.len() == 4,
            before_suffix(rest, suffix@) == before_suffix(v@.subrange(from as int, to as int), suffix@),
            !more ==> !has_suffix(v@.subrange(from as int, to as int), suffix@),
        decreases to, (if more { 1int } else { 0int }),
    {
        let ghost s = v@.subrange(from as int, to as int);
        more = false;
        if to - from >= 4 {
            assert(s.skip(s.len() - 4) =~= v@.subrange(to - 4, to as int));
            if chars_match(&v, to - 4, &suffix) {
                assert(s.take(s.len() - 4) =~= v@.subrange(from as int, to - 4));
                to -= 4;
                more = true;
            }
        }
    }
    parse_part(&v, from, to)
}

/// The file of an epoch's snapshot is recognised as such.
pub proof fn law_snapshot_file_found(epoch: u64)
    ensures
        epoch_of_name(snapshot_chars(epoch) + ".bin"@) == Some(epoch),
{
    reveal_strlit("epoch-");
    reveal_strlit(".bin");
    let digits = zero_filled(epoch, 10);
    let s = snapshot_chars(epoch) + ".bin"@;
    law_decimal_read_back(epoch);
    let d = decimal_chars(epoch as nat);
    lemma_decimal_digits(epoch as nat);
    if d.len() < 10 {
        let zeros = Seq::new((10 - d.len()) as nat, |i: int| '0');
        lemma_zeros_before(zeros, d);
    }
    assert(all_digits(digits) && number_of(digits) == epoch && digits.len() > 0);
    assert(is_digit(digits[0]));
    // one prefix and one suffix, as a number starts and ends with digits
    assert(s.take(6) =~= "epoch-"@);
    let rest = s.skip(6);
    assert(rest =~= digits + ".bin"@);
    assert(!has_prefix(rest, "epoch-"@)) by {
        assert(rest[0] == digits[0]);
        if has_prefix(rest, "epoch-"@) {
            assert(rest.take(6)[0] == rest[0]);
        }
    }
    assert(behind(rest, "epoch-"@) == rest);
    assert(behind(s, "epoch-"@) == rest);
    assert(s.skip(s.len() - 4) =~= ".bin"@);
    assert(rest.skip(rest.len() - 4) =~= ".bin"@);
    assert(rest.take(rest.len() - 4) =~= digits);
    assert(!has_suffix(digits, ".bin"@)) by {
        let k = digits.len() as int;
        assert(is_digit(digits[k - 1]));
        if has_suffix(digits, ".bin"@) {
            assert(digits.skip(k - 4)[3] == digits[k - 1]);
        }
    }
    assert(before_suffix(digits, ".bin"@) == digits);
    assert(before_suffix(rest, ".bin"@) == digits);
}

/// The highest epoch with both a file and complete metadata; each entry tells
/// the name of a file, and whether the matching metadata exists.
pub open spec fn latest_of(l: Seq<(String, bool)>) -> Option<u64>
    decreases l.len(),
{
    if l.len() == 0 {
        None
    } else {
        let before = latest_of(l.drop_last());
        match epoch_of_name(l.last().0@) {
            Some(e) => if !l.last().1 {
                before
            } else {
                match before {
                    Some(b) => Some(if e > b {
                        e
                    } else {
                        b
                    }),
                    None => Some(e),
                }
            },
            None => before,
        }
    }
}

/// The latest epoch that can be restored.
pub fn find_latest_consistent_epoch(files: &Vec<(String, bool)>) -> (r: Option<u64>)
    ensures
        r == latest_of(files@),
{
    let ghost l = files@;
    let mut best: Option<u64> = None;
    let mut i: usize = 0;
    while i < files.len()
        invariant
            i <= files.len(),
            l == files@,
            best == latest_of(l.take(i as int)),
        decreases files.len() - i,
    {
        assert(l.take(i + 1).drop_last() =~= l.take(i as int));
        if let Some(e) = epoch_of_file(files[i].0.as_str()) {
            if files[i].1 {
                best = match best {
                    Some(b) => Some(
                        if e > b {
                            e
                        } else {
                            b
                        },
                    ),
                    None => Some(e),
                };
            }
        }
        i += 1;
    }
    assert(l.take(i as int) =~= l);
    best
}

/// The epoch that is restored is the greatest one with both a file and
/// complete metadata, and there is none if and only if no epoch has both. A
/// file without metadata never counts.
pub proof fn law_latest_is_greatest(l: Seq<(String, bool)>)
    ensures
        match latest_of(l) {
            Some(e) => {
                &&& exists|i: int| 0 <= i < l.len() && (#[trigger] l[i]).1 && epoch_of_name(l[i].0@) == Some(e)
                &&& forall|i: int|
                    0 <= i < l.len() && (#[trigger] l[i]).1 ==> (epoch_of_name(l[i].0@) matches Some(x) ==> x <= e)
            },
            None => forall|i: int| 0 <= i < l.len() && (#[trigger] l[i]).1 ==> epoch_of_name(l[i].0@) is None,
        },
    decreases l.len(),
{
    if l.len() > 0 {
        let k = l.drop_last();
        law_latest_is_greatest(k);
        let n = l.len() - 1;
        assert(l[n] == l.last());
        assert forall|i: int| 0 <= i < n implies #[trigger] l[i] == k[i] by {}
        if let Some(e) = latest_of(k) {
            let j = choose|i: int| 0 <= i < k.len() && (#[trigger] k[i]).1 && epoch_of_name(k[i].0@) == Some(e);
            assert(l[j] == k[j]);
        }
    }
}

/// A file that is still being written, under a name that ends in `.tmp`, is
/// never taken for a snapshot.
pub proof fn law_unfinished_file_ignored(name: Seq<char>)
    ensures
        epoch_of_name(name + ".tmp"@) is None,
{
    reveal_strlit(".bin");
    reveal_strlit(".tmp");
    let s = name + ".tmp"@;
    assert(s[s.len() - 1] == 'p');
    if has_suffix(s, ".bin"@) {
        assert(s.skip(s.len() - 4)[3] == s[s.len() - 1]);
    }
}

/// A key starts with the hash of the transaction and ends with the index, the
/// most significant byte first.
pub proof fn law_output_key(hash: Seq<u8>, index: u32)
    requires
        hash.len() == 32,
    ensures
        ({
            let k = output_key(hash, index);
            &&& k.len() == 36
            &&& k.take(32) == hash
            &&& index == ((k[32] * 256 + k[33]) * 256 + k[34]) * 256 + k[35]
        }),
{
    let k = output_key(hash, index);
    assert(k.take(32) =~= hash);
    assert(index == (index / 0x100_0000) * 0x100_0000 + (index / 0x1_0000 % 0x100) * 0x1_0000 + (index / 0x100 % 0x100)
        * 0x100 + index % 0x100);
}

/// The name of a snapshot has ten digits, or as many as the epoch needs.
pub proof fn law_snapshot_named(epoch: u64)
    ensures
        ({
            let (s, d) = (snapshot_chars(epoch), decimal_chars(epoch as nat));
            &&& s.take(6) == "epoch-"@
            &&& d.len() <= 10 ==> s.len() == 16
            &&& d.len() > 10 ==> s.len() == 6 + d.len()
            &&& s.skip(s.len() - d.len()) == d
            &&& forall|i: int| 6 <= i < s.len() - d.len() ==> #[trigger] s[i] == '0'
        }),
{
    reveal_strlit("epoch-");
    let (s, d) = (snapshot_chars(epoch), decimal_chars(epoch as nat));
    assert(s.take(6) =~= "epoch-"@);
    assert(s.skip(s.len() - d.len()) =~= d);
}

} // verus!
