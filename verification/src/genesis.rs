//! Genesis configurations and the ledger that a chain starts with.

use vstd::prelude::*;
use crate::bigint::Int;
use crate::ledger::primitives::{sat_sub, EpochNo, Lovelace, ProtocolParameters, Rational as Ratio};
use crate::ledger::rewards::{reward_update, rewards_fit};
use crate::ledger::state::{initial_ledger, or_keep, LedgerModel, LedgerState, SnapshotModel, StakeSnapshot};
use crate::item::Item;
use crate::sums::{clamp, map_sum, seq_sum};
use crate::table::{listing, KeySet, Table};
use crate::text::{chars_of, parse_u64, parsed};

verus! {

// ---- Byron ----

/// Byron genesis.
pub struct ByronGenesis {
    /// Vouchers: public key in base64, lovelace in decimal.
    pub avvm_distr: Table<String, String>,
    /// Balances: Byron address in base58, lovelace in decimal.
    pub non_avvm_balances: Table<String, String>,
    /// System start, in seconds since 1970.
    pub start_time: u64,
    pub block_version_data: ByronBlockVersionData,
    pub protocol_consts: ByronProtocolConsts,
}

/// Byron block limits.
#[derive(Debug, Clone)]
pub struct ByronBlockVersionData {
    /// Slot duration in milliseconds, in decimal.
    pub slot_duration: String,
    pub max_block_size: String,
    pub max_tx_size: String,
    pub tx_fee_policy: ByronTxFeePolicy,
}

impl Default for ByronBlockVersionData {
    fn default() -> (r: Self)
        ensures
            r.slot_duration@ == Seq::<char>::empty(),
            r.max_block_size@ == Seq::<char>::empty(),
            r.max_tx_size@ == Seq::<char>::empty(),
            r.tx_fee_policy.summand@ == Seq::<char>::empty(),
            r.tx_fee_policy.multiplier@ == Seq::<char>::empty(),
    {
        ByronBlockVersionData {
            slot_duration: String::new(),
            max_block_size: String::new(),
            max_tx_size: String::new(),
            tx_fee_policy: ByronTxFeePolicy::default(),
        }
    }
}

/// Byron fees: the summand, and the multiplier times the size, in units of
/// a millionth of a millionth.
#[derive(Debug, Clone)]
pub struct ByronTxFeePolicy {
    pub summand: String,
    pub multiplier: String,
}

impl Default for ByronTxFeePolicy {
    fn default() -> (r: Self)
        ensures
            r.summand@ == Seq::<char>::empty(),
            r.multiplier@ == Seq::<char>::empty(),
    {
        ByronTxFeePolicy { summand: String::new(), multiplier: String::new() }
    }
}

/// Byron constants.
#[derive(Debug, Clone, Copy)]
pub struct ByronProtocolConsts {
    pub k: u64,
    pub protocol_magic: u64,
}

impl Default for ByronProtocolConsts {
    fn default() -> (r: Self)
        ensures
            r.k == 0,
            r.protocol_magic == 0,
    {
        ByronProtocolConsts { k: 0, protocol_magic: 0 }
    }
}

/// An output of the genesis: address bytes and lovelace.
#[derive(Debug, Clone)]
pub struct GenesisUtxoEntry {
    pub address: Vec<u8>,
    pub lovelace: u64,
}

/// The value of a base58 digit.
pub open spec fn base58_digit(c: char) -> Option<nat> {
    if '1' <= c <= '9' {
        Some((c as int - '1' as int) as nat)
    } else if 'A' <= c <= 'H' {
        Some((9 + c as int - 'A' as int) as nat)
    } else if 'J' <= c <= 'N' {
        Some((17 + c as int - 'J' as int) as nat)
    } else if 'P' <= c <= 'Z' {
        Some((22 + c as int - 'P' as int) as nat)
    } else if 'a' <= c <= 'k' {
        Some((33 + c as int - 'a' as int) as nat)
    } else if 'm' <= c <= 'z' {
        Some((44 + c as int - 'm' as int) as nat)
    } else {
        None
    }
}

pub open spec fn is_base58(s: Seq<char>) -> bool {
    forall|i: int| #![trigger s[i]] 0 <= i < s.len() ==> base58_digit(s[i]) is Some
}

/// The number that base58 digits stand for.
pub open spec fn base58_number(s: Seq<char>) -> nat
    decreases s.len(),
{
    if s.len() == 0 {
        0
    } else {
        base58_number(s.drop_last()) * 58 + base58_digit(s.last())->0
    }
}

/// How many ones a text starts with.
pub open spec fn leading_ones(s: Seq<char>) -> nat
    decreases s.len(),
{
    if s.len() > 0 && s[0] == '1' {
        1 + leading_ones(s.skip(1))
    } else {
        0
    }
}

/// The bytes of a number, the most significant one first.
pub open spec fn bytes_of_number(n: nat) -> Seq<u8>
    decreases n,
{
    if n == 0 {
        Seq::empty()
    } else {
        bytes_of_number(n / 256).push((n % 256) as u8)
    }
}

/// What base58 text stands for: a zero for each leading one, and the bytes of
/// the number.
pub open spec fn base58_bytes(s: Seq<char>) -> Seq<u8> {
    Seq::new(leading_ones(s), |i: int| 0u8) + bytes_of_number(base58_number(s))
}

/// Calls `bs58::decode` with its default alphabet: it fails on a character
/// that is no base58 digit; otherwise it gives a zero for each leading `1`,
/// and then the bytes of the number, the most significant one first.
#[verifier::external_body]
fn decode_base58(text: &str) -> (r: Option<Vec<u8>>)
    ensures
        match r {
            Some(b) => is_base58(text@) && b@ == base58_bytes(text@),
            None => !is_base58(text@),
        },
{
    bs58::decode(text).into_vec().ok()
}

/// What BLAKE2b with a 32-byte digest gives for a genesis file.
pub uninterp spec fn file_digest(content: Seq<u8>) -> Seq<u8>;

/// Calls `blake2::Blake2b` with an output of 32 bytes: the digest depends on
/// the input alone.
#[verifier::external_body]
fn digest_file(content: &[u8]) -> (r: [u8; 32])
    ensures
        r@ == file_digest(content@),
{
    <blake2::Blake2b<blake2::digest::consts::U32> as blake2::Digest>::digest(content).into()
}

/// The hash of a genesis file.
pub fn genesis_hash(content: &[u8]) -> (r: [u8; 32])
    ensures
        r@ == file_digest(content@),
{
    digest_file(content)
}

/// The outputs that balances stand for: those with an amount above zero and an
/// address that can be read.
pub open spec fn genesis_outputs(l: Seq<(Seq<char>, Seq<char>)>) -> Seq<(Seq<u8>, u64)>
    decreases l.len(),
{
    if l.len() == 0 {
        Seq::empty()
    } else {
        let before = genesis_outputs(l.drop_last());
        let (address, amount) = l.last();
        match parsed(amount) {
            Some(n) => if n > 0 && is_base58(address) {
                before.push((base58_bytes(address), n))
            } else {
                before
            },
            None => before,
        }
    }
}

pub open spec fn entry_models(s: Seq<GenesisUtxoEntry>) -> Seq<(Seq<u8>, u64)> {
    Seq::new(s.len(), |i: int| (s[i].address@, s[i].lovelace))
}

// ---- vouchers ----

/// The value of a base64 digit, in the ordinary alphabet or the one for URLs.
pub open spec fn base64_digit(c: char) -> Option<u8> {
    if 'A' <= c && c <= 'Z' {
        Some((c as u32 - 65) as u8)
    } else if 'a' <= c && c <= 'z' {
        Some((c as u32 - 71) as u8)
    } else if '0' <= c && c <= '9' {
        Some((c as u32 + 4) as u8)
    } else if c == '+' || c == '-' {
        Some(62)
    } else if c == '/' || c == '_' {
        Some(63)
    } else {
        None
    }
}

/// A byte of base64 digits: four digits of six bits make three bytes.
pub open spec fn base64_byte(d: Seq<u8>, k: int) -> u8 {
    let g = 4 * (k / 3);
    if k % 3 == 0 {
        (d[g] * 4 + d[g + 1] / 16) as u8
    } else if k % 3 == 1 {
        ((d[g + 1] % 16) * 16 + d[g + 2] / 4) as u8
    } else {
        ((d[g + 2] % 4) * 64 + d[g + 3]) as u8
    }
}

pub open spec fn all_base64(s: Seq<char>) -> bool {
    forall|i: int| 0 <= i < s.len() ==> base64_digit(#[trigger] s[i]) is Some
}

/// A text without the sign that fills up the last group.
pub open spec fn unpadded(text: Seq<char>) -> Seq<char> {
    if text.len() == 44 && text[43] == '=' {
        text.take(43)
    } else {
        text
    }
}

pub open spec fn base64_digits(s: Seq<char>) -> Seq<u8> {
    Seq::new(s.len(), |i: int| base64_digit(s[i])->0)
}

/// The key of 32 bytes that a voucher names in base64: 43 digits, with or
/// without a sign that fills up the last group. The last digit has no bits
/// beyond the key.
pub open spec fn voucher_key(text: Seq<char>) -> Option<Seq<u8>> {
    let s = unpadded(text);
    if s.len() == 43 && all_base64(s) && base64_digits(s)[42] % 4 == 0 {
        Some(Seq::new(32, |k: int| base64_byte(base64_digits(s), k)))
    } else {
        None
    }
}

fn read_base64_digit(c: char) -> (r: Option<u8>)
    ensures
        r == base64_digit(c),
        r matches Some(x) ==> x < 64,
{
    if 'A' <= c && c <= 'Z' {
        Some((c as u32 - 65) as u8)
    } else if 'a' <= c && c <= 'z' {
        Some((c as u32 - 71) as u8)
    } else if '0' <= c && c <= '9' {
        Some((c as u32 + 4) as u8)
    } else if c == '+' || c == '-' {
        Some(62)
    } else if c == '/' || c == '_' {
        Some(63)
    } else {
        None
    }
}

fn read_base64_byte(d: &Vec<u8>, k: usize) -> (r: u8)
    requires
        k < 32,
        d@.len() == 43,
        forall|i: int| 0 <= i < 43 ==> (#[trigger] d@[i]) < 64,
    ensures
        r == base64_byte(d@, k as int),
{
    let g: usize = 4 * (k / 3);
    if k % 3 == 0 {
        d[g] * 4 + d[g + 1] / 16
    } else if k % 3 == 1 {
        (d[g + 1] % 16) * 16 + d[g + 2] / 4
    } else {
        (d[g + 2] % 4) * 64 + d[g + 3]
    }
}

/// Reads the key of a voucher.
pub fn read_voucher_key(text: &str) -> (r: Option<[u8; 32]>)
    ensures
        match r {
            Some(k) => voucher_key(text@) == Some(k@),
            None => voucher_key(text@) is None,
        },
{
    let v = chars_of(text);
    let ghost s = unpadded(text@);
    let n: usize = if v.len() == 44 && v[43] == '=' {
        43
    } else {
        v.len()
    };
    if n != 43 {
        return None;
    }
    let mut d: Vec<u8> = Vec::new();
    let mut i: usize = 0;
    while i < 43
        invariant
            i <= 43,
            n == 43,
            s.len() == 43,
            v@ == text@,
            s == unpadded(text@),
            forall|j: int| 0 <= j < 43 ==> s[j] == v@[j],
            v@.len() >= 43,
            d@.len() == i,
            forall|j: int| 0 <= j < i ==> base64_digit(#[trigger] s[j]) is Some,
            forall|j: int| 0 <= j < i ==> #[trigger] d@[j] == base64_digit(s[j])->0 && d@[j] < 64,
        decreases 43 - i,
    {
        match read_base64_digit(v[i]) {
            Some(x) => {
                d.push(x);
            },
            None => {
                assert(base64_digit(s[i as int]) is None);
                return None;
            },
        }
        i += 1;
    }
    assert(d@ =~= base64_digits(s));
    if d[42] % 4 != 0 {
        return None;
    }
    let mut key: [u8; 32] = [0u8; 32];
    let mut k: usize = 0;
    while k < 32
        invariant
            k <= 32,
            d@.len() == 43,
            forall|j: int| 0 <= j < 43 ==> (#[trigger] d@[j]) < 64,
            forall|j: int| 0 <= j < k ==> key@[j] == base64_byte(d@, j),
        decreases 32 - k,
    {
        key[k] = read_base64_byte(&d, k);
        k += 1;
    }
    assert(key@ =~= Seq::new(32, |k: int| base64_byte(base64_digits(s), k)));
    Some(key)
}

/// The address at which a key can redeem a voucher, on a network with a tag or
/// without one.
pub uninterp spec fn redeem_address_of(key: Seq<u8>, tag: Option<Seq<u8>>) -> Seq<u8>;

/// Calls `pallas_addresses::byron::AddressPayload::new_redeem` and encodes the
/// address: it depends on the key and the tag alone.
#[verifier::external_body]
fn redeem_address(key: [u8; 32], tag: Option<Vec<u8>>) -> (r: Vec<u8>)
    ensures
        r@ == redeem_address_of(
            key@,
            match tag {
                Some(t) => Some(t@),
                None => None,
            },
        ),
{
    pallas_addresses::ByronAddress::from(pallas_addresses::byron::AddressPayload::new_redeem(key.into(), tag)).to_vec()
}

/// A number as it is encoded in an address: by itself below 24, otherwise
/// behind a byte that tells its length.
pub open spec fn number_bytes(n: u64) -> Seq<u8> {
    if n < 24 {
        seq![n as u8]
    } else if n < 0x100 {
        seq![0x18u8, n as u8]
    } else if n < 0x1_0000 {
        seq![0x19u8, (n / 0x100) as u8, (n % 0x100) as u8]
    } else if n < 0x1_0000_0000 {
        seq![
            0x1au8,
            (n / 0x100_0000) as u8,
            (n / 0x1_0000 % 0x100) as u8,
            (n / 0x100 % 0x100) as u8,
            (n % 0x100) as u8,
        ]
    } else {
        seq![
            0x1bu8,
            (n / 0x100_0000_0000_0000) as u8,
            (n / 0x1_0000_0000_0000 % 0x100) as u8,
            (n / 0x100_0000_0000 % 0x100) as u8,
            (n / 0x1_0000_0000 % 0x100) as u8,
            (n / 0x100_0000 % 0x100) as u8,
            (n / 0x1_0000 % 0x100) as u8,
            (n / 0x100 % 0x100) as u8,
            (n % 0x100) as u8,
        ]
    }
}

fn encode_number(n: u64) -> (r: Vec<u8>)
    ensures
        r@ == number_bytes(n),
{
    if n < 24 {
        vec![n as u8]
    } else if n < 0x100 {
        vec![0x18u8, n as u8]
    } else if n < 0x1_0000 {
        vec![0x19u8, (n / 0x100) as u8, (n % 0x100) as u8]
    } else if n < 0x1_0000_0000 {
        vec![
            0x1au8,
            (n / 0x100_0000) as u8,
            (n / 0x1_0000 % 0x100) as u8,
            (n / 0x100 % 0x100) as u8,
            (n % 0x100) as u8,
        ]
    } else {
        vec![
            0x1bu8,
            (n / 0x100_0000_0000_0000) as u8,
            (n / 0x1_0000_0000_0000 % 0x100) as u8,
            (n / 0x100_0000_0000 % 0x100) as u8,
            (n / 0x1_0000_0000 % 0x100) as u8,
            (n / 0x100_0000 % 0x100) as u8,
            (n / 0x1_0000 % 0x100) as u8,
            (n / 0x100 % 0x100) as u8,
            (n % 0x100) as u8,
        ]
    }
}

/// The tag of a network in its addresses: mainnet has none, other networks
/// their protocol magic.
pub open spec fn network_tag(magic: u64) -> Option<Seq<u8>> {
    if magic == 764824073 {
        None
    } else {
        Some(number_bytes(magic))
    }
}

/// The outputs of vouchers, at the addresses of their keys. Entries without a
/// key or an amount give none.
pub open spec fn voucher_outputs(l: Seq<(Seq<char>, Seq<char>)>, magic: u64) -> Seq<(Seq<u8>, u64)>
    decreases l.len(),
{
    if l.len() == 0 {
        Seq::empty()
    } else {
        let before = voucher_outputs(l.drop_last(), magic);
        match (voucher_key(l.last().0), parsed(l.last().1)) {
            (Some(key), Some(n)) => if n > 0 {
                before.push((redeem_address_of(key, network_tag(magic)), n))
            } else {
                before
            },
            _ => before,
        }
    }
}

/// The sum of the amounts that are numbers.
pub open spec fn amount_sum(l: Seq<(Seq<char>, Seq<char>)>) -> nat
    decreases l.len(),
{
    if l.len() == 0 {
        0
    } else {
        amount_sum(l.drop_last()) + match parsed(l.last().1) {
            Some(n) => n as nat,
            None => 0,
        }
    }
}

fn sum_amounts(list: &Table<String, String>, start: u64) -> (r: u64)
    ensures
        r == clamp(start + amount_sum(listing::<String, Seq<char>>(list@))),
{
    let ghost l = list.entries();
    let n: usize = list.len();
    proof {
        list.lemma_entries();
    }
    let mut total: u64 = start;
    let mut i: usize = 0;
    while i < n
        invariant
            i <= n,
            n == l.len(),
            l == list.entries(),
            total == clamp(start + amount_sum(l.take(i as int))),
        decreases n - i,
    {
        assert(l.take(i + 1).drop_last() =~= l.take(i as int));
        assert(l.take(i + 1).last() == l[i as int]);
        if let Some(n) = parse_u64(list.value_at(i).as_str()) {
            total = total.saturating_add(n);
        }
        i += 1;
    }
    assert(l.take(i as int) =~= l);
    total
}

impl ByronGenesis {
    /// The protocol magic.
    pub fn protocol_magic(&self) -> (r: u64)
        ensures
            r == self.protocol_consts.protocol_magic,
    {
        self.protocol_consts.protocol_magic
    }

    /// The security parameter k.
    pub fn security_param(&self) -> (r: u64)
        ensures
            r == self.protocol_consts.k,
    {
        self.protocol_consts.k
    }

    /// The slot duration in milliseconds; twenty seconds where it is not given
    /// or no number.
    pub fn slot_duration_ms(&self) -> (r: u64)
        ensures
            r == match parsed(self.block_version_data.slot_duration@) {
                Some(n) => n,
                None => 20_000,
            },
    {
        match parse_u64(self.block_version_data.slot_duration.as_str()) {
            Some(n) => n,
            None => 20_000,
        }
    }

    /// The outputs that the chain starts with: balances by their base58
    /// addresses, then vouchers (`avvmDistr`) at the addresses where their
    /// keys redeem them, both in ascending order of their names.
    pub fn initial_utxos(&self) -> (r: Vec<GenesisUtxoEntry>)
        ensures
            entry_models(r@) == genesis_outputs(listing::<String, Seq<char>>(self.non_avvm_balances@)) + voucher_outputs(
                listing::<String, Seq<char>>(self.avvm_distr@),
                self.protocol_consts.protocol_magic,
            ),
    {
        let ghost l = self.non_avvm_balances.entries();
        let n: usize = self.non_avvm_balances.len();
        proof {
            self.non_avvm_balances.lemma_entries();
        }
        let mut r: Vec<GenesisUtxoEntry> = Vec::new();
        assert(entry_models(r@) =~= Seq::empty());
        let mut i: usize = 0;
        while i < n
            invariant
                i <= n,
                n == l.len(),
                l == self.non_avvm_balances.entries(),
                entry_models(r@) == genesis_outputs(l.take(i as int)),
            decreases n - i,
        {
            assert(l.take(i + 1).drop_last() =~= l.take(i as int));
            assert(l.take(i + 1).last() == l[i as int]);
            if let Some(lovelace) = parse_u64(self.non_avvm_balances.value_at(i).as_str()) {
                if lovelace > 0 {
                    if let Some(address) = decode_base58(self.non_avvm_balances.key_at(i).as_str()) {
                        let ghost before = r@;
                        let ghost e = (address@, lovelace);
                        r.push(GenesisUtxoEntry { address, lovelace });
                        assert(entry_models(r@) =~= entry_models(before).push(e));
                    }
                }
            }
            i += 1;
        }
        assert(l.take(i as int) =~= l);
        let ghost first = entry_models(r@);
        let ghost m = self.avvm_distr.entries();
        let count: usize = self.avvm_distr.len();
        proof {
            self.avvm_distr.lemma_entries();
        }
        let magic: u64 = self.protocol_consts.protocol_magic;
        assert(first + voucher_outputs(m.take(0), magic) =~= first);
        let mut k: usize = 0;
        while k < count
            invariant
                k <= count,
                count == m.len(),
                m == self.avvm_distr.entries(),
                entry_models(r@) == first + voucher_outputs(m.take(k as int), magic),
            decreases count - k,
        {
            assert(m.take(k + 1).drop_last() =~= m.take(k as int));
            assert(m.take(k + 1).last() == m[k as int]);
            if let Some(key) = read_voucher_key(self.avvm_distr.key_at(k).as_str()) {
                if let Some(lovelace) = parse_u64(self.avvm_distr.value_at(k).as_str()) {
                    if lovelace > 0 {
                        let tag: Option<Vec<u8>> = if magic == 764824073 {
                            None
                        } else {
                            Some(encode_number(magic))
                        };
                        let address = redeem_address(key, tag);
                        let ghost before = r@;
                        let ghost e = (address@, lovelace);
                        r.push(GenesisUtxoEntry { address, lovelace });
                        assert(entry_models(r@) =~= entry_models(before).push(e));
                        assert(entry_models(r@) =~= first + voucher_outputs(m.take(k + 1), magic));
                    }
                }
            }
            k += 1;
        }
        assert(m.take(k as int) =~= m);
        r
    }

    /// All lovelace in genesis outputs.
    pub fn total_genesis_lovelace(&self) -> (r: u64)
        ensures
            r == clamp(
                (amount_sum(listing::<String, Seq<char>>(self.non_avvm_balances@)) + amount_sum(
                    listing::<String, Seq<char>>(self.avvm_distr@),
                )) as int,
            ),
    {
        let first: u64 = sum_amounts(&self.non_avvm_balances, 0);
        sum_amounts(&self.avvm_distr, first)
    }
}

// ---- Shelley ----

/// Shelley genesis.
pub struct ShelleyGenesis {
    pub system_start: String,
    pub network_magic: u64,
    pub network_id: String,
    /// Active slots coefficient (f).
    pub active_slots_coeff: Ratio,
    /// Security parameter (k).
    pub security_param: u64,
    pub epoch_length: u64,
    pub slots_per_kes_period: u64,
    pub max_kes_evolutions: u64,
    pub slot_length: u64,
    pub update_quorum: u64,
    pub max_lovelace_supply: u64,
    pub protocol_params: ShelleyProtocolParams,
    /// Initial funds: address in hexadecimal, lovelace.
    pub initial_funds: Table<String, u64>,
}

/// Protocol version.
#[derive(Debug, Clone, Copy)]
pub struct ShelleyProtocolVersion {
    pub major: u64,
    pub minor: u64,
}

/// Shelley protocol parameters.
#[derive(Debug, Clone, Copy)]
pub struct ShelleyProtocolParams {
    pub min_fee_a: Option<u64>,
    pub min_fee_b: Option<u64>,
    pub max_block_body_size: Option<u64>,
    pub max_tx_size: Option<u64>,
    pub max_block_header_size: Option<u64>,
    pub key_deposit: Option<u64>,
    pub pool_deposit: Option<u64>,
    pub e_max: Option<u64>,
    pub n_opt: Option<u64>,
    pub a0: Option<Ratio>,
    pub rho: Option<Ratio>,
    pub tau: Option<Ratio>,
    pub decentralisation_param: Option<Ratio>,
    pub min_u_tx_o_value: Option<u64>,
    pub min_pool_cost: Option<u64>,
    pub protocol_version: Option<ShelleyProtocolVersion>,
}

pub open spec fn funds_sum(m: Map<Seq<char>, u64>) -> nat {
    map_sum(m, |address: Seq<char>, n: u64| n as nat)
}

proof fn lemma_funds_prefix(l: Seq<(Seq<char>, u64)>, f: spec_fn(Seq<char>, u64) -> nat, i: int)
    requires
        0 <= i <= l.len(),
    ensures
        seq_sum(l.take(i), f) <= seq_sum(l, f),
    decreases l.len() - i,
{
    if i == l.len() {
        assert(l.take(i) =~= l);
    } else {
        assert(l.take(i + 1).drop_last() =~= l.take(i));
        lemma_funds_prefix(l, f, i + 1);
    }
}

impl ShelleyGenesis {
    /// All initial funds.
    pub fn total_initial_funds(&self) -> (r: u64)
        requires
            funds_sum(self.initial_funds@) <= u64::MAX,
        ensures
            r == funds_sum(self.initial_funds@),
    {
        let ghost f = |address: Seq<char>, n: u64| n as nat;
        let ghost l = self.initial_funds.entries();
        let n: usize = self.initial_funds.len();
        proof {
            self.initial_funds.lemma_sum(f);
        }
        let mut total: u64 = 0;
        let mut i: usize = 0;
        while i < n
            invariant
                i <= n,
                n == l.len(),
                l == self.initial_funds.entries(),
                f == (|address: Seq<char>, n: u64| n as nat),
                seq_sum(l, f) <= u64::MAX,
                total == seq_sum(l.take(i as int), f),
            decreases n - i,
        {
            proof {
                assert(l.take(i + 1).drop_last() =~= l.take(i as int));
                assert(l.take(i + 1).last() == l[i as int]);
                lemma_funds_prefix(l, f, i + 1);
            }
            total += *self.initial_funds.value_at(i);
            i += 1;
        }
        assert(l.take(i as int) =~= l);
        total
    }

    /// The maximal supply without the initial funds.
    pub fn initial_reserves(&self) -> (r: u64)
        requires
            funds_sum(self.initial_funds@) <= u64::MAX,
        ensures
            r == sat_sub(self.max_lovelace_supply, funds_sum(self.initial_funds@) as u64),
    {
        self.max_lovelace_supply.saturating_sub(self.total_initial_funds())
    }
}

// ---- Alonzo ----

/// Alonzo genesis.
pub struct AlonzoGenesis {
    pub lovelace_per_utxo_word: Option<u64>,
    pub execution_prices: Option<ExecutionPrices>,
    pub max_tx_ex_units: Option<ExUnits>,
    pub max_block_ex_units: Option<ExUnits>,
    pub max_value_size: Option<u64>,
    pub collateral_percentage: Option<u64>,
    pub max_collateral_inputs: Option<u64>,
    /// Cost models by language.
    pub cost_models: Table<String, Vec<i64>>,
}

/// Prices of execution units.
#[derive(Debug, Clone, Copy)]
pub struct ExecutionPrices {
    pub pr_mem: PriceRational,
    pub pr_steps: PriceRational,
}

/// A price.
#[derive(Debug, Clone, Copy)]
pub struct PriceRational {
    pub numerator: u64,
    pub denominator: u64,
}

/// Execution units.
#[derive(Debug, Clone, Copy)]
pub struct ExUnits {
    pub ex_units_mem: u64,
    pub ex_units_steps: u64,
}

// ---- Conway ----

/// Conway genesis: governance parameters, the first committee and the first
/// constitution.
pub struct ConwayGenesis {
    pub pool_voting_thresholds: Option<PoolVotingThresholds>,
    pub d_rep_voting_thresholds: Option<DRepVotingThresholds>,
    pub committee_min_size: Option<u64>,
    pub committee_max_term_length: Option<u64>,
    pub gov_action_lifetime: Option<u64>,
    pub gov_action_deposit: Option<u64>,
    pub d_rep_deposit: Option<u64>,
    pub d_rep_activity: Option<u64>,
    pub committee: Option<Committee>,
    pub constitution: Option<Constitution>,
}

/// Thresholds for pools.
#[derive(Debug, Clone, Copy)]
pub struct PoolVotingThresholds {
    pub motion_no_confidence: Ratio,
    pub committee_normal: Ratio,
    pub committee_no_confidence: Ratio,
    pub hard_fork_initiation: Ratio,
    pub pp_security_group: Ratio,
}

/// Thresholds for DReps.
#[derive(Debug, Clone, Copy)]
pub struct DRepVotingThresholds {
    pub motion_no_confidence: Ratio,
    pub committee_normal: Ratio,
    pub committee_no_confidence: Ratio,
    pub update_to_constitution: Ratio,
    pub hard_fork_initiation: Ratio,
    pub pp_network_group: Ratio,
    pub pp_economic_group: Ratio,
    pub pp_technical_group: Ratio,
    pub pp_gov_group: Ratio,
    pub treasury_withdrawal: Ratio,
}

/// A fraction of a genesis file.
#[derive(Debug, Clone, Copy)]
pub struct Rational {
    pub numerator: u64,
    pub denominator: u64,
}

/// The first committee: credentials and the epochs in which their terms end.
pub struct Committee {
    pub members: Table<String, u64>,
    pub threshold: Option<Rational>,
}

/// The first constitution.
#[derive(Debug, Clone)]
pub struct Constitution {
    pub anchor: Option<Anchor>,
    pub script: Option<String>,
}

/// Where the text of the constitution is, and its hash in hexadecimal.
#[derive(Debug, Clone)]
pub struct Anchor {
    pub url: String,
    pub data_hash: String,
}

// ---- the first ledger ----

/// What the ledger takes from Byron genesis: all its lovelace, its hash and
/// its security parameter.
#[derive(Debug, Clone, Copy)]
pub struct ByronStart {
    pub total_lovelace: u64,
    pub hash: [u8; 32],
    pub security_param: u64,
}

/// Byron genesis takes its outputs from the reserves; a Byron epoch has ten
/// times k slots.
pub open spec fn byron_started(s: LedgerModel, b: ByronStart) -> LedgerModel {
    LedgerModel {
        reserves: Lovelace(sat_sub(s.reserves.0, b.total_lovelace)),
        genesis_hash: b.hash,
        byron_epoch_length: (10 * b.security_param) as u64,
        ..s
    }
}

/// The least number of slots that is no smaller than `c * k / f`.
pub open spec fn window(c: int, k: u64, f: Ratio) -> u64 {
    clamp((c * k * f.denominator + f.numerator - 1) / (f.numerator as int))
}

/// The parameters after Shelley genesis.
pub open spec fn shelley_params(p: ProtocolParameters, g: ShelleyGenesis) -> ProtocolParameters {
    let n = g.protocol_params;
    ProtocolParameters {
        rho: or_keep(n.rho, p.rho),
        tau: or_keep(n.tau, p.tau),
        decentralization: or_keep(n.decentralisation_param, p.decentralization),
        a0: or_keep(n.a0, p.a0),
        n_opt: or_keep(n.n_opt, p.n_opt),
        min_fee_a: or_keep(n.min_fee_a, p.min_fee_a),
        min_fee_b: or_keep(n.min_fee_b, p.min_fee_b),
        pool_deposit: or_keep(n.pool_deposit, p.pool_deposit),
        key_deposit: or_keep(n.key_deposit, p.key_deposit),
        min_pool_cost: or_keep(n.min_pool_cost, p.min_pool_cost),
        min_pool_cost_lovelace: or_keep(n.min_pool_cost, p.min_pool_cost_lovelace),
        active_slot_coefficient: g.active_slots_coeff,
        protocol_version_major: match n.protocol_version {
            Some(v) => v.major,
            None => p.protocol_version_major,
        },
        protocol_version_minor: match n.protocol_version {
            Some(v) => v.minor,
            None => p.protocol_version_minor,
        },
        ..p
    }
}

/// Shelley genesis sets the epoch length, the quorum, the parameters, and the
/// stability windows of two, three and four k/f slots.
pub open spec fn shelley_started(s: LedgerModel, g: ShelleyGenesis) -> LedgerModel {
    let k = g.security_param;
    let f = g.active_slots_coeff;
    let t = LedgerModel {
        epoch_length: g.epoch_length,
        update_quorum: g.update_quorum,
        protocol_params: shelley_params(s.protocol_params, g),
        ..s
    };
    if f.numerator > 0 {
        LedgerModel {
            stability_window_2kf: window(2, k, f),
            stability_window_3kf: window(3, k, f),
            randomness_stabilisation_window: window(4, k, f),
            ..t
        }
    } else {
        t
    }
}

/// How the Shelley era starts: with the chain, at a fixed epoch, or by a
/// proposal on the chain that has not been seen yet.
pub open spec fn fork_planned(s: LedgerModel, at: Option<u64>) -> LedgerModel {
    match at {
        Some(n) => if n == 0 {
            s
        } else {
            LedgerModel { has_byron: true, shelley_transition_epoch: n, ..s }
        },
        None => if s.byron_epoch_length > 0 {
            LedgerModel { has_byron: true, shelley_transition_epoch: u64::MAX, ..s }
        } else {
            s
        },
    }
}

/// A snapshot without any stake.
pub open spec fn nothing_staked() -> SnapshotModel {
    SnapshotModel {
        epoch: EpochNo(0),
        delegations: Map::empty(),
        pool_stake: Map::empty(),
        pool_params: Map::empty(),
        stake_distribution: Map::empty(),
        epoch_blocks_by_pool: Map::empty(),
        script_stake_credentials: Set::empty(),
    }
}

/// The ledger before any reward update.
pub open spec fn configured(byron: Option<ByronStart>, shelley: Option<ShelleyGenesis>, fork: Option<u64>) -> LedgerModel {
    let s = initial_ledger(crate::ledger::primitives::mainnet_parameters());
    let t = match byron {
        Some(b) => byron_started(s, b),
        None => s,
    };
    let u = match shelley {
        Some(g) => shelley_started(t, g),
        None => t,
    };
    fork_planned(u, fork)
}

/// The ledger that a chain starts with. One that starts in the Shelley era
/// has a reward update to apply at its first epoch boundary.
pub open spec fn genesis_ledger(byron: Option<ByronStart>, shelley: Option<ShelleyGenesis>, fork: Option<u64>) -> LedgerModel {
    let s = configured(byron, shelley, fork);
    if s.has_byron {
        s
    } else {
        LedgerModel {
            pending_reward_update: Some(reward_update(s, nothing_staked(), Lovelace(0), s.protocol_params)),
            ..s
        }
    }
}

/// The least number of slots that is no smaller than `c * k / f`.
pub fn stability_window(c: u64, k: u64, f: &Ratio) -> (r: u64)
    requires
        f.numerator > 0,
    ensures
        r == window(c as int, k, *f),
{
    let product = Int::from_u64(c).times(&Int::from_u64(k)).times(&Int::from_u64(f.denominator));
    let above = product.plus(&Int::from_u64(f.numerator)).minus(&Int::from_u64(1));
    proof {
        let d = f.denominator;
        assert(c * k >= 0) by (nonlinear_arith)
            requires
                c >= 0,
                k >= 0,
        ;
        assert((c * k) * d >= 0) by (nonlinear_arith)
            requires
                c * k >= 0,
                d >= 0,
        ;
        vstd::arithmetic::div_mod::lemma_div_pos_is_pos(above@, f.numerator as int);
    }
    match above.quotient(&Int::from_u64(f.numerator)).to_u64() {
        Some(x) => x,
        None => u64::MAX,
    }
}

/// Whether the genesis files give numbers that the ledger can hold: a Byron
/// epoch, and the sums of the first reward update, fit in `u64`.
pub open spec fn genesis_fits(byron: Option<ByronStart>, shelley: Option<ShelleyGenesis>, fork: Option<u64>) -> bool {
    let s = configured(byron, shelley, fork);
    &&& byron matches Some(b) ==> 10 * b.security_param <= u64::MAX
    &&& s.has_byron || rewards_fit(s, nothing_staked(), Lovelace(0), s.protocol_params)
}

/// Sets up the ledger from what the genesis files say, if it can hold their
/// numbers. `fork` is the epoch at which the Shelley hard fork is forced,
/// where it is.
pub fn init_ledger(byron: Option<ByronStart>, shelley: &Option<ShelleyGenesis>, fork: Option<u64>) -> (r: Option<
    LedgerState,
>)
    ensures
        match r {
            Some(l) => genesis_fits(byron, *shelley, fork) && l@ == genesis_ledger(byron, *shelley, fork),
            None => !genesis_fits(byron, *shelley, fork),
        },
{
    let mut state = LedgerState::new(ProtocolParameters::default());
    if let Some(b) = byron {
        if b.security_param > u64::MAX / 10 {
            return None;
        }
        state.seed_genesis_utxos(b.total_lovelace);
        state.set_genesis_hash(b.hash);
        state.byron_epoch_length = 10 * b.security_param;
    }
    if let Some(g) = shelley {
        state.set_epoch_length(g.epoch_length);
        state.set_update_quorum(g.update_quorum);
        let p = &g.protocol_params;
        let version: Option<(u64, u64)> = match p.protocol_version {
            Some(v) => Some((v.major, v.minor)),
            None => None,
        };
        state.update_protocol_params_from_genesis(
            p.rho,
            p.tau,
            p.decentralisation_param,
            p.a0,
            p.n_opt,
            p.min_fee_a,
            p.min_fee_b,
            p.pool_deposit,
            p.key_deposit,
            p.min_pool_cost,
            Some(g.active_slots_coeff),
            version,
        );
        if g.active_slots_coeff.numerator > 0 {
            state.stability_window_2kf = stability_window(2, g.security_param, &g.active_slots_coeff);
            state.stability_window_3kf = stability_window(3, g.security_param, &g.active_slots_coeff);
            state.randomness_stabilisation_window = stability_window(4, g.security_param, &g.active_slots_coeff);
        }
    }
    match fork {
        Some(n) => {
            if n != 0 {
                state.has_byron = true;
                state.shelley_transition_epoch = n;
            }
        },
        None => {
            if state.byron_epoch_length > 0 {
                state.has_byron = true;
                state.shelley_transition_epoch = u64::MAX;
            }
        },
    }
    assert(state@ =~= configured(byron, *shelley, fork));
    if !state.has_byron {
        let empty = StakeSnapshot {
            epoch: EpochNo(0),
            delegations: Table::new(),
            pool_stake: Table::new(),
            pool_params: Table::new(),
            stake_distribution: Table::new(),
            epoch_blocks_by_pool: Table::new(),
            script_stake_credentials: KeySet::new(),
        };
        assert(empty.model() =~= nothing_staked());
        let pp: ProtocolParameters = state.protocol_params;
        match state.checked_rewards(&empty, Lovelace(0), &pp) {
            Some(rupd) => {
                state.pending_reward_update = Some(rupd);
            },
            None => {
                return None;
            },
        }
    }
    assert(state@ =~= genesis_ledger(byron, *shelley, fork));
    Some(state)
}

} // verus!
