//! Challenge seeds: a timestamp together with the keyed tag that vouches for
//! it, and the secret key under which seeds are issued and authenticated.

use vstd::prelude::*;
use vstd::slice::slice_to_vec;
use vstd::string::*;
use crate::clock;
use crate::decimal::{decimal_bytes, decimal_text};
use crate::error::Error;
use crate::hex_text::{
    hex_decode,
    hex_decoding,
    hex_encode,
    hex_encoding,
    hex_value,
    is_hex,
    is_hex_char,
    lemma_hex_round_trip,
};
use crate::mac::{blake2b_mac, keyed_mac, mac_accepts, MAX_KEY_BYTES};

verus! {

/// A challenge seed: the moment of issue, in seconds since the epoch, and the
/// hexadecimal text of the tag computed over it.
#[derive(Clone, Debug, PartialEq, Eq)]
pub struct Seed {
    pub timestamp: i32,
    pub seed: String,
}

/// What a seed holds, as plain values.
pub struct SeedView {
    pub timestamp: i32,
    pub text: Seq<char>,
}

impl View for Seed {
    type V = SeedView;

    open spec fn view(&self) -> SeedView {
        SeedView { timestamp: self.timestamp, text: self.seed@ }
    }
}

/// The bytes over which a seed's tag is computed: its timestamp in decimal.
pub open spec fn seed_message(timestamp: i32) -> Seq<u8> {
    decimal_text(timestamp as int)
}

/// The tag that vouches for `timestamp` under `key`.
pub open spec fn seed_tag(key: Seq<u8>, timestamp: i32) -> Seq<u8> {
    blake2b_mac(key, seed_message(timestamp))
}

/// The text of the seed issued for `timestamp` under `key`.
pub open spec fn issued_text(key: Seq<u8>, timestamp: i32) -> Seq<char> {
    hex_encoding(seed_tag(key, timestamp))
}

/// Whether `text` vouches for `timestamp` under `key`: it is hexadecimal and
/// stands for the tag of the timestamp.
pub open spec fn vouches_for(key: Seq<u8>, timestamp: i32, text: Seq<char>) -> bool {
    is_hex(text) && hex_decoding(text) == seed_tag(key, timestamp)
}

/// Whether `seed` is authentic under `key`.
pub open spec fn is_authentic(seed: SeedView, key: Seq<u8>) -> bool {
    vouches_for(key, seed.timestamp, seed.text)
}

/// The key used where none is configured. It is public knowledge, and fit for
/// trials only.
pub open spec fn fallback_key() -> Seq<u8> {
    "my key".spec_bytes()
}

/// The signed 32-bit timestamp that `seconds` since the epoch are cut down to:
/// the low 32 bits, read as a two's-complement number.
pub open spec fn timestamp_of(seconds: u64) -> i32 {
    let low = seconds as int % 0x1_0000_0000;
    if low < 0x8000_0000 {
        low as i32
    } else {
        (low - 0x1_0000_0000) as i32
    }
}

/// A secret key that the code accepts: at most 64 bytes.
pub struct SecretKey {
    bytes: Vec<u8>,
}

impl View for SecretKey {
    type V = Seq<u8>;

    closed spec fn view(&self) -> Seq<u8> {
        self.bytes@
    }
}

impl SecretKey {
    #[verifier::type_invariant]
    spec fn within_limit(&self) -> bool {
        self.bytes@.len() <= MAX_KEY_BYTES
    }

    /// Takes `bytes` as a key; a key of more than 64 bytes is a configuration
    /// error.
    pub fn new(bytes: &[u8]) -> (made: Result<SecretKey, Error>)
        ensures
            bytes@.len() <= MAX_KEY_BYTES ==> made is Ok && made->Ok_0@ == bytes@,
            bytes@.len() > MAX_KEY_BYTES ==> made == Err::<SecretKey, Error>(Error::Config),
    {
        if bytes.len() > MAX_KEY_BYTES {
            return Err(Error::Config);
        }
        Ok(SecretKey { bytes: slice_to_vec(bytes) })
    }

    /// The configured key, or the fallback key where none is configured.
    pub fn configured_or_fallback(configured: Option<&str>) -> (made: Result<SecretKey, Error>)
        ensures
            configured matches Some(text) ==> {
                &&& text.spec_bytes().len() <= MAX_KEY_BYTES ==> made is Ok && made->Ok_0@
                    == text.spec_bytes()
                &&& text.spec_bytes().len() > MAX_KEY_BYTES ==> made == Err::<SecretKey, Error>(
                    Error::Config,
                )
            },
            configured is None ==> made is Ok && made->Ok_0@ == fallback_key(),
    {
        match configured {
            Some(text) => SecretKey::new(text.as_bytes()),
            None => {
                let fallback = "my key";
                proof {
                    reveal_strlit("my key");
                    vstd::utf8::is_ascii_chars_encode_utf8(fallback@);
                }
                SecretKey::new(fallback.as_bytes())
            },
        }
    }

    /// The bytes of the key.
    pub fn as_bytes(&self) -> (bytes: &[u8])
        ensures
            bytes@ == self@,
            bytes@.len() <= MAX_KEY_BYTES,
    {
        proof {
            use_type_invariant(self);
        }
        self.bytes.as_slice()
    }
}

/// Issues the seed for `timestamp` under `key`: the tag of the timestamp's
/// decimal text, written in hexadecimal.
pub fn issue(timestamp: i32, key: &SecretKey) -> (seed: Seed)
    ensures
        seed.timestamp == timestamp,
        seed.seed@ == issued_text(key@, timestamp),
        is_authentic(seed@, key@),
{
    proof {
        lemma_issued_seed_authenticates(key@, timestamp);
    }
    let message = decimal_bytes(timestamp);
    match keyed_mac(key.as_bytes(), message.as_slice()) {
        Some(tag) => Seed { timestamp, seed: hex_encode(tag.as_slice()) },
        None => vstd::pervasive::unreached(),
    }
}

/// Whether `seed` is authentic under `key`: its text is hexadecimal and
/// stands for the tag of its timestamp. A malformed text is not authentic.
pub fn authenticate(seed: &Seed, key: &SecretKey) -> (authentic: bool)
    ensures
        authentic == is_authentic(seed@, key@),
{
    match hex_decode(seed.seed.as_str()) {
        Some(code) => {
            let message = decimal_bytes(seed.timestamp);
            mac_accepts(key.as_bytes(), message.as_slice(), code.as_slice())
        },
        None => false,
    }
}

/// Cuts `seconds` since the epoch down to a signed 32-bit timestamp.
pub fn timestamp_from_seconds(seconds: u64) -> (timestamp: i32)
    ensures
        timestamp == timestamp_of(seconds),
{
    let low: u64 = seconds % 0x1_0000_0000;
    if low < 0x8000_0000 {
        low as i32
    } else {
        (low as i64 - 0x1_0000_0000) as i32
    }
}

/// Issues the seed for the moment `seconds` after the epoch.
pub fn seed_at(seconds: u64, key: &SecretKey) -> (seed: Seed)
    ensures
        seed.timestamp == timestamp_of(seconds),
        seed.seed@ == issued_text(key@, timestamp_of(seconds)),
        is_authentic(seed@, key@),
{
    issue(timestamp_from_seconds(seconds), key)
}

/// Issues a seed for the present moment, or `None` where the clock reads a
/// moment before the epoch. Whatever the clock reads, a seed that comes back is
/// the one issued for its own timestamp, and so authentic under `key`.
pub fn get_seed(key: &SecretKey) -> (issued: Option<Seed>)
    ensures
        issued matches Some(seed) ==> seed.seed@ == issued_text(key@, seed.timestamp)
            && is_authentic(seed@, key@),
{
    let moment = clock::now();
    let reading = match clock::since_epoch(&moment) {
        Some(span) => Some(clock::whole_seconds(&span)),
        None => None,
    };
    seed_for_reading(reading, key)
}

/// The seed for what the clock read: the seed issued for the seconds since
/// the epoch, or `None` where the clock read a moment before the epoch.
pub fn seed_for_reading(reading: Option<u64>, key: &SecretKey) -> (issued: Option<Seed>)
    ensures
        reading is None ==> issued is None,
        reading matches Some(seconds) ==> issued is Some && issued->Some_0.timestamp
            == timestamp_of(seconds) && issued->Some_0.seed@ == issued_text(
            key@,
            timestamp_of(seconds),
        ) && is_authentic(issued->Some_0@, key@),
{
    match reading {
        Some(seconds) => Some(seed_at(seconds, key)),
        None => None,
    }
}

/// A seed authenticates under the key it was issued with.
pub proof fn lemma_issued_seed_authenticates(key: Seq<u8>, timestamp: i32)
    ensures
        vouches_for(key, timestamp, issued_text(key, timestamp)),
{
    lemma_hex_round_trip(seed_tag(key, timestamp));
}

/// A seed issued under one key does not authenticate under another key,
/// provided the two keys give the timestamp different tags.
pub proof fn lemma_other_key_rejected(key1: Seq<u8>, key2: Seq<u8>, timestamp: i32)
    requires
        key1 != key2,
        seed_tag(key1, timestamp) != seed_tag(key2, timestamp),
    ensures
        !vouches_for(key2, timestamp, issued_text(key1, timestamp)),
{
    lemma_hex_round_trip(seed_tag(key1, timestamp));
}

/// An authentic seed whose text has one digit replaced by a digit of another
/// value, or by a character that is no digit, is authentic no more.
pub proof fn lemma_altered_digit_rejected(
    key: Seq<u8>,
    timestamp: i32,
    text: Seq<char>,
    at: int,
    digit: char,
)
    requires
        vouches_for(key, timestamp, text),
        0 <= at < text.len(),
        !is_hex_char(digit) || hex_value(digit) != hex_value(text[at]),
    ensures
        !vouches_for(key, timestamp, text.update(at, digit)),
{
    let altered = text.update(at, digit);
    if is_hex(altered) {
        let pair = at / 2;
        assert(altered[at] == digit);
        assert(is_hex_char(altered[2 * pair]) && is_hex_char(altered[2 * pair + 1]));
        assert(is_hex_char(text[2 * pair]) && is_hex_char(text[2 * pair + 1]));
        assert(hex_decoding(altered)[pair] != hex_decoding(text)[pair]) by {
            if at == 2 * pair {
                assert(altered[2 * pair + 1] == text[2 * pair + 1]);
            } else {
                assert(at == 2 * pair + 1);
                assert(altered[2 * pair] == text[2 * pair]);
            }
        }
    }
}

} // verus!
