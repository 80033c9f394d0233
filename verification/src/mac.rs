//! The keyed message-authentication code behind every seed: BLAKE2b with a
//! key, through the `blake2` crate.

use vstd::prelude::*;
use blake2::crypto_mac::Mac;
use blake2::Blake2b;

verus! {

/// The longest key, in bytes, that the code accepts.
pub const MAX_KEY_BYTES: usize = 64;

/// The 64-byte tag that BLAKE2b, keyed with `key`, computes over `message`.
pub uninterp spec fn blake2b_mac(key: Seq<u8>, message: Seq<u8>) -> Seq<u8>;

/// Computes the tag of `message` under `key`, or `None` where the key is too
/// long.
///
/// Trusted: `Blake2b::new_varkey` refuses exactly the keys of more than 64
/// bytes; `input` then `result` give the tag of the bytes fed, which is a
/// function of key and message alone.
#[verifier::external_body]
pub(crate) fn keyed_mac(key: &[u8], message: &[u8]) -> (tag: Option<Vec<u8>>)
    ensures
        tag is Some <==> key@.len() <= MAX_KEY_BYTES,
        tag matches Some(t) ==> t@ == blake2b_mac(key@, message@),
{
    match Blake2b::new_varkey(key) {
        Ok(mut hasher) => {
            hasher.input(message);
            Some(hasher.result().code().to_vec())
        },
        Err(_) => None,
    }
}

/// Whether `code` is the tag of `message` under `key`, compared in constant
/// time; `false` where the key is too long.
///
/// Trusted: `Mac::verify` computes the tag as `result` does and accepts `code`
/// exactly when it has the tag's length and the tag's bytes.
#[verifier::external_body]
pub(crate) fn mac_accepts(key: &[u8], message: &[u8], code: &[u8]) -> (accepted: bool)
    ensures
        accepted == (key@.len() <= MAX_KEY_BYTES && code@ == blake2b_mac(key@, message@)),
{
    match Blake2b::new_varkey(key) {
        Ok(mut hasher) => {
            hasher.input(message);
            hasher.verify(code).is_ok()
        },
        Err(_) => false,
    }
}

} // verus!
