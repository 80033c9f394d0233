//! The replica identity: the 32 bytes, taken from a seed's text, that
//! parameterise the encoding of a replica.

use vstd::prelude::*;
use crate::hex_text::{hex_decode, hex_decoding, is_hex};
use crate::seed::SeedView;

verus! {

/// Number of bytes in a replica identity.
pub const REPLICA_ID_BYTES: usize = 32;

/// The replica identity made of `raw`: its first 32 bytes, or, where `raw` is
/// shorter, zeros and then the bytes of `raw`, so that they end the identity.
pub open spec fn replica_id_of(raw: Seq<u8>) -> Seq<u8> {
    Seq::new(
        REPLICA_ID_BYTES as nat,
        |i: int|
            if raw.len() >= REPLICA_ID_BYTES {
                raw[i]
            } else if i < REPLICA_ID_BYTES - raw.len() {
                0u8
            } else {
                raw[i - (REPLICA_ID_BYTES - raw.len())]
            },
    )
}

/// The replica identity that a seed stands for: the one made of the bytes that
/// its text writes.
pub open spec fn replica_id_for(seed: SeedView) -> Seq<u8> {
    replica_id_of(hex_decoding(seed.text))
}

/// Cuts or fills `raw` to the width of a replica identity.
pub fn fit_replica_id(raw: &[u8]) -> (id: Vec<u8>)
    ensures
        id@ == replica_id_of(raw@),
{
    let fill: usize = if raw.len() >= REPLICA_ID_BYTES {
        0
    } else {
        REPLICA_ID_BYTES - raw.len()
    };
    let mut id: Vec<u8> = Vec::new();
    let mut i: usize = 0;
    while i < REPLICA_ID_BYTES
        invariant
            i <= REPLICA_ID_BYTES,
            fill <= REPLICA_ID_BYTES,
            raw@.len() >= REPLICA_ID_BYTES ==> fill == 0,
            raw@.len() < REPLICA_ID_BYTES ==> fill == REPLICA_ID_BYTES - raw@.len(),
            id@.len() == i,
            forall|k: int| 0 <= k < i ==> id@[k] == replica_id_of(raw@)[k],
        decreases REPLICA_ID_BYTES - i,
    {
        if i < fill {
            id.push(0u8);
        } else {
            id.push(raw[i - fill]);
        }
        i += 1;
    }
    assert(id@ =~= replica_id_of(raw@));
    id
}

/// The replica identity that the text `raw` stands for, or `None` where `raw`
/// is not hexadecimal.
pub fn replica_id_from_hex(raw: &str) -> (id: Option<Vec<u8>>)
    ensures
        id is Some <==> is_hex(raw@),
        id matches Some(bytes) ==> bytes@ == replica_id_of(hex_decoding(raw@)),
{
    match hex_decode(raw) {
        Some(bytes) => Some(fit_replica_id(bytes.as_slice())),
        None => None,
    }
}

/// The replica identity that the hexadecimal text `raw` stands for.
pub fn id_from_str(raw: &str) -> (id: Vec<u8>)
    requires
        is_hex(raw@),
    ensures
        id@ == replica_id_of(hex_decoding(raw@)),
{
    match replica_id_from_hex(raw) {
        Some(id) => id,
        None => vstd::pervasive::unreached(),
    }
}

} // verus!
