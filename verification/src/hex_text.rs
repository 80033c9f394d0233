//! Hexadecimal text: what it means for a string to be hex, which bytes it
//! stands for, and the two calls into the `hex` crate that produce and read it.

use vstd::prelude::*;

verus! {

/// The lower-case hexadecimal digit for a value below sixteen.
pub open spec fn hex_digit(n: int) -> char
    recommends
        0 <= n < 16,
{
    if n < 10 {
        (('0' as u8) + n) as u8 as char
    } else {
        (('a' as u8) + (n - 10)) as u8 as char
    }
}

/// Whether `c` is one of `0-9`, `a-f`, `A-F`.
pub open spec fn is_hex_char(c: char) -> bool {
    ||| '0' <= c <= '9'
    ||| 'a' <= c <= 'f'
    ||| 'A' <= c <= 'F'
}

/// The value of a hexadecimal digit, in either case.
pub open spec fn hex_value(c: char) -> int
    recommends
        is_hex_char(c),
{
    if '0' <= c <= '9' {
        (c as u8) - ('0' as u8)
    } else if 'a' <= c <= 'f' {
        (c as u8) - ('a' as u8) + 10
    } else {
        (c as u8) - ('A' as u8) + 10
    }
}

/// Whether `s` is hexadecimal text: an even number of hexadecimal digits.
pub open spec fn is_hex(s: Seq<char>) -> bool {
    &&& s.len() % 2 == 0
    &&& forall|i: int| 0 <= i < s.len() ==> is_hex_char(#[trigger] s[i])
}

/// The lower-case hexadecimal text of `bytes`: two digits per byte, high
/// half first.
pub open spec fn hex_encoding(bytes: Seq<u8>) -> Seq<char> {
    Seq::new(
        2 * bytes.len(),
        |i: int|
            if i % 2 == 0 {
                hex_digit(bytes[i / 2] as int / 16)
            } else {
                hex_digit(bytes[i / 2] as int % 16)
            },
    )
}

/// The bytes that hexadecimal text stands for: each pair of digits gives one
/// byte, high half first.
pub open spec fn hex_decoding(s: Seq<char>) -> Seq<u8>
    recommends
        is_hex(s),
{
    Seq::new(
        (s.len() / 2) as nat,
        |i: int| (hex_value(s[2 * i]) * 16 + hex_value(s[2 * i + 1])) as u8,
    )
}

/// Every digit that `hex_digit` writes is read back by `hex_value`.
pub proof fn lemma_hex_digit_value(n: int)
    requires
        0 <= n < 16,
    ensures
        is_hex_char(hex_digit(n)),
        hex_value(hex_digit(n)) == n,
{
}

/// Decoding undoes encoding: the text written for `bytes` is hexadecimal and
/// stands for `bytes` again.
pub proof fn lemma_hex_round_trip(bytes: Seq<u8>)
    ensures
        is_hex(hex_encoding(bytes)),
        hex_encoding(bytes).len() == 2 * bytes.len(),
        hex_decoding(hex_encoding(bytes)) == bytes,
{
    let s = hex_encoding(bytes);
    assert forall|i: int| 0 <= i < s.len() implies is_hex_char(#[trigger] s[i]) by {
        let b = bytes[i / 2] as int;
        lemma_hex_digit_value(b / 16);
        lemma_hex_digit_value(b % 16);
    }
    let back = hex_decoding(s);
    assert(back.len() == bytes.len());
    assert forall|k: int| 0 <= k < bytes.len() implies back[k] == bytes[k] by {
        let b = bytes[k] as int;
        lemma_hex_digit_value(b / 16);
        lemma_hex_digit_value(b % 16);
        assert((2 * k) / 2 == k);
        assert((2 * k + 1) / 2 == k);
        assert(s[2 * k] == hex_digit(b / 16));
        assert(s[2 * k + 1] == hex_digit(b % 16));
        assert((b / 16) * 16 + b % 16 == b);
    }
    assert(back =~= bytes);
}

/// Writes `data` as lower-case hexadecimal text.
///
/// Trusted: calls `hex::encode`, which writes for each byte the digit of its
/// high half and then the digit of its low half, from `0123456789abcdef`.
#[verifier::external_body]
pub(crate) fn hex_encode(data: &[u8]) -> (text: String)
    ensures
        text@ == hex_encoding(data@),
{
    ::hex::encode(data)
}

/// Reads hexadecimal text back into bytes, or `None` where `text` is not
/// hexadecimal.
///
/// Trusted: calls `hex::decode`, which fails on an odd number of bytes and on
/// any byte that is not a digit `0-9`, `a-f` or `A-F`, and otherwise joins each
/// pair of digit values into one byte. A character outside ASCII is written as
/// bytes that are no digits, so it is refused as well.
#[verifier::external_body]
pub(crate) fn hex_decode(text: &str) -> (bytes: Option<Vec<u8>>)
    ensures
        bytes is Some <==> is_hex(text@),
        bytes matches Some(b) ==> b@ == hex_decoding(text@),
{
    match ::hex::decode(text) {
        Ok(b) => Some(b),
        Err(_) => None,
    }
}

} // verus!
