//! Bytes as text: cutting at the first occurrence of a byte, comparing, and
//! reading bytes as a string.

use vstd::prelude::*;
use vstd::slice::slice_subrange;
use vstd::utf8::{decode_utf8, valid_utf8};

verus! {

/// The place of the first `byte` in `s`, or the length of `s` where it holds
/// none.
pub open spec fn first_index_of(s: Seq<u8>, byte: u8) -> nat
    decreases s.len(),
{
    if s.len() == 0 || s[0] == byte {
        0
    } else {
        1 + first_index_of(s.drop_first(), byte)
    }
}

/// What stands before and after the first `byte` in `s`, or `None` where `s`
/// holds none.
pub open spec fn split_at_first(s: Seq<u8>, byte: u8) -> Option<(Seq<u8>, Seq<u8>)> {
    let at = first_index_of(s, byte) as int;
    if at < s.len() {
        Some((s.subrange(0, at), s.subrange(at + 1, s.len() as int)))
    } else {
        None
    }
}

/// Whether `s` holds no `byte`.
pub open spec fn free_of(s: Seq<u8>, byte: u8) -> bool {
    forall|i: int| 0 <= i < s.len() ==> #[trigger] s[i] != byte
}

/// A place before which `s` holds no `byte`, and which is the end of `s` or
/// holds `byte`, is the place of the first `byte`.
pub proof fn lemma_first_index(s: Seq<u8>, byte: u8, at: int)
    requires
        0 <= at <= s.len(),
        free_of(s.subrange(0, at), byte),
        at == s.len() || s[at] == byte,
    ensures
        first_index_of(s, byte) == at,
    decreases s.len(),
{
    if s.len() == 0 || s[0] == byte {
        if at > 0 {
            assert(s.subrange(0, at)[0] == s[0]);
        }
    } else {
        let tail = s.drop_first();
        assert forall|i: int| 0 <= i < at - 1 implies #[trigger] tail.subrange(0, at - 1)[i]
            != byte by {
            assert(s.subrange(0, at)[i + 1] == tail.subrange(0, at - 1)[i]);
        }
        lemma_first_index(tail, byte, at - 1);
    }
}

/// Text joined over a byte that its first part does not hold is cut there
/// again.
pub proof fn lemma_split_joined(head: Seq<u8>, byte: u8, rest: Seq<u8>)
    requires
        free_of(head, byte),
    ensures
        split_at_first(head + seq![byte] + rest, byte) == Some((head, rest)),
{
    let s = head + seq![byte] + rest;
    let at = head.len() as int;
    assert(s.subrange(0, at) =~= head);
    assert(s[at] == byte);
    lemma_first_index(s, byte, at);
    assert(s.subrange(at + 1, s.len() as int) =~= rest);
}

/// Cuts `s` at its first `byte`.
pub fn split_first(s: &[u8], byte: u8) -> (parts: Option<(&[u8], &[u8])>)
    ensures
        parts is Some <==> split_at_first(s@, byte) is Some,
        parts matches Some((head, rest)) ==> split_at_first(s@, byte) == Some((head@, rest@)),
{
    let mut at: usize = 0;
    while at < s.len() && s[at] != byte
        invariant
            at <= s@.len(),
            free_of(s@.subrange(0, at as int), byte),
        decreases s@.len() - at,
    {
        at += 1;
        assert forall|i: int| 0 <= i < at implies #[trigger] s@.subrange(0, at as int)[i]
            != byte by {
            if i < at - 1 {
                assert(s@.subrange(0, at - 1)[i] == s@[i]);
            }
        }
    }
    proof {
        lemma_first_index(s@, byte, at as int);
    }
    if at < s.len() {
        Some((slice_subrange(s, 0, at), slice_subrange(s, at + 1, s.len())))
    } else {
        None
    }
}

/// Appends `bytes` to `out`.
pub fn append_bytes(out: &mut Vec<u8>, bytes: &[u8])
    ensures
        final(out)@ == old(out)@ + bytes@,
{
    let mut i: usize = 0;
    while i < bytes.len()
        invariant
            i <= bytes@.len(),
            out@ == old(out)@ + bytes@.subrange(0, i as int),
        decreases bytes@.len() - i,
    {
        out.push(bytes[i]);
        i += 1;
        assert(out@ =~= old(out)@ + bytes@.subrange(0, i as int));
    }
    assert(bytes@.subrange(0, i as int) =~= bytes@);
}

/// Whether two texts hold the same bytes.
pub fn same_bytes(first: &[u8], second: &[u8]) -> (same: bool)
    ensures
        same == (first@ == second@),
{
    if first.len() != second.len() {
        return false;
    }
    let mut i: usize = 0;
    while i < first.len()
        invariant
            i <= first@.len(),
            first@.len() == second@.len(),
            first@.subrange(0, i as int) == second@.subrange(0, i as int),
        decreases first@.len() - i,
    {
        if first[i] != second[i] {
            return false;
        }
        i += 1;
        assert(first@.subrange(0, i as int) =~= first@.subrange(0, i - 1).push(first@[i - 1]));
        assert(second@.subrange(0, i as int) =~= second@.subrange(0, i - 1).push(
            second@[i - 1],
        ));
    }
    assert(first@ =~= first@.subrange(0, i as int));
    assert(second@ =~= second@.subrange(0, i as int));
    true
}

/// Reads `bytes` as a string, or `None` where they are not UTF-8.
///
/// Trusted: calls `String::from_utf8`, which accepts exactly the valid UTF-8
/// and then holds the characters that the bytes encode.
#[verifier::external_body]
pub(crate) fn string_from_utf8(bytes: Vec<u8>) -> (text: Option<String>)
    ensures
        text is Some <==> valid_utf8(bytes@),
        text matches Some(t) ==> t@ == decode_utf8(bytes@),
{
    match String::from_utf8(bytes) {
        Ok(text) => Some(text),
        Err(_) => None,
    }
}

} // verus!
