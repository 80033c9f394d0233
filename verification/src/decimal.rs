//! Decimal text of integers, as bytes of ASCII.

use vstd::prelude::*;

verus! {

/// The ASCII byte of a decimal digit.
pub open spec fn digit_byte(d: int) -> u8
    recommends
        0 <= d < 10,
{
    (48 + d) as u8
}

/// The decimal digits of `n`, most significant first, without leading zeros
/// (zero itself is the single digit `0`).
pub open spec fn decimal_digits(n: nat) -> Seq<u8>
    decreases n,
{
    if n < 10 {
        seq![digit_byte(n as int)]
    } else {
        decimal_digits(n / 10).push(digit_byte((n % 10) as int))
    }
}

/// The decimal text of `i`: a minus sign for a negative number, then the
/// digits of its magnitude.
pub open spec fn decimal_text(i: int) -> Seq<u8> {
    if i < 0 {
        seq![45u8] + decimal_digits((-i) as nat)
    } else {
        decimal_digits(i as nat)
    }
}

/// Appends the decimal digits of `n` to `out`.
pub fn push_decimal_digits(n: u64, out: &mut Vec<u8>)
    ensures
        final(out)@ == old(out)@ + decimal_digits(n as nat),
    decreases n,
{
    if n >= 10 {
        push_decimal_digits(n / 10, out);
    }
    let digit: u8 = (n % 10) as u8;
    out.push(48 + digit);
    proof {
        if n >= 10 {
            assert(final(out)@ =~= old(out)@ + decimal_digits(n as nat));
        } else {
            assert(final(out)@ =~= old(out)@ + decimal_digits(n as nat));
        }
    }
}

/// Writes `value` in decimal, as `format!("{}", value)` does.
pub fn decimal_bytes(value: i32) -> (out: Vec<u8>)
    ensures
        out@ == decimal_text(value as int),
{
    let mut out: Vec<u8> = Vec::new();
    if value < 0 {
        out.push(45u8);
        let wide: i64 = value as i64;
        let magnitude: u64 = (0 - wide) as u64;
        push_decimal_digits(magnitude, &mut out);
        assert(out@ =~= decimal_text(value as int));
    } else {
        push_decimal_digits(value as u64, &mut out);
        assert(out@ =~= decimal_text(value as int));
    }
    out
}

/// Whether every byte of `s` is a decimal digit.
pub open spec fn all_digits(s: Seq<u8>) -> bool {
    forall|i: int| 0 <= i < s.len() ==> 48 <= #[trigger] s[i] <= 57
}

/// The number that the digits `s` write; no digits write zero.
pub open spec fn digits_value(s: Seq<u8>) -> nat
    decreases s.len(),
{
    if s.len() == 0 {
        0
    } else {
        digits_value(s.drop_last()) * 10 + (s.last() - 48) as nat
    }
}

/// The number that the text `s` writes, where `s` is one decimal digit or
/// more and the number fits 64 bits. Leading zeros are read over.
pub open spec fn parsed_number(s: Seq<u8>) -> Option<u64> {
    if s.len() > 0 && all_digits(s) && digits_value(s) <= u64::MAX {
        Some(digits_value(s) as u64)
    } else {
        None
    }
}

/// The signed 32-bit number that the text `s` writes: digits, with a minus
/// sign before them for a negative number.
pub open spec fn parsed_signed(s: Seq<u8>) -> Option<i32> {
    if s.len() > 0 && s[0] == 45u8 {
        match parsed_number(s.drop_first()) {
            Some(magnitude) => if magnitude <= 0x8000_0000 {
                Some((-(magnitude as int)) as i32)
            } else {
                None
            },
            None => None,
        }
    } else {
        match parsed_number(s) {
            Some(magnitude) => if magnitude <= 0x7fff_ffff {
                Some(magnitude as i32)
            } else {
                None
            },
            None => None,
        }
    }
}

/// Digits that begin a longer run of digits write no larger a number.
pub proof fn lemma_digits_value_grows(s: Seq<u8>, n: int)
    requires
        all_digits(s),
        0 <= n <= s.len(),
    ensures
        digits_value(s.subrange(0, n)) <= digits_value(s),
    decreases s.len() - n,
{
    if n == s.len() {
        assert(s.subrange(0, n) =~= s);
    } else {
        lemma_digits_value_grows(s, n + 1);
        let longer = s.subrange(0, n + 1);
        assert(longer.drop_last() =~= s.subrange(0, n));
    }
}

/// The digits written for `n` are digits, at least one, and write `n`.
pub proof fn lemma_digits_round_trip(n: nat)
    ensures
        decimal_digits(n).len() > 0,
        all_digits(decimal_digits(n)),
        digits_value(decimal_digits(n)) == n,
    decreases n,
{
    if n < 10 {
        let s = decimal_digits(n);
        assert(s.drop_last() =~= Seq::<u8>::empty());
        assert(digits_value(s.drop_last()) == 0);
    } else {
        lemma_digits_round_trip(n / 10);
        let s = decimal_digits(n);
        assert(s.drop_last() =~= decimal_digits(n / 10));
    }
}

/// Reading undoes writing, for numbers of 64 bits.
pub proof fn lemma_number_round_trip(n: u64)
    ensures
        parsed_number(decimal_digits(n as nat)) == Some(n),
{
    lemma_digits_round_trip(n as nat);
}

/// Reading undoes writing, for signed numbers of 32 bits.
pub proof fn lemma_signed_round_trip(i: i32)
    ensures
        parsed_signed(decimal_text(i as int)) == Some(i),
{
    if i < 0 {
        let magnitude = (-(i as int)) as nat;
        lemma_digits_round_trip(magnitude);
        let s = decimal_text(i as int);
        assert(s[0] == 45u8);
        assert(s.drop_first() =~= decimal_digits(magnitude));
    } else {
        lemma_digits_round_trip(i as nat);
        let s = decimal_text(i as int);
        assert(s[0] != 45u8);
    }
}

/// Reads a number of up to 64 bits from its decimal digits.
pub fn parse_number(s: &[u8]) -> (number: Option<u64>)
    ensures
        number == parsed_number(s@),
{
    if s.len() == 0 {
        return None;
    }
    let mut value: u64 = 0;
    let mut i: usize = 0;
    while i < s.len()
        invariant
            i <= s@.len(),
            all_digits(s@.subrange(0, i as int)),
            value == digits_value(s@.subrange(0, i as int)),
        decreases s@.len() - i,
    {
        let byte = s[i];
        if byte < 48 || byte > 57 {
            return None;
        }
        let digit: u64 = (byte - 48) as u64;
        proof {
            let longer = s@.subrange(0, i + 1);
            assert(longer.drop_last() =~= s@.subrange(0, i as int));
            assert(longer.last() == byte);
            assert(digits_value(longer) == value * 10 + digit);
            assert(all_digits(longer)) by {
                assert forall|k: int| 0 <= k < longer.len() implies 48 <= #[trigger] longer[k]
                    <= 57 by {
                    if k < i {
                        assert(longer[k] == s@.subrange(0, i as int)[k]);
                    }
                }
            }
        }
        if value > (u64::MAX - digit) / 10 {
            proof {
                if all_digits(s@) {
                    lemma_digits_value_grows(s@, i + 1);
                }
            }
            return None;
        }
        value = value * 10 + digit;
        i += 1;
    }
    assert(s@.subrange(0, i as int) =~= s@);
    Some(value)
}

/// Reads a signed number of 32 bits from its decimal text.
pub fn parse_signed(s: &[u8]) -> (number: Option<i32>)
    ensures
        number == parsed_signed(s@),
{
    if s.len() > 0 && s[0] == 45u8 {
        let digits = vstd::slice::slice_subrange(s, 1, s.len());
        assert(digits@ =~= s@.drop_first());
        match parse_number(digits) {
            Some(magnitude) => {
                if magnitude <= 0x8000_0000 {
                    Some((0 - (magnitude as i64)) as i32)
                } else {
                    None
                }
            },
            None => None,
        }
    } else {
        match parse_number(s) {
            Some(magnitude) => {
                if magnitude <= 0x7fff_ffff {
                    Some(magnitude as i32)
                } else {
                    None
                }
            },
            None => None,
        }
    }
}

} // verus!
