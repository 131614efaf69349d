//! Decimal parsing of unsigned integers from byte strings, with the exact
//! acceptance rules of Rust's unsigned `FromStr`: an optional leading `+`,
//! then one or more decimal digits, and the value must fit the target type.

use vstd::prelude::*;

use crate::text::{is_digit, digit_byte, PLUS};

verus! {

/// The digit value of a byte, zero for non-digits.
pub open spec fn digit_val(b: u8) -> nat {
    if is_digit(b) {
        (b - 48) as nat
    } else {
        0
    }
}

/// The value of a string of decimal digits, most significant first.
pub open spec fn dec_val(s: Seq<u8>) -> nat
    decreases s.len(),
{
    if s.len() == 0 {
        0
    } else {
        dec_val(s.drop_last()) * 10 + digit_val(s.last())
    }
}

/// Whether every byte of `s` is a decimal digit.
pub open spec fn all_digits(s: Seq<u8>) -> bool {
    forall|i: int| 0 <= i < s.len() ==> is_digit(s[i])
}

/// The digits of a numeric token: the token with one leading `+` removed.
pub open spec fn spec_digits_of(s: Seq<u8>) -> Seq<u8> {
    if s.len() > 0 && s[0] == PLUS {
        s.drop_first()
    } else {
        s
    }
}

/// The value Rust's `str::parse::<u64>` yields on this token, or `None`
/// when the token is malformed or out of range.
pub open spec fn spec_parse_u64(s: Seq<u8>) -> Option<u64> {
    let d = spec_digits_of(s);
    if d.len() == 0 || !all_digits(d) {
        None
    } else if dec_val(d) > u64::MAX {
        None
    } else {
        Some(dec_val(d) as u64)
    }
}

/// The value Rust's `str::parse::<u32>` yields on this token, or `None`
/// when the token is malformed or out of range.
pub open spec fn spec_parse_u32(s: Seq<u8>) -> Option<u32> {
    let d = spec_digits_of(s);
    if d.len() == 0 || !all_digits(d) {
        None
    } else if dec_val(d) > u32::MAX {
        None
    } else {
        Some(dec_val(d) as u32)
    }
}

/// Appending digits to a digit string never decreases its value.
proof fn lemma_dec_val_take_mono(s: Seq<u8>, i: int)
    requires
        0 <= i <= s.len(),
    ensures
        dec_val(s.take(i)) <= dec_val(s),
    decreases s.len() - i,
{
    if i < s.len() {
        assert(s.take(i + 1).drop_last() =~= s.take(i));
        assert(dec_val(s.take(i + 1)) == dec_val(s.take(i)) * 10 + digit_val(s[i]));
        lemma_dec_val_take_mono(s, i + 1);
    } else {
        assert(s.take(i) =~= s);
    }
}

/// Parses an unsigned 64-bit decimal integer with the acceptance rules of
/// `str::parse::<u64>`.
pub fn parse_u64_bytes(s: &[u8]) -> (r: Option<u64>)
    ensures
        r == spec_parse_u64(s@),
{
    let start: usize = if s.len() > 0 && s[0] == PLUS {
        1
    } else {
        0
    };
    let ghost d = spec_digits_of(s@);
    proof {
        assert(d =~= s@.subrange(start as int, s@.len() as int));
    }
    if s.len() == start {
        return None;
    }
    let mut acc: u64 = 0;
    let mut i: usize = start;
    while i < s.len()
        invariant
            start < s@.len(),
            start <= i <= s@.len(),
            d == spec_digits_of(s@),
            d == s@.subrange(start as int, s@.len() as int),
            forall|k: int| 0 <= k < i - start ==> is_digit(d[k]),
            acc as nat == dec_val(d.take(i - start)),
        decreases s@.len() - i,
    {
        let b = s[i];
        if !digit_byte(b) {
            proof {
                assert(d[i - start] == s@[i as int]);
                assert(!all_digits(d));
            }
            return None;
        }
        let dv: u64 = (b - 48) as u64;
        let next = match acc.checked_mul(10) {
            Some(m) => m.checked_add(dv),
            None => None,
        };
        proof {
            assert(d[i - start] == s@[i as int]);
            assert(d.take(i - start + 1).drop_last() =~= d.take(i - start));
            assert(dec_val(d.take(i - start + 1)) == dec_val(d.take(i - start)) * 10 + digit_val(
                d[i - start],
            ));
        }
        match next {
            Some(n) => {
                acc = n;
            },
            None => {
                proof {
                    lemma_dec_val_take_mono(d, i - start + 1);
                    assert(dec_val(d) > u64::MAX);
                }
                return None;
            },
        }
        i += 1;
    }
    proof {
        assert(d.take(s@.len() - start) =~= d);
        assert(all_digits(d));
    }
    Some(acc)
}

/// Parses an unsigned 32-bit decimal integer with the acceptance rules of
/// `str::parse::<u32>`.
pub fn parse_u32_bytes(s: &[u8]) -> (r: Option<u32>)
    ensures
        r == spec_parse_u32(s@),
{
    match parse_u64_bytes(s) {
        Some(n) => {
            if n <= 0xffff_ffff {
                Some(n as u32)
            } else {
                None
            }
        },
        None => None,
    }
}

} // verus!
