//! Syntactic validation of IPv4 and IPv6 address literals, with the
//! acceptance rules of Rust's `Ipv4Addr::from_str` and `Ipv6Addr::from_str`:
//! an IPv4 literal is four dot-separated decimal octets without leading
//! zeros; an IPv6 literal is colon-separated groups of one to four
//! hexadecimal digits, with at most one `::` standing for one or more zero
//! groups, and optionally a trailing embedded IPv4 literal in place of the
//! last two groups.  Only parseability is checked, never reachability.

use vstd::prelude::*;

use crate::num::{all_digits, dec_val, digit_val, spec_parse_u64};
use crate::num::parse_u64_bytes;
use crate::text::{is_digit, is_hex_digit, spec_split, COLON, DOT};
use crate::text::{digit_byte, hex_digit_byte, split_bytes, subrange_vec};

verus! {

/// A decimal octet of an IPv4 literal: one to three digits, no leading
/// zero (except the octet `0` itself), value at most 255.
pub open spec fn is_dec_octet(s: Seq<u8>) -> bool {
    1 <= s.len() <= 3 && all_digits(s) && (s.len() > 1 ==> s[0] != 48) && dec_val(s) <= 255
}

/// An IPv4 address literal: exactly four dot-separated decimal octets.
pub open spec fn spec_is_ipv4(s: Seq<u8>) -> bool {
    let parts = spec_split(s, DOT);
    parts.len() == 4 && (forall|i: int| 0 <= i < parts.len() ==> is_dec_octet(parts[i]))
}

/// A group of an IPv6 literal: one to four hexadecimal digits.
pub open spec fn is_hex_group(s: Seq<u8>) -> bool {
    1 <= s.len() <= 4 && (forall|i: int| 0 <= i < s.len() ==> is_hex_digit(s[i]))
}

/// Whether every part is a hexadecimal group.
pub open spec fn all_hex_groups(parts: Seq<Seq<u8>>) -> bool {
    forall|i: int| 0 <= i < parts.len() ==> is_hex_group(parts[i])
}

/// The position of the first `::` at or after `i`, or the length of `s`
/// when there is none.
pub open spec fn first_dc_from(s: Seq<u8>, i: int) -> int
    decreases s.len() - i,
{
    if i < 0 || i + 1 >= s.len() {
        s.len() as int
    } else if s[i] == COLON && s[i + 1] == COLON {
        i
    } else {
        first_dc_from(s, i + 1)
    }
}

/// The position of the first `::` in `s`, or the length of `s` when there
/// is none.
pub open spec fn first_double_colon(s: Seq<u8>) -> int {
    first_dc_from(s, 0)
}

/// The part after the `::` of a compressed IPv6 literal, split at `:`:
/// every part but the last is a hexadecimal group, and the last is either a
/// hexadecimal group or an embedded IPv4 literal.
pub open spec fn valid_tail_parts(parts: Seq<Seq<u8>>) -> bool {
    parts.len() >= 1 && (forall|i: int| 0 <= i < parts.len() - 1 ==> is_hex_group(parts[i])) && (
    is_hex_group(parts.last()) || spec_is_ipv4(parts.last()))
}

/// How many 16-bit groups the tail stands for: an embedded IPv4 literal
/// covers two.
pub open spec fn tail_slots(parts: Seq<Seq<u8>>) -> int {
    if is_hex_group(parts.last()) {
        parts.len() as int
    } else {
        parts.len() as int + 1
    }
}

/// An IPv6 address literal.  Without `::` it is eight colon-separated
/// hexadecimal groups, or six groups and a trailing embedded IPv4 literal.
/// With `::` (which stands for at least one zero group) the groups before
/// and after it together cover at most seven of the eight 16-bit slots.
pub open spec fn spec_is_ipv6(s: Seq<u8>) -> bool {
    let dc = first_double_colon(s);
    if dc == s.len() {
        let parts = spec_split(s, COLON);
        (parts.len() == 8 && all_hex_groups(parts)) || (parts.len() == 7 && (forall|i: int|
            0 <= i < 6 ==> is_hex_group(parts[i])) && spec_is_ipv4(parts[6]))
    } else {
        let head = s.subrange(0, dc);
        let tail = s.subrange(dc + 2, s.len() as int);
        let hparts = spec_split(head, COLON);
        let tparts = spec_split(tail, COLON);
        let hslots: int = if head.len() == 0 {
            0
        } else {
            hparts.len() as int
        };
        let tslots: int = if tail.len() == 0 {
            0
        } else {
            tail_slots(tparts)
        };
        (head.len() == 0 || all_hex_groups(hparts)) && (tail.len() == 0 || valid_tail_parts(
            tparts,
        )) && hslots + tslots <= 7
    }
}

/// A digit string of at most three digits has value at most 999.
proof fn lemma_dec_val_three_digits(s: Seq<u8>)
    requires
        s.len() <= 3,
    ensures
        s.len() <= 1 ==> dec_val(s) <= 9,
        s.len() <= 2 ==> dec_val(s) <= 99,
        dec_val(s) <= 999,
    decreases s.len(),
{
    if s.len() > 0 {
        lemma_dec_val_three_digits(s.drop_last());
        assert(digit_val(s.last()) <= 9);
    }
}

/// Checks one decimal octet of an IPv4 literal.
fn dec_octet_bytes(t: &[u8]) -> (r: bool)
    ensures
        r == is_dec_octet(t@),
{
    if t.len() < 1 || t.len() > 3 {
        return false;
    }
    if !digit_byte(t[0]) {
        proof {
            assert(!is_digit(t@[0]));
        }
        return false;
    }
    if t.len() > 1 && t[0] == 48 {
        return false;
    }
    match parse_u64_bytes(t) {
        Some(n) => {
            proof {
                assert(t@[0] != crate::text::PLUS);
                assert(crate::num::spec_digits_of(t@) == t@);
            }
            n <= 255
        },
        None => {
            proof {
                assert(crate::num::spec_digits_of(t@) == t@);
                if all_digits(t@) {
                    lemma_dec_val_three_digits(t@);
                    assert(spec_parse_u64(t@) is Some);
                }
            }
            false
        },
    }
}

/// Checks an IPv4 address literal.
pub fn is_ipv4_bytes(s: &[u8]) -> (r: bool)
    ensures
        r == spec_is_ipv4(s@),
{
    let parts = split_bytes(s, DOT);
    let ghost sp = spec_split(s@, DOT);
    if parts.len() != 4 {
        return false;
    }
    let mut i: usize = 0;
    while i < parts.len()
        invariant
            0 <= i <= parts@.len(),
            parts.deep_view() == sp,
            sp == spec_split(s@, DOT),
            sp.len() == 4,
            forall|j: int| 0 <= j < i ==> is_dec_octet(sp[j]),
        decreases parts@.len() - i,
    {
        proof {
            assert(parts@[i as int]@ =~= sp[i as int]);
        }
        if !dec_octet_bytes(parts[i].as_slice()) {
            return false;
        }
        i += 1;
    }
    true
}

/// Checks one hexadecimal group of an IPv6 literal.
fn hex_group_bytes(t: &[u8]) -> (r: bool)
    ensures
        r == is_hex_group(t@),
{
    if t.len() < 1 || t.len() > 4 {
        return false;
    }
    let mut i: usize = 0;
    while i < t.len()
        invariant
            0 <= i <= t@.len(),
            forall|j: int| 0 <= j < i ==> is_hex_digit(t@[j]),
        decreases t@.len() - i,
    {
        if !hex_digit_byte(t[i]) {
            return false;
        }
        i += 1;
    }
    true
}

/// Checks that every part in `parts[from..to]` is a hexadecimal group.
fn hex_groups_range(parts: &Vec<Vec<u8>>, from: usize, to: usize) -> (r: bool)
    requires
        0 <= from <= to <= parts@.len(),
    ensures
        r == (forall|i: int| from <= i < to ==> is_hex_group(parts.deep_view()[i])),
{
    let mut i: usize = from;
    while i < to
        invariant
            from <= i <= to <= parts@.len(),
            forall|j: int| from <= j < i ==> is_hex_group(parts.deep_view()[j]),
        decreases to - i,
    {
        proof {
            assert(parts@[i as int]@ =~= parts.deep_view()[i as int]);
        }
        if !hex_group_bytes(parts[i].as_slice()) {
            return false;
        }
        i += 1;
    }
    true
}

/// Finds the first `::` in `v`, returning `v.len()` when there is none.
fn find_double_colon(v: &[u8]) -> (r: usize)
    ensures
        r == first_double_colon(v@),
{
    if v.len() == 0 {
        return 0;
    }
    let mut i: usize = 0;
    while i < v.len() - 1
        invariant
            v@.len() >= 1,
            0 <= i <= v@.len(),
            first_double_colon(v@) == first_dc_from(v@, i as int),
        decreases v@.len() - i,
    {
        if v[i] == COLON && v[i + 1] == COLON {
            return i;
        }
        i += 1;
    }
    v.len()
}

/// Checks an IPv6 address literal.
pub fn is_ipv6_bytes(s: &[u8]) -> (r: bool)
    ensures
        r == spec_is_ipv6(s@),
{
    let dc = find_double_colon(s);
    if dc == s.len() {
        let parts = split_bytes(s, COLON);
        if parts.len() == 8 {
            hex_groups_range(&parts, 0, 8)
        } else if parts.len() == 7 {
            if !hex_groups_range(&parts, 0, 6) {
                return false;
            }
            proof {
                assert(parts@[6]@ =~= parts.deep_view()[6]);
            }
            is_ipv4_bytes(parts[6].as_slice())
        } else {
            false
        }
    } else {
        proof {
            lemma_first_dc_bounds(s@, 0);
        }
        let head = subrange_vec(s, 0, dc);
        let tail = subrange_vec(s, dc + 2, s.len());
        let hparts = split_bytes(head.as_slice(), COLON);
        let tparts = split_bytes(tail.as_slice(), COLON);
        let hslots: usize = if head.len() == 0 {
            0
        } else {
            hparts.len()
        };
        if head.len() > 0 && !hex_groups_range(&hparts, 0, hparts.len()) {
            return false;
        }
        let mut tslots: usize = 0;
        if tail.len() > 0 {
            let n = tparts.len();
            proof {
                lemma_split_from_len(tail@, COLON, 0, Seq::empty());
            }
            if !hex_groups_range(&tparts, 0, n - 1) {
                return false;
            }
            proof {
                assert(tparts@[n - 1]@ =~= tparts.deep_view()[n as int - 1]);
                assert(tparts.deep_view().last() == tparts.deep_view()[n as int - 1]);
            }
            let last_is_group = hex_group_bytes(tparts[n - 1].as_slice());
            if !last_is_group && !is_ipv4_bytes(tparts[n - 1].as_slice()) {
                return false;
            }
            if last_is_group {
                tslots = n;
            } else {
                if n > 6 {
                    return false;
                }
                tslots = n + 1;
            }
        }
        if hslots > 7 || tslots > 7 || hslots + tslots > 7 {
            return false;
        }
        true
    }
}

/// Splitting yields at least one part.
proof fn lemma_split_from_len(s: Seq<u8>, c: u8, i: int, cur: Seq<u8>)
    ensures
        crate::text::split_from(s, c, i, cur).len() >= 1,
    decreases s.len() - i,
{
    if 0 <= i && i < s.len() {
        if s[i] != c {
            lemma_split_from_len(s, c, i + 1, cur.push(s[i]));
        }
    }
}

/// `first_dc_from` stays within the bounds of `s`, and where it finds a
/// position, a `::` stands there.
proof fn lemma_first_dc_bounds(s: Seq<u8>, i: int)
    requires
        0 <= i <= s.len(),
    ensures
        i <= first_dc_from(s, i) <= s.len(),
        first_dc_from(s, i) < s.len() ==> first_dc_from(s, i) + 1 < s.len() && s[first_dc_from(
            s,
            i,
        )] == COLON && s[first_dc_from(s, i) + 1] == COLON,
    decreases s.len() - i,
{
    if i + 1 < s.len() && !(s[i] == COLON && s[i + 1] == COLON) {
        lemma_first_dc_bounds(s, i + 1);
    }
}

} // verus!
