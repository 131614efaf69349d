//! Byte-level text primitives shared by all field parsers: character
//! classification, ASCII case folding, trimming, splitting on a separator
//! byte, whitespace tokenization, and splitting a document into lines.

use vstd::prelude::*;

verus! {

/// Horizontal tab.
pub const HT: u8 = 9;

/// Line feed, the line terminator of an SDP document.
pub const LF: u8 = 10;

/// Carriage return, stripped when it precedes a line feed.
pub const CR: u8 = 13;

/// Space.
pub const SP: u8 = 32;

/// `+`, the sign Rust's unsigned decimal parser accepts in front of digits.
pub const PLUS: u8 = 43;

/// `.`, the separator of IPv4 address components.
pub const DOT: u8 = 46;

/// `:`, the separator of bandwidth and attribute values and of IPv6 groups.
pub const COLON: u8 = 58;

/// `=`, the separator between a field name and its value.
pub const EQUALS: u8 = 61;

/// ASCII whitespace: tab, line feed, vertical tab, form feed, carriage
/// return and space.  These are the whitespace bytes trimmed from field
/// names and values and separating tokens inside a value.
pub open spec fn is_space(b: u8) -> bool {
    b == SP || (HT <= b && b <= CR)
}

/// Decimal digit `0` through `9`.
pub open spec fn is_digit(b: u8) -> bool {
    48 <= b && b <= 57
}

/// Hexadecimal digit `0-9`, `a-f` or `A-F`.
pub open spec fn is_hex_digit(b: u8) -> bool {
    is_digit(b) || (97 <= b && b <= 102) || (65 <= b && b <= 70)
}

/// ASCII lower-casing of a single byte; bytes outside `A`-`Z` are unchanged.
pub open spec fn spec_lower_byte(b: u8) -> u8 {
    if 65 <= b && b <= 90 {
        (b + 32) as u8
    } else {
        b
    }
}

/// ASCII lower-casing of a byte sequence.
pub open spec fn spec_lower(s: Seq<u8>) -> Seq<u8> {
    s.map_values(|b: u8| spec_lower_byte(b))
}

pub fn lower_byte(b: u8) -> (r: u8)
    ensures
        r == spec_lower_byte(b),
{
    if 65 <= b && b <= 90 {
        b + 32
    } else {
        b
    }
}

pub fn space_byte(b: u8) -> (r: bool)
    ensures
        r == is_space(b),
{
    b == SP || (HT <= b && b <= CR)
}

pub fn digit_byte(b: u8) -> (r: bool)
    ensures
        r == is_digit(b),
{
    48 <= b && b <= 57
}

pub fn hex_digit_byte(b: u8) -> (r: bool)
    ensures
        r == is_hex_digit(b),
{
    (48 <= b && b <= 57) || (97 <= b && b <= 102) || (65 <= b && b <= 70)
}

/// ASCII lower-casing of a byte string.
pub fn lower_bytes(v: &[u8]) -> (r: Vec<u8>)
    ensures
        r@ == spec_lower(v@),
{
    let mut out: Vec<u8> = Vec::new();
    let mut i: usize = 0;
    while i < v.len()
        invariant
            0 <= i <= v@.len(),
            out@.len() == i,
            forall|j: int| 0 <= j < i ==> out@[j] == spec_lower(v@)[j],
        decreases v@.len() - i,
    {
        out.push(lower_byte(v[i]));
        i += 1;
    }
    proof {
        assert(out@ =~= spec_lower(v@));
    }
    out
}

/// Equality of two byte strings.
pub fn bytes_eq(a: &[u8], b: &[u8]) -> (r: bool)
    ensures
        r == (a@ == b@),
{
    if a.len() != b.len() {
        proof {
            assert(a@.len() != b@.len());
        }
        return false;
    }
    let mut i: usize = 0;
    while i < a.len()
        invariant
            0 <= i <= a@.len(),
            a@.len() == b@.len(),
            forall|j: int| 0 <= j < i ==> a@[j] == b@[j],
        decreases a@.len() - i,
    {
        if a[i] != b[i] {
            return false;
        }
        i += 1;
    }
    proof {
        assert(a@ =~= b@);
    }
    true
}

/// The byte string with leading ASCII whitespace removed.
pub open spec fn spec_trim_start(s: Seq<u8>) -> Seq<u8>
    decreases s.len(),
{
    if s.len() > 0 && is_space(s[0]) {
        spec_trim_start(s.drop_first())
    } else {
        s
    }
}

/// The byte string with trailing ASCII whitespace removed.
pub open spec fn spec_trim_end(s: Seq<u8>) -> Seq<u8>
    decreases s.len(),
{
    if s.len() > 0 && is_space(s[s.len() - 1]) {
        spec_trim_end(s.drop_last())
    } else {
        s
    }
}

/// The byte string with leading and trailing ASCII whitespace removed.
pub open spec fn spec_trim(s: Seq<u8>) -> Seq<u8> {
    spec_trim_end(spec_trim_start(s))
}

proof fn lemma_trim_start_range(s: Seq<u8>, a: int)
    requires
        0 <= a <= s.len(),
        forall|k: int| 0 <= k < a ==> is_space(s[k]),
        a == s.len() || !is_space(s[a]),
    ensures
        spec_trim_start(s) == s.subrange(a, s.len() as int),
    decreases a,
{
    if a == 0 {
        if s.len() > 0 && is_space(s[0]) {
            assert(false);
        }
        assert(s.subrange(0, s.len() as int) =~= s);
    } else {
        assert(is_space(s[0]));
        let t = s.drop_first();
        lemma_trim_start_range(t, a - 1);
        assert(t.subrange(a - 1, t.len() as int) =~= s.subrange(a, s.len() as int));
    }
}

proof fn lemma_trim_end_range(s: Seq<u8>, b: int)
    requires
        0 <= b <= s.len(),
        forall|k: int| b <= k < s.len() ==> is_space(s[k]),
        b == 0 || !is_space(s[b - 1]),
    ensures
        spec_trim_end(s) == s.subrange(0, b),
    decreases s.len() - b,
{
    if b == s.len() {
        if s.len() > 0 && is_space(s[s.len() - 1]) {
            assert(false);
        }
        assert(s.subrange(0, s.len() as int) =~= s);
    } else {
        assert(is_space(s[s.len() - 1]));
        let t = s.drop_last();
        lemma_trim_end_range(t, b);
        assert(t.subrange(0, b) =~= s.subrange(0, b));
    }
}

/// Copy of `v[from..to]` as an owned byte string.
pub fn subrange_vec(v: &[u8], from: usize, to: usize) -> (r: Vec<u8>)
    requires
        0 <= from <= to <= v@.len(),
    ensures
        r@ == v@.subrange(from as int, to as int),
{
    let mut out: Vec<u8> = Vec::new();
    let mut i: usize = from;
    while i < to
        invariant
            from <= i <= to <= v@.len(),
            out@.len() == i - from,
            forall|j: int| 0 <= j < out@.len() ==> out@[j] == v@[from + j],
        decreases to - i,
    {
        out.push(v[i]);
        i += 1;
    }
    proof {
        assert(out@ =~= v@.subrange(from as int, to as int));
    }
    out
}

/// The byte string with leading and trailing ASCII whitespace removed.
pub fn trim_bytes(v: &[u8]) -> (r: Vec<u8>)
    ensures
        r@ == spec_trim(v@),
{
    let mut a: usize = 0;
    while a < v.len() && space_byte(v[a])
        invariant
            0 <= a <= v@.len(),
            forall|k: int| 0 <= k < a ==> is_space(v@[k]),
        decreases v@.len() - a,
    {
        a += 1;
    }
    proof {
        lemma_trim_start_range(v@, a as int);
    }
    let mut b: usize = v.len();
    while b > a && space_byte(v[b - 1])
        invariant
            a <= b <= v@.len(),
            forall|k: int| b <= k < v@.len() ==> is_space(v@[k]),
        decreases b,
    {
        b -= 1;
    }
    proof {
        let t = spec_trim_start(v@);
        assert(t == v@.subrange(a as int, v@.len() as int));
        assert(t.len() == v@.len() - a);
        assert(forall|k: int| 0 <= k < t.len() ==> t[k] == v@[a + k]);
        lemma_trim_end_range(t, b - a);
        assert(t.subrange(0, b - a) =~= v@.subrange(a as int, b as int));
    }
    subrange_vec(v, a, b)
}

/// The position of the first occurrence of `c` at or after `i`, or the
/// length of `s` when there is none.
pub open spec fn first_index_from(s: Seq<u8>, c: u8, i: int) -> int
    decreases s.len() - i,
{
    if i < 0 || i >= s.len() {
        s.len() as int
    } else if s[i] == c {
        i
    } else {
        first_index_from(s, c, i + 1)
    }
}

/// The position of the first occurrence of `c` in `s`, or the length of `s`
/// when there is none.
pub open spec fn first_index(s: Seq<u8>, c: u8) -> int {
    first_index_from(s, c, 0)
}

pub proof fn lemma_first_index_from_props(s: Seq<u8>, c: u8, i: int)
    requires
        0 <= i <= s.len(),
    ensures
        i <= first_index_from(s, c, i) <= s.len(),
        first_index_from(s, c, i) < s.len() ==> s[first_index_from(s, c, i)] == c,
        forall|k: int| i <= k < first_index_from(s, c, i) ==> s[k] != c,
    decreases s.len() - i,
{
    if i < s.len() && s[i] != c {
        lemma_first_index_from_props(s, c, i + 1);
    }
}

/// Finds the first occurrence of `c` in `v`, returning `v.len()` when there
/// is none.
pub fn find_byte(v: &[u8], c: u8) -> (r: usize)
    ensures
        r == first_index(v@, c),
{
    let mut i: usize = 0;
    while i < v.len()
        invariant
            0 <= i <= v@.len(),
            first_index(v@, c) == first_index_from(v@, c, i as int),
        decreases v@.len() - i,
    {
        if v[i] == c {
            return i;
        }
        i += 1;
    }
    i
}

/// Whitespace tokenization, resumed at position `i` with the bytes of an
/// unfinished token in `cur`: maximal runs of non-whitespace bytes, in
/// order, with all whitespace discarded.
pub open spec fn ws_tokens_from(s: Seq<u8>, i: int, cur: Seq<u8>) -> Seq<Seq<u8>>
    decreases s.len() - i,
{
    if i < 0 || i >= s.len() {
        if cur.len() > 0 {
            seq![cur]
        } else {
            Seq::empty()
        }
    } else if is_space(s[i]) {
        if cur.len() > 0 {
            seq![cur] + ws_tokens_from(s, i + 1, Seq::empty())
        } else {
            ws_tokens_from(s, i + 1, Seq::empty())
        }
    } else {
        ws_tokens_from(s, i + 1, cur.push(s[i]))
    }
}

/// The whitespace-separated tokens of `s`, in order.
pub open spec fn spec_ws_tokens(s: Seq<u8>) -> Seq<Seq<u8>> {
    ws_tokens_from(s, 0, Seq::empty())
}

/// Splits `v` into its whitespace-separated tokens.
pub fn split_ws_tokens(v: &[u8]) -> (r: Vec<Vec<u8>>)
    ensures
        r.deep_view() == spec_ws_tokens(v@),
{
    let mut toks: Vec<Vec<u8>> = Vec::new();
    let mut cur: Vec<u8> = Vec::new();
    let mut i: usize = 0;
    while i < v.len()
        invariant
            0 <= i <= v@.len(),
            spec_ws_tokens(v@) == toks.deep_view() + ws_tokens_from(v@, i as int, cur@),
        decreases v@.len() - i,
    {
        if space_byte(v[i]) {
            if cur.len() > 0 {
                let ghost old_toks = toks.deep_view();
                let ghost cv = cur@;
                toks.push(cur);
                cur = Vec::new();
                proof {
                    assert(toks.deep_view() =~~= old_toks + seq![cv]);
                    assert(old_toks + ws_tokens_from(v@, i as int, cv) =~~= toks.deep_view()
                        + ws_tokens_from(v@, i as int + 1, Seq::empty()));
                }
            } else {
                proof {
                    assert(cur@ =~= Seq::<u8>::empty());
                }
            }
        } else {
            cur.push(v[i]);
        }
        i += 1;
    }
    if cur.len() > 0 {
        let ghost old_toks = toks.deep_view();
        let ghost cv = cur@;
        toks.push(cur);
        proof {
            assert(toks.deep_view() =~~= old_toks + seq![cv]);
        }
    }
    proof {
        assert(toks.deep_view() =~~= spec_ws_tokens(v@));
    }
    toks
}

/// Splitting on the separator byte `c`, resumed at position `i` with the
/// bytes of the current part in `cur`: every part is kept, including empty
/// ones, so the result always has one part more than there are separators.
pub open spec fn split_from(s: Seq<u8>, c: u8, i: int, cur: Seq<u8>) -> Seq<Seq<u8>>
    decreases s.len() - i,
{
    if i < 0 || i >= s.len() {
        seq![cur]
    } else if s[i] == c {
        seq![cur] + split_from(s, c, i + 1, Seq::empty())
    } else {
        split_from(s, c, i + 1, cur.push(s[i]))
    }
}

/// The parts of `s` separated by the byte `c`, empty parts included.
pub open spec fn spec_split(s: Seq<u8>, c: u8) -> Seq<Seq<u8>> {
    split_from(s, c, 0, Seq::empty())
}

/// Splits `v` at every occurrence of `c`, keeping empty parts.
pub fn split_bytes(v: &[u8], c: u8) -> (r: Vec<Vec<u8>>)
    ensures
        r.deep_view() == spec_split(v@, c),
{
    let mut parts: Vec<Vec<u8>> = Vec::new();
    let mut cur: Vec<u8> = Vec::new();
    let mut i: usize = 0;
    while i < v.len()
        invariant
            0 <= i <= v@.len(),
            spec_split(v@, c) == parts.deep_view() + split_from(v@, c, i as int, cur@),
        decreases v@.len() - i,
    {
        if v[i] == c {
            let ghost old_parts = parts.deep_view();
            let ghost cv = cur@;
            parts.push(cur);
            cur = Vec::new();
            proof {
                assert(parts.deep_view() =~~= old_parts + seq![cv]);
            }
        } else {
            cur.push(v[i]);
        }
        i += 1;
    }
    let ghost old_parts = parts.deep_view();
    let ghost cv = cur@;
    parts.push(cur);
    proof {
        assert(parts.deep_view() =~~= old_parts + seq![cv]);
        assert(parts.deep_view() =~~= spec_split(v@, c));
    }
    parts
}

/// One trailing carriage return removed, as the line splitter does for
/// lines terminated by a line feed.
pub open spec fn strip_cr(t: Seq<u8>) -> Seq<u8> {
    if t.len() > 0 && t[t.len() - 1] == CR {
        t.drop_last()
    } else {
        t
    }
}

/// Line splitting, resumed at position `i` with the bytes of the current
/// line in `cur`: lines end at each line feed, a carriage return directly
/// before a line feed is stripped, and a final line without a terminator is
/// kept as it stands — except that a trailing line feed produces no empty
/// final line.  This is the behaviour of `str::lines`.
pub open spec fn lines_from(s: Seq<u8>, i: int, cur: Seq<u8>) -> Seq<Seq<u8>>
    decreases s.len() - i,
{
    if i < 0 || i >= s.len() {
        if cur.len() > 0 {
            seq![cur]
        } else {
            Seq::empty()
        }
    } else if s[i] == LF {
        seq![strip_cr(cur)] + lines_from(s, i + 1, Seq::empty())
    } else {
        lines_from(s, i + 1, cur.push(s[i]))
    }
}

/// The lines of the document `s`.
pub open spec fn spec_lines(s: Seq<u8>) -> Seq<Seq<u8>> {
    lines_from(s, 0, Seq::empty())
}

/// Splits a document into its lines.
pub fn split_lines(v: &[u8]) -> (r: Vec<Vec<u8>>)
    ensures
        r.deep_view() == spec_lines(v@),
{
    let mut out: Vec<Vec<u8>> = Vec::new();
    let mut cur: Vec<u8> = Vec::new();
    let mut i: usize = 0;
    while i < v.len()
        invariant
            0 <= i <= v@.len(),
            spec_lines(v@) == out.deep_view() + lines_from(v@, i as int, cur@),
        decreases v@.len() - i,
    {
        if v[i] == LF {
            let ghost old_out = out.deep_view();
            if cur.len() > 0 && cur[cur.len() - 1] == CR {
                cur.pop();
            }
            let ghost cv = cur@;
            out.push(cur);
            cur = Vec::new();
            proof {
                assert(out.deep_view() =~~= old_out + seq![cv]);
            }
        } else {
            cur.push(v[i]);
        }
        i += 1;
    }
    if cur.len() > 0 {
        let ghost old_out = out.deep_view();
        let ghost cv = cur@;
        out.push(cur);
        proof {
            assert(out.deep_view() =~~= old_out + seq![cv]);
        }
    }
    proof {
        assert(out.deep_view() =~~= spec_lines(v@));
    }
    out
}

/// A non-empty document has at least one line.
pub proof fn lemma_nonempty_has_a_line(s: Seq<u8>)
    requires
        s.len() > 0,
    ensures
        spec_lines(s).len() >= 1,
{
    lemma_lines_from_nonempty(s, 0, Seq::empty());
}

proof fn lemma_lines_from_nonempty(s: Seq<u8>, i: int, cur: Seq<u8>)
    requires
        0 <= i,
        i < s.len() || cur.len() > 0,
    ensures
        lines_from(s, i, cur).len() >= 1,
    decreases s.len() - i,
{
    if i < s.len() {
        if s[i] == LF {
        } else {
            lemma_lines_from_nonempty(s, i + 1, cur.push(s[i]));
        }
    }
}

} // verus!
