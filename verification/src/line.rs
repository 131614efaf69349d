//! The line dispatcher: splits one line at its first `=` into a
//! one-letter field name and a trimmed value, and hands the value to the
//! typed parser of that letter.  All outcomes collapse into the three-way
//! `SdpParserResult`.

use vstd::prelude::*;

use crate::fields::{parse_attribute, parse_bandwidth, parse_connection, parse_email,
    parse_information, parse_key, parse_media, parse_origin, parse_phone, parse_repeat,
    parse_session, parse_timing, parse_uri, parse_version, parse_zone};
use crate::fields::{spec_attribute_outcome, spec_bandwidth_outcome, spec_connection_outcome,
    spec_media_outcome, spec_origin_outcome, spec_timing_outcome, spec_version_outcome};
use crate::fields::{spec_bandwidth_message, spec_connection_message, spec_media_message,
    spec_origin_message, spec_timing_message, spec_version_message};
use crate::text::{first_index, spec_lower_byte, spec_trim, EQUALS};
use crate::text::{find_byte, lemma_first_index_from_props, lower_byte, subrange_vec, trim_bytes};
use crate::types::{err_line, err_message, kind_of, line_error, ParseKind, SdpParserResult};

verus! {

/// The outcome of one line.  A line without `=`, with a field name that is
/// not exactly one byte after trimming, or with an empty trimmed value is
/// a hard error.  Otherwise the trimmed value goes to the typed parser of
/// the field letter, compared without regard to ASCII case; the letters
/// `e`, `i`, `k`, `p`, `r`, `s`, `u` and `z` are accepted unconditionally,
/// and a letter outside the fixed table of fifteen is a hard error.
pub open spec fn spec_line_outcome(line: Seq<u8>) -> ParseKind {
    let eq = first_index(line, EQUALS);
    if eq == line.len() {
        ParseKind::LineError
    } else {
        let name = spec_trim(line.subrange(0, eq));
        let value = spec_trim(line.subrange(eq + 1, line.len() as int));
        if name.len() != 1 {
            ParseKind::LineError
        } else if value.len() == 0 {
            ParseKind::LineError
        } else {
            let c = spec_lower_byte(name[0]);
            if c == 97 {  // a
                spec_attribute_outcome(value)
            } else if c == 98 {  // b
                spec_bandwidth_outcome(value)
            } else if c == 99 {  // c
                spec_connection_outcome(value)
            } else if c == 101 || c == 105 || c == 107 || c == 112 || c == 114 || c == 115 || c
                == 117 || c == 122 {  // e i k p r s u z
                ParseKind::Parsed
            } else if c == 109 {  // m
                spec_media_outcome(value)
            } else if c == 111 {  // o
                spec_origin_outcome(value)
            } else if c == 116 {  // t
                spec_timing_outcome(value)
            } else if c == 118 {  // v
                spec_version_outcome(value)
            } else {
                ParseKind::LineError
            }
        }
    }
}

/// The trimmed value of a line: everything after the first `=`, with
/// surrounding ASCII whitespace removed.
pub open spec fn spec_line_value(line: Seq<u8>) -> Seq<u8> {
    spec_trim(line.subrange(first_index(line, EQUALS) + 1, line.len() as int))
}

/// The trimmed field name of a line: everything before the first `=`, with
/// surrounding ASCII whitespace removed.
pub open spec fn spec_line_name(line: Seq<u8>) -> Seq<u8> {
    spec_trim(line.subrange(0, first_index(line, EQUALS)))
}

/// Whether a lower-cased byte is one of the fifteen field letters of the
/// dispatch table.
pub open spec fn is_known_field_letter(c: u8) -> bool {
    c == 97 || c == 98 || c == 99 || c == 101 || c == 105 || c == 107 || c == 109 || c == 111 || c
        == 112 || c == 114 || c == 115 || c == 116 || c == 117 || c == 122 || c == 118
}

/// Whether the line itself is malformed, before any typed parser runs: no
/// `=`, a trimmed field name that is not exactly one byte, an empty
/// trimmed value, or a field letter outside the dispatch table.
pub open spec fn spec_line_shape_error(line: Seq<u8>) -> bool {
    ||| first_index(line, EQUALS) == line.len()
    ||| spec_line_name(line).len() != 1
    ||| spec_line_value(line).len() == 0
    ||| !is_known_field_letter(spec_lower_byte(spec_line_name(line)[0]))
}

/// The diagnostic of a malformed line, naming the first check that failed.
pub open spec fn spec_line_shape_message(line: Seq<u8>) -> Seq<char> {
    if first_index(line, EQUALS) == line.len() {
        "failed to split field and attribute"@
    } else if spec_line_name(line).len() != 1 {
        "field name empty or too long"@
    } else if spec_line_value(line).len() == 0 {
        "attribute value has zero length"@
    } else {
        "unsupported sdp field"@
    }
}

/// The diagnostic a failing typed field parser reports for this
/// lower-cased field letter and trimmed value.  The letters that accept
/// every value never fail; their message is empty.
pub open spec fn spec_field_message(c: u8, value: Seq<u8>) -> Seq<char> {
    if c == 97 {  // a
        "unsupported attribute value"@
    } else if c == 98 {  // b
        spec_bandwidth_message(value)
    } else if c == 99 {  // c
        spec_connection_message(value)
    } else if c == 109 {  // m
        spec_media_message(value)
    } else if c == 111 {  // o
        spec_origin_message(value)
    } else if c == 116 {  // t
        spec_timing_message(value)
    } else if c == 118 {  // v
        spec_version_message(value)
    } else {
        Seq::empty()
    }
}

/// Parses one line of an SDP document: split at the first `=`, trim both
/// sides, dispatch on the field letter.  A malformed line is reported with
/// the complete offending line and the message naming the failed check; a
/// value its typed field parser rejected is reported with the complete
/// trimmed value and that parser's own message, unchanged.
pub fn parse_sdp_line(line: &[u8]) -> (r: SdpParserResult)
    ensures
        kind_of(r) == spec_line_outcome(line@),
        spec_line_shape_error(line@) ==> kind_of(r) == ParseKind::LineError && err_line(r)
            == line@ && err_message(r) == spec_line_shape_message(line@),
        !spec_line_shape_error(line@) && kind_of(r) != ParseKind::Parsed ==> err_line(r)
            == spec_line_value(line@) && err_message(r) == spec_field_message(
            spec_lower_byte(spec_line_name(line@)[0]),
            spec_line_value(line@),
        ),
{
    let eq = find_byte(line, EQUALS);
    proof {
        lemma_first_index_from_props(line@, EQUALS, 0);
    }
    if eq == line.len() {
        return line_error("failed to split field and attribute", line);
    }
    let name_part = subrange_vec(line, 0, eq);
    let name = trim_bytes(name_part.as_slice());
    if name.len() != 1 {
        return line_error("field name empty or too long", line);
    }
    let value_part = subrange_vec(line, eq + 1, line.len());
    let value = trim_bytes(value_part.as_slice());
    if value.len() == 0 {
        return line_error("attribute value has zero length", line);
    }
    let c = lower_byte(name[0]);
    let res = match c {
        97 => parse_attribute(value.as_slice()),
        98 => parse_bandwidth(value.as_slice()),
        99 => parse_connection(value.as_slice()),
        101 => parse_email(value.as_slice()),
        105 => parse_information(value.as_slice()),
        107 => parse_key(value.as_slice()),
        109 => parse_media(value.as_slice()),
        111 => parse_origin(value.as_slice()),
        112 => parse_phone(value.as_slice()),
        114 => parse_repeat(value.as_slice()),
        115 => parse_session(value.as_slice()),
        116 => parse_timing(value.as_slice()),
        117 => parse_uri(value.as_slice()),
        118 => parse_version(value.as_slice()),
        122 => parse_zone(value.as_slice()),
        _ => {
            return line_error("unsupported sdp field", line);
        },
    };
    match res {
        Ok(_) => SdpParserResult::ParsedSuccessfully,
        Err(e) => e,
    }
}

} // verus!
