//! A verified parser for Session Description Protocol (SDP) text bodies.
//!
//! The parser reads an SDP document line by line, dispatches each line on its
//! one-letter field name to a typed field parser, and accumulates line errors
//! and (optionally) unsupported-vocabulary warnings into a final accept or
//! reject verdict.  Every executable function is specified against spec
//! functions over byte sequences that define the accepted grammar.

use vstd::prelude::*;
use vstd::string::StringSliceAdditionalSpecFns;

pub mod addr;
pub mod fields;
pub mod line;
pub mod num;
pub mod render;
pub mod text;
pub mod types;

use crate::line::{parse_sdp_line, spec_line_outcome};
use crate::text::{lemma_nonempty_has_a_line, spec_lines, split_lines};
use crate::types::{ParseKind, SdpParserResult};

verus! {

/// Whether one line leaves the document acceptable.  A parsed line always
/// does, a hard line error never does, and an unsupported-vocabulary
/// warning only when the caller left warnings advisory.
pub open spec fn spec_line_accepted(l: Seq<u8>, fail_on_warning: bool) -> bool {
    match spec_line_outcome(l) {
        ParseKind::Parsed => true,
        ParseKind::LineError => false,
        ParseKind::Unsupported => !fail_on_warning,
    }
}

/// The verdict on a whole document: an empty document is rejected, and a
/// non-empty one is accepted exactly when every line is accepted.  Lines
/// are independent; no ordering or multiplicity rule is enforced.
pub open spec fn spec_parse_sdp(s: Seq<u8>, fail_on_warning: bool) -> bool {
    s.len() > 0 && (forall|i: int|
        0 <= i < spec_lines(s).len() ==> spec_line_accepted(spec_lines(s)[i], fail_on_warning))
}

/// Parses a whole SDP document given as bytes.  Every line is attempted,
/// even after earlier failures.
pub fn parse_sdp_bytes(sdp: &[u8], fail_on_warning: bool) -> (r: bool)
    ensures
        r == spec_parse_sdp(sdp@, fail_on_warning),
{
    if sdp.len() == 0 {
        return false;
    }
    let lines = split_lines(sdp);
    let ghost ls = spec_lines(sdp@);
    let mut ok = true;
    let mut i: usize = 0;
    while i < lines.len()
        invariant
            0 <= i <= lines@.len(),
            lines.deep_view() == ls,
            ls == spec_lines(sdp@),
            ok == (forall|j: int| 0 <= j < i ==> spec_line_accepted(ls[j], fail_on_warning)),
        decreases lines@.len() - i,
    {
        proof {
            assert(lines@[i as int]@ =~= ls[i as int]);
        }
        let outcome = parse_sdp_line(lines[i].as_slice());
        match outcome {
            SdpParserResult::ParsedSuccessfully => {},
            SdpParserResult::ParserLineError { .. } => {
                ok = false;
            },
            SdpParserResult::ParserUnsupported { .. } => {
                if fail_on_warning {
                    ok = false;
                }
            },
        }
        i += 1;
    }
    ok
}

/// Parses a whole SDP document.  The verdict is `true` exactly when the
/// document is non-empty, no line breaks a hard protocol rule, and — when
/// `fail_on_warning` is set — no line carries unsupported vocabulary.
pub fn parse_sdp(sdp: &str, fail_on_warning: bool) -> (r: bool)
    ensures
        r == spec_parse_sdp(sdp.spec_bytes(), fail_on_warning),
{
    parse_sdp_bytes(sdp.as_bytes(), fail_on_warning)
}

/// A non-empty document whose every line is individually parsed by its
/// typed field parser is accepted, under either warning mode.
pub proof fn lemma_all_lines_parsed_accepts(doc: Seq<u8>, fail_on_warning: bool)
    requires
        doc.len() > 0,
        forall|i: int|
            0 <= i < spec_lines(doc).len() ==> spec_line_outcome(spec_lines(doc)[i])
                == ParseKind::Parsed,
    ensures
        spec_parse_sdp(doc, fail_on_warning),
{
}

/// A document with at least one line that breaks a hard protocol rule is
/// rejected, under either warning mode.
pub proof fn lemma_hard_error_rejects(doc: Seq<u8>, i: int, fail_on_warning: bool)
    requires
        0 <= i < spec_lines(doc).len(),
        spec_line_outcome(spec_lines(doc)[i]) == ParseKind::LineError,
    ensures
        !spec_parse_sdp(doc, fail_on_warning),
{
}

/// A non-empty document whose every line is well-formed but unrecognized
/// vocabulary is accepted when warnings are advisory and rejected when
/// they are fatal.
pub proof fn lemma_only_unsupported_lines(doc: Seq<u8>)
    requires
        doc.len() > 0,
        forall|i: int|
            0 <= i < spec_lines(doc).len() ==> spec_line_outcome(spec_lines(doc)[i])
                == ParseKind::Unsupported,
    ensures
        spec_parse_sdp(doc, false),
        !spec_parse_sdp(doc, true),
{
    lemma_nonempty_has_a_line(doc);
    assert(!spec_line_accepted(spec_lines(doc)[0], true));
}

/// An empty document is always rejected.
pub proof fn lemma_empty_document_rejected(fail_on_warning: bool)
    ensures
        !spec_parse_sdp(Seq::empty(), fail_on_warning),
{
}

} // verus!
