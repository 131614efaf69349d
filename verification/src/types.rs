//! The data model of a parsed SDP document: one type per field kind, the
//! `SdpLine` union over them, and the three-way outcome every parsing step
//! reports.  Textual fields hold the bytes of the source token as they stood in the input.

use vstd::prelude::*;

verus! {

/// The network type of an origin or connection field; `IN` (internet) is
/// the only defined value.
#[derive(Debug)]
pub enum SdpNetType {
    SdpNetTypeIn,
}

/// The media kind of a media field.
#[derive(Clone, Copy, Debug)]
pub enum SdpMediaValue {
    SdpMediaAudio,
    SdpMediaVideo,
    SdpMediaApplication,
}

/// The transport/security profile of a media field; one of the five
/// recognized combinations.
#[derive(Debug)]
pub enum SdpProtocolValue {
    SdpProtoUdpTlsRtpSavpf,
    SdpProtoTcpTlsRtpSavpf,
    SdpProtoDtlsSctp,
    SdpProtoUdpDtlsSctp,
    SdpProtoTcpDtlsSctp,
}

/// The format list of a media field: payload-type numbers for audio and
/// video media, opaque format names for application media.
#[derive(Debug)]
pub enum SdpFormatList {
    SdpFormatIntegers { list: Vec<u32> },
    SdpFormatStrings { list: Vec<Vec<u8>> },
}

/// An attribute field: a recognized name and an opaque, possibly empty,
/// payload.
#[derive(Debug)]
pub struct SdpAttribute {
    pub name: Vec<u8>,
    pub value: Vec<u8>,
}

/// A bandwidth field: a recognized bandwidth type and its value.
#[derive(Debug)]
pub struct SdpBandwidth {
    pub bwtype: Vec<u8>,
    pub bandwidth: u64,
}

/// A connection field: network type, address type and a syntactically
/// valid unicast address literal of that type.
#[derive(Debug)]
pub struct SdpConnection {
    pub nettype: SdpNetType,
    pub addrtype: Vec<u8>,
    pub unicast_addr: Vec<u8>,
}

/// An origin field: username, session identifiers, and the same address
/// sub-structure as a connection field.
#[derive(Debug)]
pub struct SdpOrigin {
    pub username: Vec<u8>,
    pub session_id: u64,
    pub session_version: u64,
    pub nettype: SdpNetType,
    pub addrtype: Vec<u8>,
    pub unicast_addr: Vec<u8>,
}

/// A timing field: start and stop time.
#[derive(Debug)]
pub struct SdpTiming {
    pub start: u64,
    pub stop: u64,
}

/// A media field: kind, port, protocol and format list.
#[derive(Debug)]
pub struct SdpMedia {
    pub media: SdpMediaValue,
    pub port: u32,
    pub proto: SdpProtocolValue,
    pub formats: SdpFormatList,
}

/// One successfully parsed line, tagged by its field kind.
#[derive(Debug)]
pub enum SdpLine {
    Attribute { attribute: SdpAttribute },
    Bandwidth { bandwidth: SdpBandwidth },
    Connection { connection: SdpConnection },
    Media { media: SdpMedia },
    Origin { origin: SdpOrigin },
    SdpString { string: Vec<u8> },
    SdpUInt { uint: u64 },
    Timing { timing: SdpTiming },
}

/// The outcome of parsing one line: parsed, failed under a hard protocol
/// rule, or well-formed but outside the recognized vocabulary.  Errors and
/// warnings carry a message and the full offending source text.
#[derive(Debug)]
pub enum SdpParserResult {
    ParsedSuccessfully,
    ParserLineError { message: String, line: Vec<u8> },
    ParserUnsupported { message: String, line: Vec<u8> },
}

/// The three kinds a parsing outcome can take, without payload.
pub enum ParseKind {
    Parsed,
    LineError,
    Unsupported,
}

/// The kind of an outcome.
pub open spec fn kind_of(r: SdpParserResult) -> ParseKind {
    match r {
        SdpParserResult::ParsedSuccessfully => ParseKind::Parsed,
        SdpParserResult::ParserLineError { .. } => ParseKind::LineError,
        SdpParserResult::ParserUnsupported { .. } => ParseKind::Unsupported,
    }
}

/// The source text an error or warning carries; empty for a success.
pub open spec fn err_line(r: SdpParserResult) -> Seq<u8> {
    match r {
        SdpParserResult::ParsedSuccessfully => Seq::empty(),
        SdpParserResult::ParserLineError { line, .. } => line@,
        SdpParserResult::ParserUnsupported { line, .. } => line@,
    }
}

/// The diagnostic message an error or warning carries; empty for a
/// success.
pub open spec fn err_message(r: SdpParserResult) -> Seq<char> {
    match r {
        SdpParserResult::ParsedSuccessfully => Seq::empty(),
        SdpParserResult::ParserLineError { message, .. } => message@,
        SdpParserResult::ParserUnsupported { message, .. } => message@,
    }
}

/// The kind a typed field parser's result collapses to: parsed on success,
/// else the kind of the reported outcome.
pub open spec fn res_kind(r: Result<SdpLine, SdpParserResult>) -> ParseKind {
    match r {
        Result::Ok(_) => ParseKind::Parsed,
        Result::Err(e) => kind_of(e),
    }
}

impl SdpParserResult {
    /// Whether this outcome is a success.
    pub fn is_success(&self) -> (r: bool)
        ensures
            r == (kind_of(*self) == ParseKind::Parsed),
    {
        match self {
            SdpParserResult::ParsedSuccessfully => true,
            _ => false,
        }
    }

    /// Whether this outcome is a hard line error.
    pub fn is_line_error(&self) -> (r: bool)
        ensures
            r == (kind_of(*self) == ParseKind::LineError),
    {
        match self {
            SdpParserResult::ParserLineError { .. } => true,
            _ => false,
        }
    }

    /// Whether this outcome is an unsupported-vocabulary warning.
    pub fn is_unsupported(&self) -> (r: bool)
        ensures
            r == (kind_of(*self) == ParseKind::Unsupported),
    {
        match self {
            SdpParserResult::ParserUnsupported { .. } => true,
            _ => false,
        }
    }
}

/// Builds a hard line error carrying the full offending source text.
pub fn line_error(message: &str, line: &[u8]) -> (r: SdpParserResult)
    ensures
        kind_of(r) == ParseKind::LineError,
        err_line(r) == line@,
        err_message(r) == message@,
{
    SdpParserResult::ParserLineError {
        message: message.to_owned(),
        line: vstd::slice::slice_to_vec(line),
    }
}

/// Builds an unsupported-vocabulary warning carrying the full offending
/// source text.
pub fn unsupported(message: &str, line: &[u8]) -> (r: SdpParserResult)
    ensures
        kind_of(r) == ParseKind::Unsupported,
        err_line(r) == line@,
        err_message(r) == message@,
{
    SdpParserResult::ParserUnsupported {
        message: message.to_owned(),
        line: vstd::slice::slice_to_vec(line),
    }
}

} // verus!
