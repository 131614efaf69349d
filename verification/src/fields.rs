//! The typed field parsers, one per SDP field letter, and their shared
//! sub-value parsers.  Each parser takes the trimmed value bytes of its
//! line and yields either a typed `SdpLine` or the outcome describing why
//! the value was rejected.  Failures under a hard protocol rule are line
//! errors; well-formed values outside the recognized vocabulary are
//! unsupported warnings.  Each parser's spec function states exactly which
//! outcome any value receives.

use vstd::prelude::*;
use vstd::string::StringSliceAdditionalSpecFns;

use crate::addr::{is_ipv4_bytes, is_ipv6_bytes, spec_is_ipv4, spec_is_ipv6};
use crate::num::{parse_u32_bytes, parse_u64_bytes, spec_parse_u32, spec_parse_u64};
use crate::text::{lower_bytes, spec_lower, spec_split, spec_ws_tokens, split_bytes,
    split_ws_tokens, subrange_vec, COLON};
use crate::text::{find_byte, first_index};
use crate::text::bytes_eq;
use crate::types::{err_line, err_message, kind_of, line_error, res_kind, unsupported, ParseKind, SdpAttribute,
    SdpBandwidth, SdpConnection, SdpFormatList, SdpLine, SdpMedia, SdpMediaValue, SdpNetType,
    SdpOrigin, SdpParserResult, SdpProtocolValue, SdpTiming};

verus! {

/// Whether a token is the network type `IN`, compared without regard to
/// ASCII case.
pub open spec fn spec_nettype_ok(t: Seq<u8>) -> bool {
    spec_lower(t) == "in".spec_bytes()
}

/// The media kind a media token names, compared without regard to ASCII
/// case; `None` for unrecognized vocabulary.
pub open spec fn spec_media_kind(t: Seq<u8>) -> Option<SdpMediaValue> {
    let l = spec_lower(t);
    if l == "audio".spec_bytes() {
        Some(SdpMediaValue::SdpMediaAudio)
    } else if l == "video".spec_bytes() {
        Some(SdpMediaValue::SdpMediaVideo)
    } else if l == "application".spec_bytes() {
        Some(SdpMediaValue::SdpMediaApplication)
    } else {
        None
    }
}

/// The protocol a protocol token names, compared without regard to ASCII
/// case; `None` for unrecognized vocabulary.
pub open spec fn spec_protocol_kind(t: Seq<u8>) -> Option<SdpProtocolValue> {
    let l = spec_lower(t);
    if l == "udp/tls/rtp/savpf".spec_bytes() {
        Some(SdpProtocolValue::SdpProtoUdpTlsRtpSavpf)
    } else if l == "tcp/tls/rtp/savpf".spec_bytes() {
        Some(SdpProtocolValue::SdpProtoTcpTlsRtpSavpf)
    } else if l == "dtls/sctp".spec_bytes() {
        Some(SdpProtocolValue::SdpProtoDtlsSctp)
    } else if l == "udp/dtls/sctp".spec_bytes() {
        Some(SdpProtocolValue::SdpProtoUdpDtlsSctp)
    } else if l == "tcp/dtls/sctp".spec_bytes() {
        Some(SdpProtocolValue::SdpProtoTcpDtlsSctp)
    } else {
        None
    }
}

/// Whether an address type and address literal fit together: `IP4` with a
/// valid IPv4 literal, or `IP6` with a valid IPv6 literal.
pub open spec fn spec_addr_ok(addrtype: Seq<u8>, addr: Seq<u8>) -> bool {
    if spec_lower(addrtype) == "ip4".spec_bytes() {
        spec_is_ipv4(addr)
    } else if spec_lower(addrtype) == "ip6".spec_bytes() {
        spec_is_ipv6(addr)
    } else {
        false
    }
}

/// Why an address-type/address pair was rejected.
pub enum AddressError {
    BadAddrType,
    BadIp4,
    BadIp6,
}

/// The shared address sub-parser of the origin and connection fields:
/// accepts `IP4` with a syntactically valid IPv4 literal and `IP6` with a
/// syntactically valid IPv6 literal, naming what failed otherwise.
pub fn check_unicast_addr(addrtype: &[u8], addr: &[u8]) -> (r: Result<(), AddressError>)
    ensures
        r is Ok <==> spec_addr_ok(addrtype@, addr@),
        r == Err::<(), AddressError>(AddressError::BadAddrType) <==> (spec_lower(addrtype@)
            != "ip4".spec_bytes() && spec_lower(addrtype@) != "ip6".spec_bytes()),
        r == Err::<(), AddressError>(AddressError::BadIp4) <==> (spec_lower(addrtype@)
            == "ip4".spec_bytes() && !spec_is_ipv4(addr@)),
        r == Err::<(), AddressError>(AddressError::BadIp6) <==> (spec_lower(addrtype@)
            != "ip4".spec_bytes() && spec_lower(addrtype@) == "ip6".spec_bytes() && !spec_is_ipv6(
            addr@,
        )),
{
    let l = lower_bytes(addrtype);
    if bytes_eq(l.as_slice(), "ip4".as_bytes()) {
        if is_ipv4_bytes(addr) {
            Ok(())
        } else {
            Err(AddressError::BadIp4)
        }
    } else if bytes_eq(l.as_slice(), "ip6".as_bytes()) {
        if is_ipv6_bytes(addr) {
            Ok(())
        } else {
            Err(AddressError::BadIp6)
        }
    } else {
        Err(AddressError::BadAddrType)
    }
}

/// Wraps an opaque value in a plain-string line.
pub fn create_sdp_string(value: &[u8]) -> (r: SdpLine)
    ensures
        r matches SdpLine::SdpString { string } && string@ == value@,
{
    SdpLine::SdpString { string: vstd::slice::slice_to_vec(value) }
}

/// Parses the network type of an origin or connection field, which must be
/// `IN` in any ASCII case.
pub fn parse_nettype(value: &[u8]) -> (r: Result<SdpNetType, SdpParserResult>)
    ensures
        r is Ok <==> spec_nettype_ok(value@),
        r matches Ok(n) ==> n == SdpNetType::SdpNetTypeIn,
        r matches Err(e) ==> kind_of(e) == ParseKind::LineError && err_line(e) == value@
            && err_message(e) == "nettype needs to be IN"@,
{
    let l = lower_bytes(value);
    if bytes_eq(l.as_slice(), "in".as_bytes()) {
        Ok(SdpNetType::SdpNetTypeIn)
    } else {
        Err(line_error("nettype needs to be IN", value))
    }
}

/// Parses a media token into its media kind; an unrecognized token is
/// unsupported vocabulary, not a hard error.
pub fn parse_media_token(value: &[u8]) -> (r: Result<SdpMediaValue, SdpParserResult>)
    ensures
        r is Ok <==> spec_media_kind(value@) is Some,
        r matches Ok(m) ==> Some(m) == spec_media_kind(value@),
        r matches Err(e) ==> kind_of(e) == ParseKind::Unsupported && err_line(e) == value@
            && err_message(e) == "unsupported media value"@,
{
    let l = lower_bytes(value);
    if bytes_eq(l.as_slice(), "audio".as_bytes()) {
        Ok(SdpMediaValue::SdpMediaAudio)
    } else if bytes_eq(l.as_slice(), "video".as_bytes()) {
        Ok(SdpMediaValue::SdpMediaVideo)
    } else if bytes_eq(l.as_slice(), "application".as_bytes()) {
        Ok(SdpMediaValue::SdpMediaApplication)
    } else {
        Err(unsupported("unsupported media value", value))
    }
}

/// Parses a protocol token into its protocol value; an unrecognized token
/// is unsupported vocabulary, not a hard error.
pub fn parse_protocol_token(value: &[u8]) -> (r: Result<SdpProtocolValue, SdpParserResult>)
    ensures
        r is Ok <==> spec_protocol_kind(value@) is Some,
        r matches Ok(p) ==> Some(p) == spec_protocol_kind(value@),
        r matches Err(e) ==> kind_of(e) == ParseKind::Unsupported && err_line(e) == value@
            && err_message(e) == "unsupported protocol value"@,
{
    let l = lower_bytes(value);
    if bytes_eq(l.as_slice(), "udp/tls/rtp/savpf".as_bytes()) {
        Ok(SdpProtocolValue::SdpProtoUdpTlsRtpSavpf)
    } else if bytes_eq(l.as_slice(), "tcp/tls/rtp/savpf".as_bytes()) {
        Ok(SdpProtocolValue::SdpProtoTcpTlsRtpSavpf)
    } else if bytes_eq(l.as_slice(), "dtls/sctp".as_bytes()) {
        Ok(SdpProtocolValue::SdpProtoDtlsSctp)
    } else if bytes_eq(l.as_slice(), "udp/dtls/sctp".as_bytes()) {
        Ok(SdpProtocolValue::SdpProtoUdpDtlsSctp)
    } else if bytes_eq(l.as_slice(), "tcp/dtls/sctp".as_bytes()) {
        Ok(SdpProtocolValue::SdpProtoTcpDtlsSctp)
    } else {
        Err(unsupported("unsupported protocol value", value))
    }
}

/// The outcome of the version field: the value must be the unsigned
/// integer zero; anything else breaks a hard protocol rule.
pub open spec fn spec_version_outcome(v: Seq<u8>) -> ParseKind {
    match spec_parse_u64(v) {
        Option::None => ParseKind::LineError,
        Option::Some(n) => if n == 0 {
            ParseKind::Parsed
        } else {
            ParseKind::LineError
        },
    }
}

/// The diagnostic of a failing version value: it names whether the value
/// was no unsigned integer at all or an integer other than zero.
pub open spec fn spec_version_message(v: Seq<u8>) -> Seq<char> {
    if spec_parse_u64(v) is None {
        "failed to parse v field attribute"@
    } else {
        "unsupported version in v field"@
    }
}

/// Parses the version field `v=`.
pub fn parse_version(value: &[u8]) -> (r: Result<SdpLine, SdpParserResult>)
    ensures
        res_kind(r) == spec_version_outcome(value@),
        r matches Ok(l) ==> l matches SdpLine::SdpUInt { uint } && uint == 0,
        r matches Err(e) ==> kind_of(e) != ParseKind::Parsed && err_line(e) == value@
            && err_message(e) == spec_version_message(value@),
{
    let ver = match parse_u64_bytes(value) {
        Some(n) => n,
        None => {
            return Err(line_error("failed to parse v field attribute", value));
        },
    };
    if ver != 0 {
        return Err(line_error("unsupported version in v field", value));
    }
    Ok(SdpLine::SdpUInt { uint: ver })
}

/// The outcome of the origin field: exactly six whitespace tokens — a
/// username, two unsigned 64-bit integers, the network type `IN`, and an
/// address type with a matching address literal.
pub open spec fn spec_origin_outcome(v: Seq<u8>) -> ParseKind {
    let t = spec_ws_tokens(v);
    if t.len() != 6 {
        ParseKind::LineError
    } else if spec_parse_u64(t[1]) is None {
        ParseKind::LineError
    } else if spec_parse_u64(t[2]) is None {
        ParseKind::LineError
    } else if !spec_nettype_ok(t[3]) {
        ParseKind::LineError
    } else if !spec_addr_ok(t[4], t[5]) {
        ParseKind::LineError
    } else {
        ParseKind::Parsed
    }
}

/// The diagnostic of a failing origin value: it names the first check that
/// failed — token count, session id, session version, network type, the
/// address literal of the declared type, or an unknown address type.
pub open spec fn spec_origin_message(v: Seq<u8>) -> Seq<char> {
    let t = spec_ws_tokens(v);
    if t.len() != 6 {
        "origin field must have six tokens"@
    } else if spec_parse_u64(t[1]) is None {
        "failed to parse origin session id attribute"@
    } else if spec_parse_u64(t[2]) is None {
        "failed to parse origin session version attribute"@
    } else if !spec_nettype_ok(t[3]) {
        "nettype needs to be IN"@
    } else if spec_lower(t[4]) == "ip4".spec_bytes() {
        "failed to parse origin unicast IP4 address attribute"@
    } else if spec_lower(t[4]) == "ip6".spec_bytes() {
        "failed to parse origin unicast IP6 address attribute"@
    } else {
        "address type in origin needs to be IP4 or IP6"@
    }
}

/// Parses the origin field `o=`.
pub fn parse_origin(value: &[u8]) -> (r: Result<SdpLine, SdpParserResult>)
    ensures
        res_kind(r) == spec_origin_outcome(value@),
        r matches Err(e) ==> kind_of(e) == ParseKind::LineError && err_line(e) == value@
            && err_message(e) == spec_origin_message(value@),
        r matches Ok(l) ==> l matches SdpLine::Origin { origin } && {
            let t = spec_ws_tokens(value@);
            &&& origin.username@ == t[0]
            &&& Some(origin.session_id) == spec_parse_u64(t[1])
            &&& Some(origin.session_version) == spec_parse_u64(t[2])
            &&& origin.nettype == SdpNetType::SdpNetTypeIn
            &&& origin.addrtype@ == t[4]
            &&& origin.unicast_addr@ == t[5]
        },
{
    let toks = split_ws_tokens(value);
    let ghost t = spec_ws_tokens(value@);
    if toks.len() != 6 {
        return Err(line_error("origin field must have six tokens", value));
    }
    proof {
        assert(toks@[0]@ =~= t[0]);
        assert(toks@[1]@ =~= t[1]);
        assert(toks@[2]@ =~= t[2]);
        assert(toks@[3]@ =~= t[3]);
        assert(toks@[4]@ =~= t[4]);
        assert(toks@[5]@ =~= t[5]);
    }
    let session_id = match parse_u64_bytes(toks[1].as_slice()) {
        Some(n) => n,
        None => {
            return Err(line_error("failed to parse origin session id attribute", value));
        },
    };
    let session_version = match parse_u64_bytes(toks[2].as_slice()) {
        Some(n) => n,
        None => {
            return Err(line_error("failed to parse origin session version attribute", value));
        },
    };
    let nettype = match parse_nettype(toks[3].as_slice()) {
        Ok(n) => n,
        Err(_) => {
            return Err(line_error("nettype needs to be IN", value));
        },
    };
    match check_unicast_addr(toks[4].as_slice(), toks[5].as_slice()) {
        Ok(()) => {},
        Err(AddressError::BadAddrType) => {
            return Err(line_error("address type in origin needs to be IP4 or IP6", value));
        },
        Err(AddressError::BadIp4) => {
            return Err(
                line_error("failed to parse origin unicast IP4 address attribute", value),
            );
        },
        Err(AddressError::BadIp6) => {
            return Err(
                line_error("failed to parse origin unicast IP6 address attribute", value),
            );
        },
    }
    let o = SdpOrigin {
        username: vstd::slice::slice_to_vec(toks[0].as_slice()),
        session_id,
        session_version,
        nettype,
        addrtype: vstd::slice::slice_to_vec(toks[4].as_slice()),
        unicast_addr: vstd::slice::slice_to_vec(toks[5].as_slice()),
    };
    Ok(SdpLine::Origin { origin: o })
}

/// The outcome of the connection field: exactly three whitespace tokens —
/// the network type `IN`, and an address type with a matching address
/// literal.
pub open spec fn spec_connection_outcome(v: Seq<u8>) -> ParseKind {
    let t = spec_ws_tokens(v);
    if t.len() != 3 {
        ParseKind::LineError
    } else if !spec_nettype_ok(t[0]) {
        ParseKind::LineError
    } else if !spec_addr_ok(t[1], t[2]) {
        ParseKind::LineError
    } else {
        ParseKind::Parsed
    }
}

/// The diagnostic of a failing connection value: it names the first check
/// that failed — token count, network type, the address literal of the
/// declared type, or an unknown address type.
pub open spec fn spec_connection_message(v: Seq<u8>) -> Seq<char> {
    let t = spec_ws_tokens(v);
    if t.len() != 3 {
        "connection attribute must have three tokens"@
    } else if !spec_nettype_ok(t[0]) {
        "nettype needs to be IN"@
    } else if spec_lower(t[1]) == "ip4".spec_bytes() {
        "failed to parse connection IP4 address attribute"@
    } else if spec_lower(t[1]) == "ip6".spec_bytes() {
        "failed to parse connection IP6 address attribute"@
    } else {
        "address type in connection needs to be IP4 or IP6"@
    }
}

/// Parses the connection field `c=`.
pub fn parse_connection(value: &[u8]) -> (r: Result<SdpLine, SdpParserResult>)
    ensures
        res_kind(r) == spec_connection_outcome(value@),
        r matches Err(e) ==> kind_of(e) == ParseKind::LineError && err_line(e) == value@
            && err_message(e) == spec_connection_message(value@),
        r matches Ok(l) ==> l matches SdpLine::Connection { connection } && {
            let t = spec_ws_tokens(value@);
            &&& connection.nettype == SdpNetType::SdpNetTypeIn
            &&& connection.addrtype@ == t[1]
            &&& connection.unicast_addr@ == t[2]
        },
{
    let toks = split_ws_tokens(value);
    let ghost t = spec_ws_tokens(value@);
    if toks.len() != 3 {
        return Err(line_error("connection attribute must have three tokens", value));
    }
    proof {
        assert(toks@[0]@ =~= t[0]);
        assert(toks@[1]@ =~= t[1]);
        assert(toks@[2]@ =~= t[2]);
    }
    let nettype = match parse_nettype(toks[0].as_slice()) {
        Ok(n) => n,
        Err(_) => {
            return Err(line_error("nettype needs to be IN", value));
        },
    };
    match check_unicast_addr(toks[1].as_slice(), toks[2].as_slice()) {
        Ok(()) => {},
        Err(AddressError::BadAddrType) => {
            return Err(line_error("address type in connection needs to be IP4 or IP6", value));
        },
        Err(AddressError::BadIp4) => {
            return Err(line_error("failed to parse connection IP4 address attribute", value));
        },
        Err(AddressError::BadIp6) => {
            return Err(line_error("failed to parse connection IP6 address attribute", value));
        },
    }
    let c = SdpConnection {
        nettype,
        addrtype: vstd::slice::slice_to_vec(toks[1].as_slice()),
        unicast_addr: vstd::slice::slice_to_vec(toks[2].as_slice()),
    };
    Ok(SdpLine::Connection { connection: c })
}

/// Whether a bandwidth type token is recognized: `AS` or `TIAS`, compared
/// without regard to ASCII case.
pub open spec fn spec_bwtype_ok(t: Seq<u8>) -> bool {
    spec_lower(t) == "as".spec_bytes() || spec_lower(t) == "tias".spec_bytes()
}

/// The outcome of the bandwidth field: exactly two colon-separated tokens;
/// an unrecognized bandwidth type is unsupported vocabulary, an
/// unparseable number a hard error.
pub open spec fn spec_bandwidth_outcome(v: Seq<u8>) -> ParseKind {
    let parts = spec_split(v, COLON);
    if parts.len() != 2 {
        ParseKind::LineError
    } else if !spec_bwtype_ok(parts[0]) {
        ParseKind::Unsupported
    } else if spec_parse_u64(parts[1]) is None {
        ParseKind::LineError
    } else {
        ParseKind::Parsed
    }
}

/// The diagnostic of a failing bandwidth value: it names the first check
/// that failed — token count, bandwidth type, or the number.
pub open spec fn spec_bandwidth_message(v: Seq<u8>) -> Seq<char> {
    let parts = spec_split(v, COLON);
    if parts.len() != 2 {
        "bandwidth attribute must have two tokens"@
    } else if !spec_bwtype_ok(parts[0]) {
        "unsupported bandwidth type value"@
    } else {
        "failed to parse bandwidth number attribute"@
    }
}

/// Parses the bandwidth field `b=`.
pub fn parse_bandwidth(value: &[u8]) -> (r: Result<SdpLine, SdpParserResult>)
    ensures
        res_kind(r) == spec_bandwidth_outcome(value@),
        r matches Err(e) ==> kind_of(e) != ParseKind::Parsed && err_line(e) == value@
            && err_message(e) == spec_bandwidth_message(value@),
        r matches Ok(l) ==> l matches SdpLine::Bandwidth { bandwidth } && {
            let parts = spec_split(value@, COLON);
            &&& bandwidth.bwtype@ == parts[0]
            &&& Some(bandwidth.bandwidth) == spec_parse_u64(parts[1])
        },
{
    let parts = split_bytes(value, COLON);
    let ghost p = spec_split(value@, COLON);
    if parts.len() != 2 {
        return Err(line_error("bandwidth attribute must have two tokens", value));
    }
    proof {
        assert(parts@[0]@ =~= p[0]);
        assert(parts@[1]@ =~= p[1]);
    }
    let l0 = lower_bytes(parts[0].as_slice());
    if !(bytes_eq(l0.as_slice(), "as".as_bytes()) || bytes_eq(l0.as_slice(), "tias".as_bytes())) {
        return Err(unsupported("unsupported bandwidth type value", value));
    }
    let bandwidth = match parse_u64_bytes(parts[1].as_slice()) {
        Some(n) => n,
        None => {
            return Err(line_error("failed to parse bandwidth number attribute", value));
        },
    };
    let b = SdpBandwidth { bwtype: vstd::slice::slice_to_vec(parts[0].as_slice()), bandwidth };
    Ok(SdpLine::Bandwidth { bandwidth: b })
}

/// The outcome of the timing field: exactly two whitespace tokens, both
/// unsigned 64-bit integers.
pub open spec fn spec_timing_outcome(v: Seq<u8>) -> ParseKind {
    let t = spec_ws_tokens(v);
    if t.len() != 2 {
        ParseKind::LineError
    } else if spec_parse_u64(t[0]) is None {
        ParseKind::LineError
    } else if spec_parse_u64(t[1]) is None {
        ParseKind::LineError
    } else {
        ParseKind::Parsed
    }
}

/// The diagnostic of a failing timing value: it names the first check that
/// failed — token count, the start time, or the stop time.
pub open spec fn spec_timing_message(v: Seq<u8>) -> Seq<char> {
    let t = spec_ws_tokens(v);
    if t.len() != 2 {
        "timing attribute must have two tokens"@
    } else if spec_parse_u64(t[0]) is None {
        "failed to parse timing start time attribute"@
    } else {
        "failed to parse timing stop time attribute"@
    }
}

/// Parses the timing field `t=`.
pub fn parse_timing(value: &[u8]) -> (r: Result<SdpLine, SdpParserResult>)
    ensures
        res_kind(r) == spec_timing_outcome(value@),
        r matches Err(e) ==> kind_of(e) == ParseKind::LineError && err_line(e) == value@
            && err_message(e) == spec_timing_message(value@),
        r matches Ok(l) ==> l matches SdpLine::Timing { timing } && {
            let t = spec_ws_tokens(value@);
            &&& Some(timing.start) == spec_parse_u64(t[0])
            &&& Some(timing.stop) == spec_parse_u64(t[1])
        },
{
    let toks = split_ws_tokens(value);
    let ghost t = spec_ws_tokens(value@);
    if toks.len() != 2 {
        return Err(line_error("timing attribute must have two tokens", value));
    }
    proof {
        assert(toks@[0]@ =~= t[0]);
        assert(toks@[1]@ =~= t[1]);
    }
    let start = match parse_u64_bytes(toks[0].as_slice()) {
        Some(n) => n,
        None => {
            return Err(line_error("failed to parse timing start time attribute", value));
        },
    };
    let stop = match parse_u64_bytes(toks[1].as_slice()) {
        Some(n) => n,
        None => {
            return Err(line_error("failed to parse timing stop time attribute", value));
        },
    };
    let timing = SdpTiming { start, stop };
    Ok(SdpLine::Timing { timing })
}

/// A recognized payload-type number of an audio or video format list: one
/// of the fixed assignments 0 (PCMU), 8 (PCMA), 9 (G722) and 13 (comfort
/// noise), or the dynamic range 96 through 127.
pub open spec fn is_valid_payload_type(n: u32) -> bool {
    n == 0 || n == 8 || n == 9 || n == 13 || (96 <= n && n <= 127)
}

/// Whether every format token of an audio or video media value parses as
/// an unsigned 32-bit integer inside the recognized payload-type set.
pub open spec fn spec_formats_ok(t: Seq<Seq<u8>>) -> bool {
    forall|i: int|
        3 <= i < t.len() ==> spec_parse_u32(t[i]) is Some && is_valid_payload_type(
            spec_parse_u32(t[i]).unwrap(),
        )
}

/// The outcome of the media field: at least four whitespace tokens — a
/// media kind, a port of at most 65535, a protocol, and formats.
/// Unrecognized media or protocol vocabulary is unsupported; a bad port or
/// format is a hard error.  Audio and video formats must be recognized
/// payload-type numbers; application formats are opaque strings.
pub open spec fn spec_media_outcome(v: Seq<u8>) -> ParseKind {
    let t = spec_ws_tokens(v);
    if t.len() < 4 {
        ParseKind::LineError
    } else if spec_media_kind(t[0]) is None {
        ParseKind::Unsupported
    } else if spec_parse_u32(t[1]) is None {
        ParseKind::LineError
    } else if spec_parse_u32(t[1]).unwrap() > 65535 {
        ParseKind::LineError
    } else if spec_protocol_kind(t[2]) is None {
        ParseKind::Unsupported
    } else if spec_media_kind(t[0]) != Some(SdpMediaValue::SdpMediaApplication)
        && !spec_formats_ok(t) {
        ParseKind::LineError
    } else {
        ParseKind::Parsed
    }
}

/// The position of the first format token at or after `i` that is no
/// recognized payload-type number, or the token count when there is none.
pub open spec fn first_bad_format(t: Seq<Seq<u8>>, i: int) -> int
    decreases t.len() - i,
{
    if i < 0 || i >= t.len() {
        t.len() as int
    } else if !(spec_parse_u32(t[i]) is Some && is_valid_payload_type(spec_parse_u32(t[i]).unwrap())) {
        i
    } else {
        first_bad_format(t, i + 1)
    }
}

/// The diagnostic of a failing media value: it names the first check that
/// failed — token count, media kind, port, protocol, or the first bad
/// format token (unparseable, or outside the payload-type set).
pub open spec fn spec_media_message(v: Seq<u8>) -> Seq<char> {
    let t = spec_ws_tokens(v);
    if t.len() < 4 {
        "media attribute must have at least four tokens"@
    } else if spec_media_kind(t[0]) is None {
        "unsupported media value"@
    } else if spec_parse_u32(t[1]) is None {
        "failed to parse media port token"@
    } else if spec_parse_u32(t[1]).unwrap() > 65535 {
        "media port token is too big"@
    } else if spec_protocol_kind(t[2]) is None {
        "unsupported protocol value"@
    } else if spec_parse_u32(t[first_bad_format(t, 3)]) is None {
        "failed to parse format number in media line"@
    } else {
        "format number in media line is out of range"@
    }
}

/// How a media value's format list relates to its source tokens: for audio
/// and video media an integer list holding exactly the parsed payload-type
/// numbers; for application media the format tokens themselves, verbatim.
pub open spec fn spec_formats_match(media: SdpMediaValue, formats: SdpFormatList, t: Seq<Seq<u8>>) -> bool {
    match formats {
        SdpFormatList::SdpFormatIntegers { list } => media != SdpMediaValue::SdpMediaApplication
            && list@.len() == t.len() - 3 && (forall|j: int|
            0 <= j < list@.len() ==> Some(list@[j]) == spec_parse_u32(t[3 + j])),
        SdpFormatList::SdpFormatStrings { list } => media == SdpMediaValue::SdpMediaApplication
            && list.deep_view() == t.subrange(3, t.len() as int),
    }
}

/// Parses the media field `m=`.
pub fn parse_media(value: &[u8]) -> (r: Result<SdpLine, SdpParserResult>)
    ensures
        res_kind(r) == spec_media_outcome(value@),
        r matches Err(e) ==> kind_of(e) != ParseKind::Parsed && err_line(e) == value@
            && err_message(e) == spec_media_message(value@),
        r matches Ok(l) ==> l matches SdpLine::Media { media } && {
            let t = spec_ws_tokens(value@);
            &&& Some(media.media) == spec_media_kind(t[0])
            &&& Some(media.port) == spec_parse_u32(t[1])
            &&& media.port <= 65535
            &&& Some(media.proto) == spec_protocol_kind(t[2])
            &&& spec_formats_match(media.media, media.formats, t)
        },
{
    let toks = split_ws_tokens(value);
    let ghost t = spec_ws_tokens(value@);
    if toks.len() < 4 {
        return Err(line_error("media attribute must have at least four tokens", value));
    }
    proof {
        assert(toks@[0]@ =~= t[0]);
        assert(toks@[1]@ =~= t[1]);
        assert(toks@[2]@ =~= t[2]);
    }
    let media = match parse_media_token(toks[0].as_slice()) {
        Ok(m) => m,
        Err(_) => {
            return Err(unsupported("unsupported media value", value));
        },
    };
    let port = match parse_u32_bytes(toks[1].as_slice()) {
        Some(n) => n,
        None => {
            return Err(line_error("failed to parse media port token", value));
        },
    };
    if port > 65535 {
        return Err(line_error("media port token is too big", value));
    }
    let proto = match parse_protocol_token(toks[2].as_slice()) {
        Ok(p) => p,
        Err(_) => {
            return Err(unsupported("unsupported protocol value", value));
        },
    };
    let formats = match media {
        SdpMediaValue::SdpMediaAudio | SdpMediaValue::SdpMediaVideo => {
            let mut list: Vec<u32> = Vec::new();
            let mut i: usize = 3;
            while i < toks.len()
                invariant
                    3 <= i <= toks@.len(),
                    toks.deep_view() == t,
                    t == spec_ws_tokens(value@),
                    t.len() >= 4,
                    spec_media_kind(t[0]) == Some(media),
                    media != SdpMediaValue::SdpMediaApplication,
                    spec_parse_u32(t[1]) == Some(port),
                    port <= 65535,
                    spec_protocol_kind(t[2]) == Some(proto),
                    list@.len() == i - 3,
                    forall|j: int|
                        0 <= j < list@.len() ==> Some(list@[j]) == spec_parse_u32(t[3 + j])
                            && is_valid_payload_type(list@[j]),
                    first_bad_format(t, 3) == first_bad_format(t, i as int),
                decreases toks@.len() - i,
            {
                proof {
                    assert(toks@[i as int]@ =~= t[i as int]);
                }
                let n = match parse_u32_bytes(toks[i].as_slice()) {
                    Some(n) => n,
                    None => {
                        return Err(
                            line_error("failed to parse format number in media line", value),
                        );
                    },
                };
                if !(n == 0 || n == 8 || n == 9 || n == 13 || (96 <= n && n <= 127)) {
                    return Err(line_error("format number in media line is out of range", value));
                }
                list.push(n);
                i += 1;
            }
            proof {
                assert forall|k: int|
                    3 <= k < t.len() implies spec_parse_u32(t[k]) is Some
                    && is_valid_payload_type(spec_parse_u32(t[k]).unwrap()) by {
                    assert(Some(list@[k - 3]) == spec_parse_u32(t[k]));
                    assert(is_valid_payload_type(list@[k - 3]));
                }
            }
            SdpFormatList::SdpFormatIntegers { list }
        },
        SdpMediaValue::SdpMediaApplication => {
            let mut list: Vec<Vec<u8>> = Vec::new();
            let mut i: usize = 3;
            while i < toks.len()
                invariant
                    3 <= i <= toks@.len(),
                    toks.deep_view() == t,
                    t == spec_ws_tokens(value@),
                    t.len() >= 4,
                    list.deep_view() == t.subrange(3, i as int),
                decreases toks@.len() - i,
            {
                proof {
                    assert(toks@[i as int]@ =~= t[i as int]);
                }
                let ghost old_list = list.deep_view();
                list.push(vstd::slice::slice_to_vec(toks[i].as_slice()));
                proof {
                    assert(list.deep_view() =~~= old_list + seq![t[i as int]]);
                    assert(list.deep_view() =~~= t.subrange(3, i as int + 1));
                }
                i += 1;
            }
            proof {
                assert(t.subrange(3, t.len() as int) =~~= list.deep_view());
            }
            SdpFormatList::SdpFormatStrings { list }
        },
    };
    let m = SdpMedia { media, port, proto, formats };
    Ok(SdpLine::Media { media: m })
}

/// The name part of an attribute value: everything before the first `:`,
/// or the whole value when there is none.
pub open spec fn spec_attr_name(v: Seq<u8>) -> Seq<u8> {
    v.subrange(0, first_index(v, COLON))
}

/// The payload part of an attribute value: everything after the first `:`,
/// or empty when there is none.
pub open spec fn spec_attr_value(v: Seq<u8>) -> Seq<u8> {
    if first_index(v, COLON) == v.len() {
        Seq::empty()
    } else {
        v.subrange(first_index(v, COLON) + 1, v.len() as int)
    }
}

/// Whether an attribute name belongs to the fixed recognized set, compared
/// without regard to ASCII case.
pub open spec fn spec_recognized_attribute(name: Seq<u8>) -> bool {
    let l = spec_lower(name);
    ||| l == "recvonly".spec_bytes()
    ||| l == "sendonly".spec_bytes()
    ||| l == "inactive".spec_bytes()
    ||| l == "sendrecv".spec_bytes()
    ||| l == "ssrc".spec_bytes()
    ||| l == "ssrc-group".spec_bytes()
    ||| l == "rtpmap".spec_bytes()
    ||| l == "fmtp".spec_bytes()
    ||| l == "rtcp".spec_bytes()
    ||| l == "rtcp-fb".spec_bytes()
    ||| l == "rtcp-mux".spec_bytes()
    ||| l == "rtcp-rsize".spec_bytes()
    ||| l == "msid".spec_bytes()
    ||| l == "msid-semantic".spec_bytes()
    ||| l == "mid".spec_bytes()
    ||| l == "ice-ufrag".spec_bytes()
    ||| l == "ice-pwd".spec_bytes()
    ||| l == "ice-options".spec_bytes()
    ||| l == "candidate".spec_bytes()
    ||| l == "end-of-candidates".spec_bytes()
    ||| l == "setup".spec_bytes()
    ||| l == "extmap".spec_bytes()
    ||| l == "group".spec_bytes()
    ||| l == "fingerprint".spec_bytes()
    ||| l == "sctpmap".spec_bytes()
}

/// Checks an attribute name against the fixed recognized set.
pub fn recognized_attribute(name: &[u8]) -> (r: bool)
    ensures
        r == spec_recognized_attribute(name@),
{
    let l = lower_bytes(name);
    let s = l.as_slice();
    bytes_eq(s, "recvonly".as_bytes()) || bytes_eq(s, "sendonly".as_bytes()) || bytes_eq(
        s,
        "inactive".as_bytes(),
    ) || bytes_eq(s, "sendrecv".as_bytes()) || bytes_eq(s, "ssrc".as_bytes()) || bytes_eq(
        s,
        "ssrc-group".as_bytes(),
    ) || bytes_eq(s, "rtpmap".as_bytes()) || bytes_eq(s, "fmtp".as_bytes()) || bytes_eq(
        s,
        "rtcp".as_bytes(),
    ) || bytes_eq(s, "rtcp-fb".as_bytes()) || bytes_eq(s, "rtcp-mux".as_bytes()) || bytes_eq(
        s,
        "rtcp-rsize".as_bytes(),
    ) || bytes_eq(s, "msid".as_bytes()) || bytes_eq(s, "msid-semantic".as_bytes()) || bytes_eq(
        s,
        "mid".as_bytes(),
    ) || bytes_eq(s, "ice-ufrag".as_bytes()) || bytes_eq(s, "ice-pwd".as_bytes()) || bytes_eq(
        s,
        "ice-options".as_bytes(),
    ) || bytes_eq(s, "candidate".as_bytes()) || bytes_eq(s, "end-of-candidates".as_bytes())
        || bytes_eq(s, "setup".as_bytes()) || bytes_eq(s, "extmap".as_bytes()) || bytes_eq(
        s,
        "group".as_bytes(),
    ) || bytes_eq(s, "fingerprint".as_bytes()) || bytes_eq(s, "sctpmap".as_bytes())
}

/// The outcome of the attribute field: the name before the first `:` must
/// belong to the recognized set; anything else is unsupported vocabulary.
pub open spec fn spec_attribute_outcome(v: Seq<u8>) -> ParseKind {
    if spec_recognized_attribute(spec_attr_name(v)) {
        ParseKind::Parsed
    } else {
        ParseKind::Unsupported
    }
}

/// Parses the attribute field `a=`.  The payload after the first `:` is
/// kept as an opaque string and not decoded further.
pub fn parse_attribute(value: &[u8]) -> (r: Result<SdpLine, SdpParserResult>)
    ensures
        res_kind(r) == spec_attribute_outcome(value@),
        r matches Err(e) ==> kind_of(e) == ParseKind::Unsupported && err_line(e) == value@
            && err_message(e) == "unsupported attribute value"@,
        r matches Ok(l) ==> l matches SdpLine::Attribute { attribute }
            && attribute.name@ == spec_attr_name(value@) && attribute.value@ == spec_attr_value(
            value@,
        ),
{
    let colon = find_byte(value, COLON);
    proof {
        crate::text::lemma_first_index_from_props(value@, COLON, 0);
    }
    let name = subrange_vec(value, 0, colon);
    let aval: Vec<u8> = if colon == value.len() {
        Vec::new()
    } else {
        subrange_vec(value, colon + 1, value.len())
    };
    if !recognized_attribute(name.as_slice()) {
        return Err(unsupported("unsupported attribute value", value));
    }
    let a = SdpAttribute { name, value: aval };
    Ok(SdpLine::Attribute { attribute: a })
}

/// Parses the session-name field `s=`: accepted unconditionally as an
/// opaque string.
pub fn parse_session(value: &[u8]) -> (r: Result<SdpLine, SdpParserResult>)
    ensures
        r matches Ok(l) && l matches SdpLine::SdpString { string } && string@ == value@,
{
    Ok(create_sdp_string(value))
}

/// Parses the information field `i=`: accepted unconditionally as an
/// opaque string.
pub fn parse_information(value: &[u8]) -> (r: Result<SdpLine, SdpParserResult>)
    ensures
        r matches Ok(l) && l matches SdpLine::SdpString { string } && string@ == value@,
{
    Ok(create_sdp_string(value))
}

/// Parses the uri field `u=`: accepted unconditionally as an opaque
/// string.
pub fn parse_uri(value: &[u8]) -> (r: Result<SdpLine, SdpParserResult>)
    ensures
        r matches Ok(l) && l matches SdpLine::SdpString { string } && string@ == value@,
{
    Ok(create_sdp_string(value))
}

/// Parses the email field `e=`: accepted unconditionally as an opaque
/// string.
pub fn parse_email(value: &[u8]) -> (r: Result<SdpLine, SdpParserResult>)
    ensures
        r matches Ok(l) && l matches SdpLine::SdpString { string } && string@ == value@,
{
    Ok(create_sdp_string(value))
}

/// Parses the phone field `p=`: accepted unconditionally as an opaque
/// string.
pub fn parse_phone(value: &[u8]) -> (r: Result<SdpLine, SdpParserResult>)
    ensures
        r matches Ok(l) && l matches SdpLine::SdpString { string } && string@ == value@,
{
    Ok(create_sdp_string(value))
}

/// Parses the repeat field `r=`: accepted unconditionally as an opaque
/// string.
pub fn parse_repeat(value: &[u8]) -> (r: Result<SdpLine, SdpParserResult>)
    ensures
        r matches Ok(l) && l matches SdpLine::SdpString { string } && string@ == value@,
{
    Ok(create_sdp_string(value))
}

/// Parses the zone field `z=`: accepted unconditionally as an opaque
/// string.
pub fn parse_zone(value: &[u8]) -> (r: Result<SdpLine, SdpParserResult>)
    ensures
        r matches Ok(l) && l matches SdpLine::SdpString { string } && string@ == value@,
{
    Ok(create_sdp_string(value))
}

/// Parses the key field `k=`: accepted unconditionally as an opaque
/// string.
pub fn parse_key(value: &[u8]) -> (r: Result<SdpLine, SdpParserResult>)
    ensures
        r matches Ok(l) && l matches SdpLine::SdpString { string } && string@ == value@,
{
    Ok(create_sdp_string(value))
}

} // verus!
