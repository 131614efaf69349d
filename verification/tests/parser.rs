//! End-to-end tests of the SDP document parser and its typed field
//! parsers, covering the concrete acceptance scenarios and each error and
//! warning variant.

use sdp_parser::addr::{is_ipv4_bytes, is_ipv6_bytes};
use sdp_parser::fields::{
    create_sdp_string, parse_attribute, parse_bandwidth, parse_connection, parse_media,
    parse_media_token, parse_nettype, parse_origin, parse_protocol_token, parse_timing,
    parse_version,
};
use sdp_parser::line::parse_sdp_line;
use sdp_parser::num::parse_u64_bytes;
use sdp_parser::parse_sdp;
use sdp_parser::render::render_u64;
use sdp_parser::types::{SdpFormatList, SdpLine, SdpMediaValue, SdpNetType, SdpParserResult, SdpProtocolValue};

#[test]
fn version_zero_accepted_under_both_flags() {
    assert!(parse_sdp("v=0", false));
    assert!(parse_sdp("v=0", true));
}

#[test]
fn version_one_rejected_under_both_flags() {
    assert!(!parse_sdp("v=1", false));
    assert!(!parse_sdp("v=1", true));
}

#[test]
fn origin_with_valid_ipv4_accepted() {
    assert!(parse_sdp("o=alice 2890844526 2890842807 IN IP4 10.0.0.1", false));
}

#[test]
fn origin_with_invalid_ipv4_rejected() {
    assert!(!parse_sdp("o=alice 2890844526 2890842807 IN IP4 999.0.0.1", false));
}

#[test]
fn media_with_known_payload_types_accepted() {
    assert!(parse_sdp("m=audio 49170 UDP/TLS/RTP/SAVPF 0 8 97", false));
}

#[test]
fn media_with_out_of_range_payload_type_rejected() {
    assert!(!parse_sdp("m=audio 49170 UDP/TLS/RTP/SAVPF 200", false));
    assert!(!parse_sdp("m=audio 49170 UDP/TLS/RTP/SAVPF 200", true));
}

#[test]
fn unknown_attribute_is_advisory_only() {
    assert!(parse_sdp("a=foobar", false));
    assert!(!parse_sdp("a=foobar", true));
}

#[test]
fn empty_document_rejected() {
    assert!(!parse_sdp("", false));
    assert!(!parse_sdp("", true));
}

#[test]
fn reparsing_gives_the_same_verdict() {
    let doc = "v=0\r\no=- 1 1 IN IP4 127.0.0.1\r\ns=-\r\nt=0 0\r\na=foobar";
    let first_lenient = parse_sdp(doc, false);
    let first_strict = parse_sdp(doc, true);
    assert_eq!(first_lenient, parse_sdp(doc, false));
    assert_eq!(first_strict, parse_sdp(doc, true));
    assert!(first_lenient);
    assert!(!first_strict);
}

#[test]
fn full_session_description_accepted() {
    let doc = "v=0\r\n\
               o=mozilla 506705521068071134 0 IN IP4 0.0.0.0\r\n\
               s=-\r\n\
               t=0 0\r\n\
               c=IN IP4 10.0.0.1\r\n\
               b=AS:64\r\n\
               m=audio 9 UDP/TLS/RTP/SAVPF 109 9 0 8\r\n\
               a=sendrecv\r\n";
    assert!(parse_sdp(doc, false));
    assert!(parse_sdp(doc, true));
    // payload type 14 is outside both the fixed set and the dynamic range
    let doc = doc.replace(" 109 9 0 8", " 14 9 0 8");
    assert!(!parse_sdp(&doc, false));
    assert!(!parse_sdp(&doc, true));
}

#[test]
fn one_hard_error_spoils_the_document() {
    let doc = "v=0\nt=0 0\nq=bogus";
    assert!(!parse_sdp(doc, false));
    assert!(!parse_sdp(doc, true));
}

#[test]
fn lines_without_equals_sign_are_hard_errors() {
    assert!(parse_sdp_line(b"v=0").is_success());
    assert!(parse_sdp_line(b"v0").is_line_error());
    assert!(parse_sdp_line(b"").is_line_error());
}

#[test]
fn field_name_must_be_one_letter() {
    assert!(parse_sdp_line(b"vv=0").is_line_error());
    assert!(parse_sdp_line(b"=0").is_line_error());
    assert!(parse_sdp_line(b" v =0").is_success());
}

#[test]
fn field_name_is_case_insensitive() {
    assert!(parse_sdp_line(b"V=0").is_success());
    assert!(parse_sdp_line(b"T=0 0").is_success());
}

#[test]
fn empty_value_is_a_hard_error() {
    assert!(parse_sdp_line(b"s=").is_line_error());
    assert!(parse_sdp_line(b"s=   ").is_line_error());
    assert!(parse_sdp_line(b"s= x ").is_success());
}

#[test]
fn unknown_field_letter_is_a_hard_error() {
    assert!(parse_sdp_line(b"q=hello").is_line_error());
    assert!(parse_sdp_line(b"1=hello").is_line_error());
}

#[test]
fn placeholder_fields_accept_anything() {
    for line in [
        b"s=SDP Seminar".as_slice(),
        b"i=A Seminar on the session description protocol",
        b"u=http://example.com/seminar.pdf",
        b"e=alice@example.com",
        b"p=+1 617 555-6011",
        b"r=604800 3600 0 90000",
        b"z=2882844526 -1h 2898848070 0",
        b"k=clear:password",
    ] {
        assert!(parse_sdp_line(line).is_success());
    }
}

#[test]
fn version_accepts_rusts_unsigned_grammar() {
    // str::parse::<u64> accepts a leading plus and leading zeros
    assert!(parse_sdp_line(b"v=+0").is_success());
    assert!(parse_sdp_line(b"v=00").is_success());
    assert!(parse_sdp_line(b"v=-0").is_line_error());
    assert!(parse_sdp_line(b"v=0x0").is_line_error());
    assert!(parse_sdp_line(b"v=18446744073709551616").is_line_error());
}

#[test]
fn unsigned_parsing_matches_std() {
    for tok in [
        b"0".as_slice(),
        b"+7",
        b"007",
        b"18446744073709551615",
        b"18446744073709551616",
        b"99999999999999999999999999",
        b"",
        b"+",
        b"1 2",
        b"-1",
        b"4e2",
    ] {
        let expected = std::str::from_utf8(tok).unwrap().parse::<u64>().ok();
        assert_eq!(parse_u64_bytes(tok), expected);
    }
}

#[test]
fn origin_token_count_must_be_six() {
    assert!(parse_origin(b"alice 1 2 IN IP4 10.0.0.1").is_ok());
    assert!(parse_origin(b"alice 1 2 IN IP4").is_err());
    assert!(parse_origin(b"alice 1 2 IN IP4 10.0.0.1 extra").is_err());
}

#[test]
fn origin_fields_are_extracted() {
    let parsed = parse_origin(b"alice 2890844526 2890842807 in ip4 10.47.16.5").unwrap();
    match parsed {
        SdpLine::Origin { origin } => {
            assert_eq!(origin.username, b"alice".to_vec());
            assert_eq!(origin.session_id, 2890844526);
            assert_eq!(origin.session_version, 2890842807);
            assert_eq!(origin.addrtype, b"ip4".to_vec());
            assert_eq!(origin.unicast_addr, b"10.47.16.5".to_vec());
        }
        _ => panic!("origin line expected"),
    }
}

#[test]
fn origin_session_ids_must_be_numeric() {
    assert!(parse_origin(b"alice x 2 IN IP4 10.0.0.1").is_err());
    assert!(parse_origin(b"alice 1 x IN IP4 10.0.0.1").is_err());
}

#[test]
fn nettype_must_be_in() {
    assert!(parse_nettype(b"IN").is_ok());
    assert!(parse_nettype(b"in").is_ok());
    assert!(parse_nettype(b"iN").is_ok());
    assert!(parse_nettype(b"OUT").is_err());
    assert!(parse_nettype(b"").is_err());
}

#[test]
fn connection_needs_three_tokens_and_a_matching_address() {
    assert!(parse_connection(b"IN IP4 127.0.0.1").is_ok());
    assert!(parse_connection(b"IN IP6 ::1").is_ok());
    assert!(parse_connection(b"IN IP4").is_err());
    assert!(parse_connection(b"IN IP4 ::1").is_err());
    assert!(parse_connection(b"IN IP6 127.0.0.1").is_err());
    assert!(parse_connection(b"IN IPX 127.0.0.1").is_err());
    assert!(parse_connection(b"OUT IP4 127.0.0.1").is_err());
}

#[test]
fn ipv4_literals_follow_std_syntax() {
    assert!(is_ipv4_bytes(b"0.0.0.0"));
    assert!(is_ipv4_bytes(b"255.255.255.255"));
    assert!(is_ipv4_bytes(b"10.47.16.5"));
    assert!(!is_ipv4_bytes(b"256.0.0.1"));
    assert!(!is_ipv4_bytes(b"999.0.0.1"));
    assert!(!is_ipv4_bytes(b"1.2.3"));
    assert!(!is_ipv4_bytes(b"1.2.3.4.5"));
    assert!(!is_ipv4_bytes(b"01.2.3.4"));
    assert!(!is_ipv4_bytes(b"1..2.3"));
    assert!(!is_ipv4_bytes(b".1.2.3"));
    assert!(!is_ipv4_bytes(b"1.2.3.4 "));
    assert!(!is_ipv4_bytes(b"+1.2.3.4"));
    assert!(!is_ipv4_bytes(b""));
}

#[test]
fn ipv6_literals_follow_std_syntax() {
    assert!(is_ipv6_bytes(b"::"));
    assert!(is_ipv6_bytes(b"::1"));
    assert!(is_ipv6_bytes(b"1::"));
    assert!(is_ipv6_bytes(b"fe80::1"));
    assert!(is_ipv6_bytes(b"2001:db8:0:0:0:0:2:1"));
    assert!(is_ipv6_bytes(b"2001:DB8::2:1"));
    assert!(is_ipv6_bytes(b"1:2:3:4:5:6:7:8"));
    assert!(is_ipv6_bytes(b"1:2:3:4:5:6:7::"));
    assert!(is_ipv6_bytes(b"::ffff:192.0.2.1"));
    assert!(is_ipv6_bytes(b"1:2:3:4:5:6:192.0.2.1"));
    assert!(!is_ipv6_bytes(b""));
    assert!(!is_ipv6_bytes(b":"));
    assert!(!is_ipv6_bytes(b":::"));
    assert!(!is_ipv6_bytes(b"1:2:3:4:5:6:7:8:9"));
    assert!(!is_ipv6_bytes(b"1:2:3:4:5:6:7:8::"));
    assert!(!is_ipv6_bytes(b"1::2::3"));
    assert!(!is_ipv6_bytes(b"12345::"));
    assert!(!is_ipv6_bytes(b"g::1"));
    assert!(!is_ipv6_bytes(b"1:2:3"));
    assert!(!is_ipv6_bytes(b"192.0.2.1"));
    assert!(!is_ipv6_bytes(b"::192.0.2.1:1"));
    assert!(!is_ipv6_bytes(b"fe80::1%eth0"));
}

#[test]
fn bandwidth_types_as_and_tias_accepted() {
    assert!(parse_bandwidth(b"AS:64").is_ok());
    assert!(parse_bandwidth(b"TIAS:32000").is_ok());
    assert!(parse_bandwidth(b"tias:32000").is_ok());
}

#[test]
fn unknown_bandwidth_type_is_unsupported_not_an_error() {
    let r = parse_bandwidth(b"CT:1000");
    assert!(r.unwrap_err().is_unsupported());
    assert!(parse_sdp("b=CT:1000", false));
    assert!(!parse_sdp("b=CT:1000", true));
}

#[test]
fn bandwidth_number_must_parse() {
    assert!(parse_bandwidth(b"AS:x").unwrap_err().is_line_error());
    assert!(parse_bandwidth(b"AS:").unwrap_err().is_line_error());
    assert!(parse_bandwidth(b"AS").unwrap_err().is_line_error());
    assert!(parse_bandwidth(b"AS:1:2").unwrap_err().is_line_error());
}

#[test]
fn timing_needs_two_numeric_tokens() {
    let parsed = parse_timing(b"2873397496 2873404696").unwrap();
    match parsed {
        SdpLine::Timing { timing } => {
            assert_eq!(timing.start, 2873397496);
            assert_eq!(timing.stop, 2873404696);
        }
        _ => panic!("timing line expected"),
    }
    assert!(parse_timing(b"0").is_err());
    assert!(parse_timing(b"0 0 0").is_err());
    assert!(parse_timing(b"x 0").is_err());
    assert!(parse_timing(b"0 x").is_err());
}

#[test]
fn media_tokens_map_to_their_kind() {
    assert!(matches!(
        parse_media_token(b"audio"),
        Ok(SdpMediaValue::SdpMediaAudio)
    ));
    assert!(matches!(
        parse_media_token(b"Video"),
        Ok(SdpMediaValue::SdpMediaVideo)
    ));
    assert!(matches!(
        parse_media_token(b"APPLICATION"),
        Ok(SdpMediaValue::SdpMediaApplication)
    ));
    assert!(parse_media_token(b"text").unwrap_err().is_unsupported());
}

#[test]
fn protocol_tokens_map_to_their_kind() {
    assert!(matches!(
        parse_protocol_token(b"UDP/TLS/RTP/SAVPF"),
        Ok(SdpProtocolValue::SdpProtoUdpTlsRtpSavpf)
    ));
    assert!(matches!(
        parse_protocol_token(b"tcp/tls/rtp/savpf"),
        Ok(SdpProtocolValue::SdpProtoTcpTlsRtpSavpf)
    ));
    assert!(matches!(
        parse_protocol_token(b"DTLS/SCTP"),
        Ok(SdpProtocolValue::SdpProtoDtlsSctp)
    ));
    assert!(matches!(
        parse_protocol_token(b"UDP/DTLS/SCTP"),
        Ok(SdpProtocolValue::SdpProtoUdpDtlsSctp)
    ));
    assert!(matches!(
        parse_protocol_token(b"TCP/DTLS/SCTP"),
        Ok(SdpProtocolValue::SdpProtoTcpDtlsSctp)
    ));
    assert!(parse_protocol_token(b"RTP/AVP").unwrap_err().is_unsupported());
}

#[test]
fn media_needs_at_least_four_tokens() {
    assert!(parse_media(b"audio 49170 UDP/TLS/RTP/SAVPF").unwrap_err().is_line_error());
    assert!(parse_media(b"audio 49170 UDP/TLS/RTP/SAVPF 0").is_ok());
}

#[test]
fn media_port_must_fit_sixteen_bits() {
    assert!(parse_media(b"audio 65535 UDP/TLS/RTP/SAVPF 0").is_ok());
    assert!(parse_media(b"audio 65536 UDP/TLS/RTP/SAVPF 0").unwrap_err().is_line_error());
    assert!(parse_media(b"audio 70000 UDP/TLS/RTP/SAVPF 0").unwrap_err().is_line_error());
    assert!(parse_media(b"audio x UDP/TLS/RTP/SAVPF 0").unwrap_err().is_line_error());
    assert!(parse_media(b"audio 4294967296 UDP/TLS/RTP/SAVPF 0").unwrap_err().is_line_error());
}

#[test]
fn media_formats_for_audio_are_payload_numbers() {
    let parsed = parse_media(b"audio 49170 UDP/TLS/RTP/SAVPF 0 8 9 13 96 127").unwrap();
    match parsed {
        SdpLine::Media { media } => {
            assert_eq!(media.port, 49170);
            match media.formats {
                sdp_parser::types::SdpFormatList::SdpFormatIntegers { list } => {
                    assert_eq!(list, vec![0, 8, 9, 13, 96, 127]);
                }
                _ => panic!("integer format list expected"),
            }
        }
        _ => panic!("media line expected"),
    }
    assert!(parse_media(b"audio 49170 UDP/TLS/RTP/SAVPF 1").unwrap_err().is_line_error());
    assert!(parse_media(b"video 49170 UDP/TLS/RTP/SAVPF 95").unwrap_err().is_line_error());
    assert!(parse_media(b"video 49170 UDP/TLS/RTP/SAVPF 128").unwrap_err().is_line_error());
    assert!(parse_media(b"audio 49170 UDP/TLS/RTP/SAVPF x").unwrap_err().is_line_error());
}

#[test]
fn media_formats_for_application_stay_verbatim() {
    let parsed = parse_media(b"application 5000 UDP/DTLS/SCTP webrtc-datachannel").unwrap();
    match parsed {
        SdpLine::Media { media } => match media.formats {
            sdp_parser::types::SdpFormatList::SdpFormatStrings { list } => {
                assert_eq!(list, vec![b"webrtc-datachannel".to_vec()]);
            }
            _ => panic!("string format list expected"),
        },
        _ => panic!("media line expected"),
    }
}

#[test]
fn unknown_media_kind_is_unsupported() {
    assert!(parse_media(b"text 49170 UDP/TLS/RTP/SAVPF 0").unwrap_err().is_unsupported());
    assert!(parse_sdp("m=text 49170 UDP/TLS/RTP/SAVPF 0", false));
    assert!(!parse_sdp("m=text 49170 UDP/TLS/RTP/SAVPF 0", true));
}

#[test]
fn attribute_name_splits_at_the_first_colon() {
    let parsed = parse_attribute(b"mid:audio").unwrap();
    match parsed {
        SdpLine::Attribute { attribute } => {
            assert_eq!(attribute.name, b"mid".to_vec());
            assert_eq!(attribute.value, b"audio".to_vec());
        }
        _ => panic!("attribute line expected"),
    }
}

#[test]
fn attribute_without_payload_has_empty_value() {
    let parsed = parse_attribute(b"sendrecv").unwrap();
    match parsed {
        SdpLine::Attribute { attribute } => {
            assert_eq!(attribute.name, b"sendrecv".to_vec());
            assert_eq!(attribute.value, b"".to_vec());
        }
        _ => panic!("attribute line expected"),
    }
}

#[test]
fn recognized_attribute_names_parse() {
    for line in [
        "a=recvonly",
        "a=sendonly",
        "a=inactive",
        "a=sendrecv",
        "a=ssrc:12345 cname:tag",
        "a=ssrc-group:FID 1 2",
        "a=rtpmap:96 opus/48000/2",
        "a=fmtp:96 useinbandfec=1",
        "a=rtcp:9 IN IP4 0.0.0.0",
        "a=rtcp-fb:96 nack",
        "a=rtcp-mux",
        "a=rtcp-rsize",
        "a=msid:stream track",
        "a=msid-semantic: WMS *",
        "a=mid:sdparta_0",
        "a=ice-ufrag:SECRET-REDACTED",
        "a=ice-pwd:SECRET-REDACTED",
        "a=ice-options:trickle",
        "a=candidate:0 1 UDP 2122252543 10.0.0.1 49760 typ host",
        "a=end-of-candidates",
        "a=setup:actpass",
        "a=extmap:1 urn:ietf:params:rtp-hdrext:ssrc-audio-level",
        "a=group:BUNDLE sdparta_0",
        "a=fingerprint:sha-256 AA:BB",
        "a=sctpmap:5000 webrtc-datachannel 265",
    ] {
        assert!(parse_sdp(line, true), "{line} should be recognized");
    }
}

#[test]
fn attribute_names_are_case_insensitive() {
    assert!(parse_attribute(b"SendRecv").is_ok());
    assert!(parse_attribute(b"RTCP-MUX").is_ok());
}

#[test]
fn unknown_attribute_name_is_unsupported() {
    assert!(parse_attribute(b"foobar").unwrap_err().is_unsupported());
    assert!(parse_attribute(b"unknown-ext:1").unwrap_err().is_unsupported());
}

#[test]
fn version_payload_is_the_integer_zero() {
    match parse_version(b"0").unwrap() {
        SdpLine::SdpUInt { uint } => assert_eq!(uint, 0),
        _ => panic!("unsigned-integer line expected"),
    }
}

#[test]
fn create_sdp_string_keeps_the_value() {
    match create_sdp_string(b"some opaque value") {
        SdpLine::SdpString { string } => assert_eq!(string, b"some opaque value".to_vec()),
        _ => panic!("plain-string line expected"),
    }
}

#[test]
fn failure_outcomes_carry_message_and_full_text() {
    match parse_sdp_line(b"nonsense") {
        SdpParserResult::ParserLineError { message, line } => {
            assert_eq!(message, "failed to split field and attribute");
            assert_eq!(line, b"nonsense".to_vec());
        }
        _ => panic!("line error expected"),
    }
    match parse_sdp_line(b"vv=0") {
        SdpParserResult::ParserLineError { message, line } => {
            assert_eq!(message, "field name empty or too long");
            assert_eq!(line, b"vv=0".to_vec());
        }
        _ => panic!("line error expected"),
    }
    match parse_sdp_line(b"s=  ") {
        SdpParserResult::ParserLineError { message, line } => {
            assert_eq!(message, "attribute value has zero length");
            assert_eq!(line, b"s=  ".to_vec());
        }
        _ => panic!("line error expected"),
    }
    match parse_sdp_line(b"q=1") {
        SdpParserResult::ParserLineError { message, line } => {
            assert_eq!(message, "unsupported sdp field");
            assert_eq!(line, b"q=1".to_vec());
        }
        _ => panic!("line error expected"),
    }
    // a typed parser's rejection carries the trimmed value and the
    // parser's own message, unchanged
    match parse_sdp_line(b"v= 2 ") {
        SdpParserResult::ParserLineError { message, line } => {
            assert_eq!(message, "unsupported version in v field");
            assert_eq!(line, b"2".to_vec());
        }
        _ => panic!("line error expected"),
    }
    match parse_sdp_line(b"b=CT:1000") {
        SdpParserResult::ParserUnsupported { message, line } => {
            assert_eq!(message, "unsupported bandwidth type value");
            assert_eq!(line, b"CT:1000".to_vec());
        }
        _ => panic!("unsupported warning expected"),
    }
    match parse_sdp_line(b"m=audio 9 UDP/TLS/RTP/SAVPF 0 14") {
        SdpParserResult::ParserLineError { message, line } => {
            assert_eq!(message, "format number in media line is out of range");
            assert_eq!(line, b"audio 9 UDP/TLS/RTP/SAVPF 0 14".to_vec());
        }
        _ => panic!("line error expected"),
    }
    match parse_sdp_line(b"o=alice 1 2 IN IPX 10.0.0.1") {
        SdpParserResult::ParserLineError { message, line } => {
            assert_eq!(message, "address type in origin needs to be IP4 or IP6");
            assert_eq!(line, b"alice 1 2 IN IPX 10.0.0.1".to_vec());
        }
        _ => panic!("line error expected"),
    }
}

#[test]
fn rendering_uses_the_fixed_spellings() {
    assert_eq!(SdpNetType::SdpNetTypeIn.to_text(), b"IN".to_vec());
    assert_eq!(SdpMediaValue::SdpMediaAudio.to_text(), b"Audio".to_vec());
    assert_eq!(SdpMediaValue::SdpMediaVideo.to_text(), b"Video".to_vec());
    assert_eq!(
        SdpMediaValue::SdpMediaApplication.to_text(),
        b"Application".to_vec()
    );
    assert_eq!(
        SdpProtocolValue::SdpProtoUdpTlsRtpSavpf.to_text(),
        b"Udp/Tls/Rtp/Savpf".to_vec()
    );
    assert_eq!(
        SdpProtocolValue::SdpProtoTcpDtlsSctp.to_text(),
        b"Tcp/Dtls/Sctp".to_vec()
    );
    let formats = SdpFormatList::SdpFormatIntegers { list: vec![0, 8, 97] };
    assert_eq!(formats.to_text(), b"0 8 97".to_vec());
    let empty = SdpFormatList::SdpFormatIntegers { list: vec![] };
    assert_eq!(empty.to_text(), b"".to_vec());
    let names = SdpFormatList::SdpFormatStrings {
        list: vec![b"webrtc-datachannel".to_vec(), b"other".to_vec()],
    };
    assert_eq!(names.to_text(), b"webrtc-datachannel other".to_vec());
}

#[test]
fn numbers_render_in_decimal() {
    assert_eq!(render_u64(0), b"0".to_vec());
    assert_eq!(render_u64(7), b"7".to_vec());
    assert_eq!(render_u64(65535), b"65535".to_vec());
    assert_eq!(render_u64(u64::MAX), b"18446744073709551615".to_vec());
}

#[test]
fn line_endings_lf_and_crlf_both_work() {
    assert!(parse_sdp("v=0\nt=0 0", false));
    assert!(parse_sdp("v=0\r\nt=0 0\r\n", false));
    assert!(parse_sdp("v=0\n", false));
    // a lone newline yields one empty line, which cannot be split at `=`
    assert!(!parse_sdp("\n", false));
    // a blank line in the middle is a hard error as well
    assert!(!parse_sdp("v=0\n\nt=0 0", false));
}
