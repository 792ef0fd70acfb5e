use pilot_proxy::body::copy_body;
use pilot_proxy::encoding::SupportedEncoding;
use pilot_proxy::errors::HttpUtilError;
use pilot_proxy::headers::{find_header, Header};
use pilot_proxy::json::{decode_headers, encode_headers};
use pilot_proxy::message::{Request, ResponseForFront};
use pilot_proxy::text::u128_hex;
use pilot_proxy::version::HttpVersion;

fn header(name: &str, value: &str) -> Header {
    Header {
        name: name.as_bytes().to_vec(),
        value: value.as_bytes().to_vec(),
    }
}

#[test]
fn headers_round_trip_simple() {
    let hs = vec![header("Host", "example.com"), header("Accept", "*/*")];
    let json = encode_headers(&hs).unwrap();
    assert_eq!(json, "{\"Host\":\"example.com\",\"Accept\":\"*/*\"}");
    let back = decode_headers(&json).unwrap();
    assert_eq!(back, hs);
}

#[test]
fn headers_round_trip_empty() {
    let hs: Vec<Header> = Vec::new();
    let json = encode_headers(&hs).unwrap();
    assert_eq!(json, "{}");
    let back = decode_headers(&json).unwrap();
    assert_eq!(back, hs);
}

#[test]
fn headers_round_trip_duplicates_and_case() {
    // Duplicate names and mixed case are preserved in order.
    let hs = vec![
        header("Set-Cookie", "a=1"),
        header("set-cookie", "b=2"),
        header("Set-Cookie", "c=3"),
    ];
    let json = encode_headers(&hs).unwrap();
    let back = decode_headers(&json).unwrap();
    assert_eq!(back, hs);
}

#[test]
fn headers_round_trip_escapes() {
    // Quote, backslash and horizontal tab in values must survive.
    let hs = vec![header("x-note", "say \"hi\"\tback\\slash")];
    let json = encode_headers(&hs).unwrap();
    assert_eq!(json, "{\"x-note\":\"say \\\"hi\\\"\\tback\\\\slash\"}");
    let back = decode_headers(&json).unwrap();
    assert_eq!(back, hs);
}

#[test]
fn headers_decode_accepts_whitespace() {
    let back = decode_headers(" { \"a\" : \"b\" , \"c\" : \"d\" } ").unwrap();
    assert_eq!(back, vec![header("a", "b"), header("c", "d")]);
}

#[test]
fn headers_decode_rejects_bad_payloads() {
    for bad in [
        "",
        "[]",
        "{\"a\":1}",
        "{\"a\":\"b\"",
        "{\"a\" \"b\"}",
        "not json",
        "{\"a\":\"b\"} trailing",
        "{\"\":\"b\"}",
        "{\"bad name\":\"b\"}",
        "{\"a\":\"line\\nbreak\"}",
        "{\"a\":\"b\",}",
        "{\"a\":\"\\x41\"}",
        "{\"a\":\"\\uZZZZ\"}",
        "{\"a\":\"\\u00e9\"}",
        "{\"a\":\"\\u004\"}",
        "{\"a\":\"caf\u{e9}\"}",
    ] {
        let r = decode_headers(bad);
        assert!(
            matches!(r, Err(HttpUtilError::HeaderParseError(_))),
            "payload {:?} was not rejected as HeaderParseError",
            bad
        );
    }
}

#[test]
fn headers_decode_accepts_unicode_escapes_of_header_text() {
    // \uXXXX escapes denoting bytes the header model can hold decode
    // like their raw or short-escape forms.
    let back = decode_headers("{\"a\":\"\\u0041\\u0061\\u0020b\"}").unwrap();
    assert_eq!(back, vec![header("a", "Aa b")]);
    let back = decode_headers("{\"a\":\"\\u0009\"}").unwrap();
    assert_eq!(back, vec![header("a", "\t")]);
}

#[test]
fn headers_encode_rejects_non_header_text() {
    let hs = vec![Header {
        name: b"x-raw".to_vec(),
        value: vec![0xFFu8],
    }];
    assert!(matches!(
        encode_headers(&hs),
        Err(HttpUtilError::HeaderEncodeError(_))
    ));
}

#[test]
fn transcode_round_trip_all_codings() {
    let payload = b"hello hello hello compression world".to_vec();
    for enc in SupportedEncoding::list() {
        let encoded = enc.encode(payload.clone()).unwrap();
        let decoded = enc.decode(encoded).unwrap();
        assert_eq!(decoded, payload);
    }
}

#[test]
fn transcode_round_trip_empty() {
    for enc in SupportedEncoding::list() {
        let encoded = enc.encode(Vec::new()).unwrap();
        let decoded = enc.decode(encoded).unwrap();
        assert_eq!(decoded, Vec::<u8>::new());
    }
}

#[test]
fn transcode_encode_is_deterministic() {
    // Equal inputs give equal compressed bytes.
    let payload = b"the same bytes twice over, the same bytes twice over".to_vec();
    for enc in SupportedEncoding::list() {
        let once = enc.encode(payload.clone()).unwrap();
        let again = enc.encode(payload.clone()).unwrap();
        assert_eq!(once, again);
    }
}

#[test]
fn gzip_really_compresses() {
    // The gzip wrapper must not hand its input back unchanged.
    let payload = b"aaaaaaaaaaaaaaaaaaaaaaaaaaaaaaaaaaaaaaaa".to_vec();
    let encoded = SupportedEncoding::Gzip.encode(payload.clone()).unwrap();
    assert_ne!(encoded, payload);
    let deflated = SupportedEncoding::Deflate.encode(payload.clone()).unwrap();
    assert_ne!(deflated, payload);
    assert_ne!(encoded, deflated);
}

#[test]
fn gzip_decode_rejects_garbage() {
    let r = SupportedEncoding::Gzip.decode(b"definitely not gzip".to_vec());
    assert!(matches!(r, Err(HttpUtilError::DecodeError(_))));
    let r = SupportedEncoding::Deflate.decode(vec![0x07, 0x07, 0x07]);
    assert!(matches!(r, Err(HttpUtilError::DecodeError(_))));
}

#[test]
fn check_encoding_accepts_supported_lists() {
    let hs = vec![header("accept-encoding", "gzip, deflate")];
    assert!(pilot_proxy::encoding::check_encoding(&hs).is_ok());
    let hs = vec![header("accept-encoding", "")];
    assert!(pilot_proxy::encoding::check_encoding(&hs).is_ok());
    let hs = vec![header("Accept-Encoding", "identity , gzip")];
    assert!(pilot_proxy::encoding::check_encoding(&hs).is_ok());
    let hs = vec![header("host", "example.com")];
    assert!(pilot_proxy::encoding::check_encoding(&hs).is_ok());
}

#[test]
fn check_encoding_rejects_unsupported_token() {
    let hs = vec![header("accept-encoding", "br")];
    assert!(matches!(
        pilot_proxy::encoding::check_encoding(&hs),
        Err(HttpUtilError::UnsupportedEncoding(_))
    ));
    let hs = vec![header("accept-encoding", "gzip, br")];
    assert!(matches!(
        pilot_proxy::encoding::check_encoding(&hs),
        Err(HttpUtilError::UnsupportedEncoding(_))
    ));
}

#[test]
fn rejection_messages_name_the_token() {
    let e = SupportedEncoding::is_supported("br").unwrap_err();
    assert_eq!(e.message(), "content coding is not supported: br");
    let e = SupportedEncoding::from(Some(&b"zstd".to_vec())).unwrap_err();
    assert_eq!(e.message(), "content coding is not supported: zstd");
    let hs = vec![header("accept-encoding", "gzip, br , deflate")];
    let e = pilot_proxy::encoding::check_encoding(&hs).unwrap_err();
    assert_eq!(e.message(), "content coding is not supported: br");
}

#[test]
fn is_supported_matches_fixed_tokens() {
    assert!(SupportedEncoding::is_supported("gzip").is_ok());
    assert!(SupportedEncoding::is_supported("deflate").is_ok());
    assert!(SupportedEncoding::is_supported("identity").is_ok());
    assert!(SupportedEncoding::is_supported("").is_ok());
    assert!(matches!(
        SupportedEncoding::is_supported("br"),
        Err(HttpUtilError::UnsupportedEncoding(_))
    ));
    assert!(matches!(
        SupportedEncoding::is_supported("GZIP"),
        Err(HttpUtilError::UnsupportedEncoding(_))
    ));
}

#[test]
fn encoding_from_header_value() {
    assert_eq!(
        SupportedEncoding::from(None).unwrap(),
        SupportedEncoding::Identity
    );
    assert_eq!(
        SupportedEncoding::from(Some(&b"gzip".to_vec())).unwrap(),
        SupportedEncoding::Gzip
    );
    assert_eq!(
        SupportedEncoding::from(Some(&b"deflate".to_vec())).unwrap(),
        SupportedEncoding::Deflate
    );
    assert_eq!(
        SupportedEncoding::from(Some(&b"".to_vec())).unwrap(),
        SupportedEncoding::Identity
    );
    assert!(SupportedEncoding::from(Some(&b"br".to_vec())).is_err());
}

#[test]
fn copy_body_copies_are_identical() {
    let body = b"the very same bytes".to_vec();
    let (a, b) = copy_body(body.clone());
    assert_eq!(a, body);
    assert_eq!(b, body);
}

#[test]
fn copy_body_empty() {
    let (a, b) = copy_body(Vec::new());
    assert!(a.is_empty());
    assert!(b.is_empty());
}

#[test]
fn version_literals_round_trip() {
    for (v, s) in [
        (HttpVersion::Http09, "HTTP/0.9"),
        (HttpVersion::Http10, "HTTP/1.0"),
        (HttpVersion::Http11, "HTTP/1.1"),
        (HttpVersion::Http2, "HTTP/2.0"),
        (HttpVersion::Http3, "HTTP/3.0"),
    ] {
        assert_eq!(v.as_str(), s);
        assert_eq!(HttpVersion::from_str(s).unwrap(), v);
    }
}

#[test]
fn version_rejects_unknown_literal() {
    for bad in ["", "HTTP/1.2", "http/1.1", "HTTP/1.1 "] {
        assert!(matches!(
            HttpVersion::from_str(bad),
            Err(HttpUtilError::InvalidVersion(_))
        ));
    }
}

#[test]
fn find_header_is_case_insensitive_first_match() {
    let hs = vec![
        header("Content-Type", "text/plain"),
        header("X-Twice", "first"),
        header("x-twice", "second"),
    ];
    assert_eq!(
        find_header(&hs, &b"content-type".to_vec()),
        Some(b"text/plain".to_vec())
    );
    assert_eq!(find_header(&hs, &b"X-TWICE".to_vec()), Some(b"first".to_vec()));
    assert_eq!(find_header(&hs, &b"missing".to_vec()), None);
}

#[test]
fn hex_rendering_is_padded_upper_case() {
    assert_eq!(u128_hex(0), b"00000000000000000000000000000000".to_vec());
    assert_eq!(
        u128_hex(0x0123_4567_89AB_CDEF_0123_4567_89AB_CDEF),
        b"0123456789ABCDEF0123456789ABCDEF".to_vec()
    );
    assert_eq!(
        u128_hex(u128::MAX),
        b"FFFFFFFFFFFFFFFFFFFFFFFFFFFFFFFF".to_vec()
    );
}

#[test]
fn default_messages_are_empty() {
    let r = Request::new();
    assert_eq!(r.headers, "");
    assert_eq!(r.url, "");
    assert_eq!(r.method, "");
    assert_eq!(r.version, "");
    assert_eq!(r.body, "");
    assert!(!r.piloted);
    let s = ResponseForFront::new();
    assert_eq!(s.headers, "");
    assert_eq!(s.body, "");
    assert_eq!(s.version, "");
    assert_eq!(s.status, 500);
    assert!(!s.piloted);
}

#[test]
fn error_messages_carry_detail_text() {
    let e = HttpUtilError::BodyCopyError("stream went away".to_string());
    assert_eq!(e.message(), "stream went away");
    let e = HttpUtilError::UnsupportedDestinationError("tls is disabled".to_string());
    assert_eq!(e.message(), "tls is disabled");
    let e = HttpUtilError::UpstreamRequestError("connection refused".to_string());
    assert_eq!(e.message(), "connection refused");
}
