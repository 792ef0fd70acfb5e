use pilot_proxy::encoding::SupportedEncoding;
use pilot_proxy::engine::{
    is_tls_destination, pilot_toggle, EditOutcome, Exchange, Phase, Step, UpstreamOutcome,
};
use pilot_proxy::errors::HttpUtilError;
use pilot_proxy::headers::{find_header, Header};
use pilot_proxy::json::decode_headers;
use pilot_proxy::message::{
    copy_request, copy_response, request_from_front, request_to_front, response_from_front,
    response_to_front, Request, ResponseForFront, WireRequest, WireResponse,
};
use pilot_proxy::version::HttpVersion;

fn header(name: &str, value: &str) -> Header {
    Header {
        name: name.as_bytes().to_vec(),
        value: value.as_bytes().to_vec(),
    }
}

fn plain_request() -> WireRequest {
    WireRequest {
        headers: vec![
            header("host", "origin.example"),
            header("accept-encoding", "gzip, deflate"),
        ],
        url: "http://origin.example/page".to_string(),
        method: "GET".to_string(),
        version: HttpVersion::Http11,
        body: b"ping".to_vec(),
    }
}

fn plain_response() -> WireResponse {
    WireResponse {
        headers: vec![header("content-type", "text/plain")],
        status: 200,
        version: HttpVersion::Http11,
        body: b"pong".to_vec(),
    }
}

/// The pair identifier a notice carries inside its headers JSON.
fn notice_pair_id(headers_json: &str) -> Vec<u8> {
    let hs = decode_headers(headers_json).unwrap();
    find_header(&hs, &b"x-pair-id".to_vec()).expect("notice lacks the pair-id header")
}

#[test]
fn observe_mode_passes_through_unmodified() {
    // Intercept off: the origin's status and body come back untouched and
    // both notices say piloted = false.
    let mut ex = Exchange::new();
    let rq = plain_request();
    let step = ex.on_request(plain_request(), false);
    let (request_notice, outbound) = match step {
        Step::NotifyAndForward { notice, outbound } => (notice, outbound),
        _ => panic!("observe mode must notify and forward at once"),
    };
    assert!(!request_notice.piloted);
    assert_eq!(request_notice.url, rq.url);
    assert_eq!(request_notice.method, "GET");
    assert_eq!(request_notice.version, "HTTP/1.1");
    assert_eq!(request_notice.body, "ping");
    assert_eq!(outbound.url, rq.url);
    assert_eq!(outbound.body, rq.body);
    assert_eq!(outbound.headers, rq.headers);
    assert_eq!(ex.phase, Phase::AwaitingUpstream);

    let step = ex.on_upstream(UpstreamOutcome::Answered(plain_response()), false);
    let (response_notice, reply) = match step {
        Step::NotifyAndReply { notice, reply } => (notice, reply),
        _ => panic!("observe mode must notify and reply at once"),
    };
    assert!(!response_notice.piloted);
    assert_eq!(response_notice.status, 200);
    assert_eq!(response_notice.body, "pong");
    assert_eq!(reply.status, 200);
    assert_eq!(reply.body, b"pong".to_vec());
    assert_eq!(reply.headers, plain_response().headers);
    assert_eq!(ex.phase, Phase::Complete);

    // Both notifications carry the same correlation identifier.
    let id1 = notice_pair_id(&request_notice.headers);
    let id2 = notice_pair_id(&response_notice.headers);
    assert_eq!(id1, id2);
    assert_eq!(id1.len(), 32);
}

#[test]
fn pilot_mode_blocks_until_edited_request_and_uses_edited_url() {
    // Intercept on: nothing is forwarded until the edit arrives, and the
    // forwarded request goes to the edited URL, not the original.
    let mut ex = Exchange::new();
    let step = ex.on_request(plain_request(), true);
    let notice = match step {
        Step::AwaitRequestEdit { notice } => notice,
        _ => panic!("pilot mode must suspend for an edit without forwarding"),
    };
    assert!(notice.piloted);
    assert_eq!(ex.phase, Phase::AwaitingRequestEdit);

    let edited = Request {
        headers: "{\"host\":\"elsewhere.example\"}".to_string(),
        url: "http://elsewhere.example/other".to_string(),
        method: "GET".to_string(),
        version: "HTTP/1.1".to_string(),
        body: String::new(),
        piloted: true,
    };
    let step = ex.on_request_edit(EditOutcome::Received(edited));
    let outbound = match step {
        Step::Forward { outbound } => outbound,
        _ => panic!("a received edit must be forwarded"),
    };
    assert_eq!(outbound.url, "http://elsewhere.example/other");
    assert_eq!(outbound.headers, vec![header("host", "elsewhere.example")]);
    assert_eq!(ex.phase, Phase::AwaitingUpstream);
}

#[test]
fn pilot_mode_gzip_body_shown_plain_and_reencoded() {
    // A gzip response body reaches the control surface as plaintext; the
    // edited plaintext is re-compressed and the declared coding stays gzip.
    let mut ex = Exchange::new();
    let step = ex.on_request(plain_request(), false);
    assert!(matches!(step, Step::NotifyAndForward { .. }));

    let gzipped = SupportedEncoding::Gzip
        .encode(b"secret page text".to_vec())
        .unwrap();
    let upstream = WireResponse {
        headers: vec![
            header("content-encoding", "gzip"),
            header("content-type", "text/plain"),
        ],
        status: 200,
        version: HttpVersion::Http11,
        body: gzipped,
    };
    let step = ex.on_upstream(UpstreamOutcome::Answered(upstream), true);
    let notice = match step {
        Step::AwaitResponseEdit { notice } => notice,
        _ => panic!("pilot mode must suspend for a response edit"),
    };
    assert!(notice.piloted);
    assert_eq!(notice.body, "secret page text");

    let edited = ResponseForFront {
        headers: notice.headers.clone(),
        body: "tampered page text".to_string(),
        status: 200,
        version: "HTTP/1.1".to_string(),
        piloted: true,
    };
    let step = ex.on_response_edit(EditOutcome::Received(edited));
    let reply = match step {
        Step::Reply { reply } => reply,
        _ => panic!("a received response edit must be replied"),
    };
    assert_eq!(
        find_header(&reply.headers, &b"content-encoding".to_vec()),
        Some(b"gzip".to_vec())
    );
    assert_eq!(reply.status, 200);
    let plain = SupportedEncoding::Gzip.decode(reply.body).unwrap();
    assert_eq!(plain, b"tampered page text".to_vec());
}

#[test]
fn unsupported_accept_encoding_gets_synthetic_500() {
    // An inbound request advertising only an unsupported coding is
    // answered with a synthetic 500 before anything goes upstream.
    let mut ex = Exchange::new();
    let rq = WireRequest {
        headers: vec![header("accept-encoding", "br")],
        url: "http://origin.example/".to_string(),
        method: "GET".to_string(),
        version: HttpVersion::Http11,
        body: Vec::new(),
    };
    let step = ex.on_request(rq, false);
    let reply = match step {
        Step::Reply { reply } => reply,
        _ => panic!("an unsupported coding must be rejected at once"),
    };
    assert_eq!(reply.status, 500);
    assert_eq!(reply.body, b"content coding is not supported: br".to_vec());
    assert_eq!(ex.phase, Phase::Complete);
}

#[test]
fn same_request_twice_gets_two_pair_ids() {
    // Idempotence of processing, but not of correlation: identical
    // requests through two exchanges carry distinct identifiers.
    let run = |pilot: bool| -> Vec<u8> {
        let mut ex = Exchange::new();
        match ex.on_request(plain_request(), pilot) {
            Step::NotifyAndForward { notice, .. } => notice_pair_id(&notice.headers),
            Step::AwaitRequestEdit { notice } => notice_pair_id(&notice.headers),
            _ => panic!("request was rejected"),
        }
    };
    let id1 = run(false);
    let id2 = run(false);
    assert_ne!(id1, id2);
}

#[test]
fn upstream_failure_gets_synthetic_500() {
    let mut ex = Exchange::new();
    assert!(matches!(
        ex.on_request(plain_request(), false),
        Step::NotifyAndForward { .. }
    ));
    let step = ex.on_upstream(
        UpstreamOutcome::Failed(HttpUtilError::UpstreamRequestError(
            "origin unreachable".to_string(),
        )),
        false,
    );
    let reply = match step {
        Step::Reply { reply } => reply,
        _ => panic!("an upstream failure must be replied as an error"),
    };
    assert_eq!(reply.status, 500);
    assert_eq!(reply.body, b"origin unreachable".to_vec());
}

#[test]
fn unsupported_destination_gets_synthetic_500() {
    let mut ex = Exchange::new();
    assert!(matches!(
        ex.on_request(plain_request(), false),
        Step::NotifyAndForward { .. }
    ));
    let step = ex.on_upstream(
        UpstreamOutcome::Failed(HttpUtilError::UnsupportedDestinationError(
            "tls destinations are disabled".to_string(),
        )),
        false,
    );
    match step {
        Step::Reply { reply } => assert_eq!(reply.status, 500),
        _ => panic!("an unsupported destination must be replied as an error"),
    }
}

#[test]
fn corrupt_compressed_response_gets_synthetic_500() {
    let mut ex = Exchange::new();
    assert!(matches!(
        ex.on_request(plain_request(), false),
        Step::NotifyAndForward { .. }
    ));
    let upstream = WireResponse {
        headers: vec![header("content-encoding", "gzip")],
        status: 200,
        version: HttpVersion::Http11,
        body: b"this is not gzip".to_vec(),
    };
    match ex.on_upstream(UpstreamOutcome::Answered(upstream), false) {
        Step::Reply { reply } => assert_eq!(reply.status, 500),
        _ => panic!("a corrupt body must end the exchange with an error"),
    }
}

#[test]
fn malformed_edit_payload_gets_synthetic_500() {
    let mut ex = Exchange::new();
    assert!(matches!(
        ex.on_request(plain_request(), true),
        Step::AwaitRequestEdit { .. }
    ));
    let step = ex.on_request_edit(EditOutcome::Malformed(
        "payload did not deserialize".to_string(),
    ));
    match step {
        Step::Reply { reply } => {
            assert_eq!(reply.status, 500);
            assert_eq!(reply.body, b"payload did not deserialize".to_vec());
        }
        _ => panic!("a malformed edit must be replied as an error"),
    }
}

#[test]
fn abandoned_request_edit_falls_back_to_default_and_fails() {
    // The empty default request has no parsable headers JSON, so the
    // abandoned wait surfaces as a synthetic 500 rather than a hang.
    let mut ex = Exchange::new();
    assert!(matches!(
        ex.on_request(plain_request(), true),
        Step::AwaitRequestEdit { .. }
    ));
    match ex.on_request_edit(EditOutcome::Abandoned) {
        Step::Reply { reply } => assert_eq!(reply.status, 500),
        _ => panic!("an abandoned wait must not forward anything"),
    }
    assert_eq!(ex.phase, Phase::Complete);
}

#[test]
fn abandoned_response_edit_falls_back_to_default_and_fails() {
    let mut ex = Exchange::new();
    assert!(matches!(
        ex.on_request(plain_request(), false),
        Step::NotifyAndForward { .. }
    ));
    assert!(matches!(
        ex.on_upstream(UpstreamOutcome::Answered(plain_response()), true),
        Step::AwaitResponseEdit { .. }
    ));
    match ex.on_response_edit(EditOutcome::Abandoned) {
        Step::Reply { reply } => assert_eq!(reply.status, 500),
        _ => panic!("an abandoned wait must not hang the exchange"),
    }
}

#[test]
fn edited_response_with_bad_status_gets_synthetic_500() {
    let mut ex = Exchange::new();
    assert!(matches!(
        ex.on_request(plain_request(), false),
        Step::NotifyAndForward { .. }
    ));
    let notice = match ex.on_upstream(UpstreamOutcome::Answered(plain_response()), true) {
        Step::AwaitResponseEdit { notice } => notice,
        _ => panic!("pilot mode must suspend for a response edit"),
    };
    let edited = ResponseForFront {
        headers: notice.headers,
        body: "x".to_string(),
        status: 42,
        version: "HTTP/1.1".to_string(),
        piloted: true,
    };
    match ex.on_response_edit(EditOutcome::Received(edited)) {
        Step::Reply { reply } => assert_eq!(reply.status, 500),
        _ => panic!("an out-of-range status must be rejected"),
    }
}

#[test]
fn non_utf8_request_body_gets_synthetic_500() {
    let mut ex = Exchange::new();
    let rq = WireRequest {
        headers: vec![header("host", "origin.example")],
        url: "http://origin.example/".to_string(),
        method: "POST".to_string(),
        version: HttpVersion::Http11,
        body: vec![0xFF, 0xFE],
    };
    match ex.on_request(rq, false) {
        Step::Reply { reply } => {
            assert_eq!(reply.status, 500);
            assert_eq!(ex.phase, Phase::Complete);
        }
        _ => panic!("a binary body must be refused at the boundary"),
    }
}

#[test]
fn copied_messages_are_identical() {
    let (a, b) = copy_request(plain_request());
    let rq = plain_request();
    for w in [&a, &b] {
        assert_eq!(w.headers, rq.headers);
        assert_eq!(w.url, rq.url);
        assert_eq!(w.method, rq.method);
        assert_eq!(w.version, rq.version);
        assert_eq!(w.body, rq.body);
    }
    let (a, b) = copy_response(plain_response());
    let rs = plain_response();
    for w in [&a, &b] {
        assert_eq!(w.headers, rs.headers);
        assert_eq!(w.status, rs.status);
        assert_eq!(w.version, rs.version);
        assert_eq!(w.body, rs.body);
    }
}

#[test]
fn pilot_toggle_accepts_only_the_two_literals() {
    assert_eq!(pilot_toggle("true"), Some(true));
    assert_eq!(pilot_toggle("false"), Some(false));
    assert_eq!(pilot_toggle("TRUE"), None);
    assert_eq!(pilot_toggle("yes"), None);
    assert_eq!(pilot_toggle(""), None);
}

#[test]
fn tls_destinations_are_recognized() {
    assert!(is_tls_destination("https://example.com/"));
    assert!(!is_tls_destination("http://example.com/"));
    assert!(!is_tls_destination("ftp://example.com/"));
    assert!(!is_tls_destination(""));
}

#[test]
fn front_conversion_is_lossless() {
    // Wire to front and back: the bookkeeping pair-id header is added for
    // the trip and removed again; everything else survives unchanged.
    let rq = plain_request();
    let front = request_to_front(&rq, 0xDEAD_BEEF, false).unwrap();
    let id = notice_pair_id(&front.headers);
    assert_eq!(id, b"000000000000000000000000DEADBEEF".to_vec());
    let back = request_from_front(&front).unwrap();
    assert_eq!(back.headers, rq.headers);
    assert_eq!(back.url, rq.url);
    assert_eq!(back.method, rq.method);
    assert_eq!(back.version, rq.version);
    assert_eq!(back.body, rq.body);
}

#[test]
fn response_front_conversion_keeps_declared_coding() {
    // A decoded response converted to front form and back keeps headers,
    // status and version, and its body is re-encoded under the coding the
    // headers declare.
    let decoded = WireResponse {
        headers: vec![
            header("content-encoding", "gzip"),
            header("content-type", "text/plain"),
        ],
        status: 200,
        version: HttpVersion::Http11,
        body: b"payload text".to_vec(),
    };
    let front = response_to_front(&decoded, 7, false).unwrap();
    assert_eq!(front.body, "payload text");
    let back = response_from_front(&front).unwrap();
    assert_eq!(back.headers, decoded.headers);
    assert_eq!(back.status, 200);
    assert_eq!(back.version, HttpVersion::Http11);
    let plain = SupportedEncoding::Gzip.decode(back.body).unwrap();
    assert_eq!(plain, b"payload text".to_vec());
}

#[test]
fn request_snapshot_is_kept_per_half() {
    // The request half records its own snapshot; the response half takes
    // a fresh one, so a mid-flight toggle changes only the response half.
    let mut ex = Exchange::new();
    assert!(matches!(
        ex.on_request(plain_request(), false),
        Step::NotifyAndForward { .. }
    ));
    assert!(!ex.intercepted);
    match ex.on_upstream(UpstreamOutcome::Answered(plain_response()), true) {
        Step::AwaitResponseEdit { notice } => assert!(notice.piloted),
        _ => panic!("the response half must honor its own snapshot"),
    }
    assert!(!ex.intercepted);
}
