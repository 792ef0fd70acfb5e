use vstd::prelude::*;

verus! {

use crate::encoding::{
    SupportedEncoding, spec_encoding_of_token, unsupported_encoding_msg, spec_plain_of,
    spec_coded_of,
};
use crate::errors::{HttpUtilError, HttpUtilErrorV};
use crate::headers::{
    Header, HeaderV, wf_headers, clone_bytes, clone_header, spec_drop_headers, drop_headers,
    spec_find_header, find_header,
};
use crate::json::{
    spec_encode_headers, spec_decode_headers, encode_header_bytes, decode_headers,
    header_parse_msg, lemma_encode_headers_ascii, lemma_headers_round_trip,
};
use crate::pair::{pair_header, pair_header_name, pair_header_name_bytes};
use crate::text::{
    ascii_chars_of, lemma_ascii_decode, bytes_to_string, string_to_bytes, u128_hex,
};
use crate::version::{HttpVersion, spec_version_of, invalid_version_msg};
use vstd::utf8::{valid_utf8, decode_utf8, encode_utf8};

// ------------------------------------------------------------------
// Wire-side message models.
// ------------------------------------------------------------------

/// A buffered wire-side request: the engine's stand-in for the transport
/// library's request type, with the body already read into memory.
pub struct WireRequest {
    pub headers: Vec<Header>,
    pub url: String,
    pub method: String,
    pub version: HttpVersion,
    pub body: Vec<u8>,
}

/// Mathematical image of a [`WireRequest`].
pub struct WireRequestV {
    pub headers: Seq<HeaderV>,
    pub url: Seq<char>,
    pub method: Seq<char>,
    pub version: HttpVersion,
    pub body: Seq<u8>,
}

impl View for WireRequest {
    type V = WireRequestV;

    open spec fn view(&self) -> WireRequestV {
        WireRequestV {
            headers: self.headers.deep_view(),
            url: self.url@,
            method: self.method@,
            version: self.version,
            body: self.body@,
        }
    }
}

/// A buffered wire-side response.
pub struct WireResponse {
    pub headers: Vec<Header>,
    pub status: u16,
    pub version: HttpVersion,
    pub body: Vec<u8>,
}

/// Mathematical image of a [`WireResponse`].
pub struct WireResponseV {
    pub headers: Seq<HeaderV>,
    pub status: u16,
    pub version: HttpVersion,
    pub body: Seq<u8>,
}

impl View for WireResponse {
    type V = WireResponseV;

    open spec fn view(&self) -> WireResponseV {
        WireResponseV {
            headers: self.headers.deep_view(),
            status: self.status,
            version: self.version,
            body: self.body@,
        }
    }
}

// ------------------------------------------------------------------
// Front-side (canonical JSON) message shapes.
// ------------------------------------------------------------------

/// The canonical request shape shown to the control surface: headers as a
/// flat JSON object, the body as UTF-8 text, and the intercept snapshot
/// under which this exchange half runs.
pub struct Request {
    pub headers: String,
    pub url: String,
    pub method: String,
    pub version: String,
    pub body: String,
    pub piloted: bool,
}

/// Mathematical image of a [`Request`].
pub struct RequestV {
    pub headers: Seq<char>,
    pub url: Seq<char>,
    pub method: Seq<char>,
    pub version: Seq<char>,
    pub body: Seq<char>,
    pub piloted: bool,
}

impl View for Request {
    type V = RequestV;

    open spec fn view(&self) -> RequestV {
        RequestV {
            headers: self.headers@,
            url: self.url@,
            method: self.method@,
            version: self.version@,
            body: self.body@,
            piloted: self.piloted,
        }
    }
}

/// The empty default request: the fallback consumed when an edit wait is
/// abandoned.
pub open spec fn spec_empty_request() -> RequestV {
    RequestV {
        headers: Seq::empty(),
        url: Seq::empty(),
        method: Seq::empty(),
        version: Seq::empty(),
        body: Seq::empty(),
        piloted: false,
    }
}

impl Request {
    /// An empty request, `piloted` off.
    pub fn new() -> (r: Request)
        ensures
            r@ == spec_empty_request(),
    {
        Request {
            headers: String::new(),
            url: String::new(),
            method: String::new(),
            version: String::new(),
            body: String::new(),
            piloted: false,
        }
    }
}

/// The canonical response shape shown to the control surface.
pub struct ResponseForFront {
    pub headers: String,
    pub body: String,
    pub status: u16,
    pub version: String,
    pub piloted: bool,
}

/// Mathematical image of a [`ResponseForFront`].
pub struct ResponseForFrontV {
    pub headers: Seq<char>,
    pub body: Seq<char>,
    pub status: u16,
    pub version: Seq<char>,
    pub piloted: bool,
}

impl View for ResponseForFront {
    type V = ResponseForFrontV;

    open spec fn view(&self) -> ResponseForFrontV {
        ResponseForFrontV {
            headers: self.headers@,
            body: self.body@,
            status: self.status,
            version: self.version@,
            piloted: self.piloted,
        }
    }
}

/// The empty default response, status 500: the fallback consumed when an
/// edit wait is abandoned.
pub open spec fn spec_empty_response() -> ResponseForFrontV {
    ResponseForFrontV {
        headers: Seq::empty(),
        body: Seq::empty(),
        status: 500,
        version: Seq::empty(),
        piloted: false,
    }
}

impl ResponseForFront {
    /// An empty response with status 500, `piloted` off.
    pub fn new() -> (r: ResponseForFront)
        ensures
            r@ == spec_empty_response(),
    {
        ResponseForFront {
            headers: String::new(),
            body: String::new(),
            status: 500,
            version: String::new(),
            piloted: false,
        }
    }
}

/// Duplicates a buffered wire request: both results are field-for-field
/// identical to the original, so one can be forwarded while the other is
/// rendered for observation.
pub fn copy_request(rq: WireRequest) -> (r: (WireRequest, WireRequest))
    ensures
        r.0@ == rq@,
        r.1@ == rq@,
{
    let copy = WireRequest {
        headers: crate::headers::clone_headers(&rq.headers),
        url: rq.url.clone(),
        method: rq.method.clone(),
        version: rq.version,
        body: clone_bytes(&rq.body),
    };
    (rq, copy)
}

/// Duplicates a buffered wire response, as [`copy_request`] does.
pub fn copy_response(rs: WireResponse) -> (r: (WireResponse, WireResponse))
    ensures
        r.0@ == rs@,
        r.1@ == rs@,
{
    let copy = WireResponse {
        headers: crate::headers::clone_headers(&rs.headers),
        status: rs.status,
        version: rs.version,
        body: clone_bytes(&rs.body),
    };
    (rs, copy)
}

// ------------------------------------------------------------------
// Wire-to-front conversion.
// ------------------------------------------------------------------

/// The detail text of the error for a body that is not UTF-8 text.
pub open spec fn body_not_text_msg() -> Seq<char> {
    "message body is not utf-8 text"@
}

/// The canonical front form of a wire request, its headers tagged with the
/// exchange's pair identifier.  Fails when a header is not representable
/// as header text, or the body is not UTF-8.
pub open spec fn spec_request_to_front(rq: WireRequestV, id: u128, piloted: bool) -> Result<
    RequestV,
    HttpUtilErrorV,
> {
    let tagged = seq![pair_header(id)] + rq.headers;
    if !wf_headers(tagged) {
        Err(HttpUtilErrorV::HeaderEncodeError(crate::json::header_encode_msg()))
    } else if !valid_utf8(rq.body) {
        Err(HttpUtilErrorV::MessageConversionError(body_not_text_msg()))
    } else {
        Ok(
            RequestV {
                headers: ascii_chars_of(spec_encode_headers(tagged)),
                url: rq.url,
                method: rq.method,
                version: rq.version.spec_literal(),
                body: decode_utf8(rq.body),
                piloted,
            },
        )
    }
}

/// The canonical front form of a wire response whose body has already been
/// decoded to plaintext.
pub open spec fn spec_response_to_front(rs: WireResponseV, id: u128, piloted: bool) -> Result<
    ResponseForFrontV,
    HttpUtilErrorV,
> {
    let tagged = seq![pair_header(id)] + rs.headers;
    if !wf_headers(tagged) {
        Err(HttpUtilErrorV::HeaderEncodeError(crate::json::header_encode_msg()))
    } else if !valid_utf8(rs.body) {
        Err(HttpUtilErrorV::MessageConversionError(body_not_text_msg()))
    } else {
        Ok(
            ResponseForFrontV {
                headers: ascii_chars_of(spec_encode_headers(tagged)),
                body: decode_utf8(rs.body),
                status: rs.status,
                version: rs.version.spec_literal(),
                piloted,
            },
        )
    }
}

/// A copy of `hs` with the pair-identifier header put first.
fn tag_headers(hs: &Vec<Header>, id: u128) -> (r: Vec<Header>)
    ensures
        r.deep_view() == seq![pair_header(id)] + hs.deep_view(),
{
    let mut r: Vec<Header> = Vec::new();
    r.push(Header { name: pair_header_name_bytes(), value: u128_hex(id) });
    for i in 0..hs.len()
        invariant
            r@.len() == i + 1,
            r@[0]@ == pair_header(id),
            forall|k: int| 1 <= k < i + 1 ==> #[trigger] r@[k]@ == hs@[k - 1]@,
    {
        r.push(clone_header(&hs[i]));
    }
    proof {
        let lhs = r.deep_view();
        let rhs = seq![pair_header(id)] + hs.deep_view();
        assert forall|k: int| 0 <= k < lhs.len() implies lhs[k] == rhs[k] by {
            if k == 0 {
                assert(lhs[0] == r@[0]@);
            } else {
                assert(lhs[k] == r@[k]@);
                assert(rhs[k] == hs@[k - 1]@);
            }
        }
        assert(lhs =~= rhs);
    }
    r
}

/// Converts a wire request into the canonical front form, exactly as
/// [`spec_request_to_front`] says.
pub fn request_to_front(rq: &WireRequest, pair_id: u128, piloted: bool) -> (r: Result<
    Request,
    HttpUtilError,
>)
    ensures
        match spec_request_to_front(rq@, pair_id, piloted) {
            Ok(f) => r matches Ok(x) && x@ == f,
            Err(e) => r matches Err(x) && x@ == e,
        },
{
    let tagged = tag_headers(&rq.headers, pair_id);
    match encode_header_bytes(&tagged) {
        Err(e) => Err(e),
        Ok(bytes) => {
            proof {
                lemma_encode_headers_ascii(tagged.deep_view());
                lemma_ascii_decode(bytes@);
            }
            let headers_s = match bytes_to_string(bytes) {
                Some(s) => s,
                None => vstd::pervasive::unreached(),
            };
            match bytes_to_string(clone_bytes(&rq.body)) {
                None => Err(
                    HttpUtilError::MessageConversionError(
                        "message body is not utf-8 text".to_owned(),
                    ),
                ),
                Some(body_s) => Ok(
                    Request {
                        headers: headers_s,
                        url: rq.url.clone(),
                        method: rq.method.clone(),
                        version: rq.version.as_str().to_owned(),
                        body: body_s,
                        piloted,
                    },
                ),
            }
        },
    }
}

/// Converts a decoded wire response into the canonical front form, exactly
/// as [`spec_response_to_front`] says.
pub fn response_to_front(rs: &WireResponse, pair_id: u128, piloted: bool) -> (r: Result<
    ResponseForFront,
    HttpUtilError,
>)
    ensures
        match spec_response_to_front(rs@, pair_id, piloted) {
            Ok(f) => r matches Ok(x) && x@ == f,
            Err(e) => r matches Err(x) && x@ == e,
        },
{
    let tagged = tag_headers(&rs.headers, pair_id);
    match encode_header_bytes(&tagged) {
        Err(e) => Err(e),
        Ok(bytes) => {
            proof {
                lemma_encode_headers_ascii(tagged.deep_view());
                lemma_ascii_decode(bytes@);
            }
            let headers_s = match bytes_to_string(bytes) {
                Some(s) => s,
                None => vstd::pervasive::unreached(),
            };
            match bytes_to_string(clone_bytes(&rs.body)) {
                None => Err(
                    HttpUtilError::MessageConversionError(
                        "message body is not utf-8 text".to_owned(),
                    ),
                ),
                Some(body_s) => Ok(
                    ResponseForFront {
                        headers: headers_s,
                        body: body_s,
                        status: rs.status,
                        version: rs.version.as_str().to_owned(),
                        piloted,
                    },
                ),
            }
        },
    }
}

// ------------------------------------------------------------------
// Front-to-wire conversion.
// ------------------------------------------------------------------

/// The wire form denoted by an edited front request: its headers JSON
/// decoded (the bookkeeping pair-identifier header filtered out), its
/// version literal resolved, its body taken as UTF-8 bytes.
pub open spec fn spec_request_from_front(f: RequestV) -> Result<WireRequestV, HttpUtilErrorV> {
    match spec_decode_headers(encode_utf8(f.headers)) {
        None => Err(HttpUtilErrorV::HeaderParseError(header_parse_msg())),
        Some(hs) => match spec_version_of(f.version) {
            None => Err(HttpUtilErrorV::InvalidVersion(invalid_version_msg())),
            Some(ver) => Ok(
                WireRequestV {
                    headers: spec_drop_headers(hs, pair_header_name()),
                    url: f.url,
                    method: f.method,
                    version: ver,
                    body: encode_utf8(f.body),
                },
            ),
        },
    }
}

/// Converts an edited front request back to wire form, exactly as
/// [`spec_request_from_front`] says.
pub fn request_from_front(f: &Request) -> (r: Result<WireRequest, HttpUtilError>)
    ensures
        match spec_request_from_front(f@) {
            Ok(w) => r matches Ok(x) && x@ == w,
            Err(e) => r matches Err(x) && x@ == e,
        },
{
    let hs = match decode_headers(f.headers.as_str()) {
        Err(e) => {
            return Err(e);
        },
        Ok(h) => h,
    };
    let ver = match HttpVersion::from_str(f.version.as_str()) {
        Err(e) => {
            return Err(e);
        },
        Ok(v) => v,
    };
    let name = pair_header_name_bytes();
    let cleaned = drop_headers(&hs, &name);
    Ok(
        WireRequest {
            headers: cleaned,
            url: f.url.clone(),
            method: f.method.clone(),
            version: ver,
            body: string_to_bytes(f.body.as_str()),
        },
    )
}

/// The name of the `Content-Encoding` header.
pub open spec fn content_encoding_name() -> Seq<u8> {
    encode_utf8("content-encoding"@)
}

/// The coding named by the collection's `Content-Encoding` header: absent
/// means identity; an unsupported token is an error.
pub open spec fn spec_response_encoding_of(hs: Seq<HeaderV>) -> Result<
    SupportedEncoding,
    HttpUtilErrorV,
> {
    match spec_find_header(hs, content_encoding_name()) {
        None => Ok(SupportedEncoding::Identity),
        Some(v) => match spec_encoding_of_token(v) {
            Some(e) => Ok(e),
            None => Err(HttpUtilErrorV::UnsupportedEncoding(unsupported_encoding_msg(v))),
        },
    }
}

/// The coding to apply to a response body, read from its headers.
pub fn response_encoding(hs: &Vec<Header>) -> (r: Result<SupportedEncoding, HttpUtilError>)
    ensures
        match spec_response_encoding_of(hs.deep_view()) {
            Ok(e) => r matches Ok(x) && x == e,
            Err(e) => r matches Err(x) && x@ == e,
        },
{
    let name = string_to_bytes("content-encoding");
    match find_header(hs, &name) {
        None => SupportedEncoding::from(None),
        Some(v) => SupportedEncoding::from(Some(&v)),
    }
}

/// The detail text of the error for a status outside 100..=599.
pub open spec fn bad_status_msg() -> Seq<char> {
    "status code is out of range"@
}

/// The decoded pieces of an edited front response, before its body is
/// re-encoded: cleaned headers, status, version and the coding to
/// re-apply.
pub struct ResponsePartsV {
    pub headers: Seq<HeaderV>,
    pub status: u16,
    pub version: HttpVersion,
    pub encoding: SupportedEncoding,
}

/// What an edited front response decodes to, its body aside.
pub open spec fn spec_response_parts_from_front(f: ResponseForFrontV) -> Result<
    ResponsePartsV,
    HttpUtilErrorV,
> {
    match spec_decode_headers(encode_utf8(f.headers)) {
        None => Err(HttpUtilErrorV::HeaderParseError(header_parse_msg())),
        Some(hs) => match spec_version_of(f.version) {
            None => Err(HttpUtilErrorV::InvalidVersion(invalid_version_msg())),
            Some(ver) => if !(100 <= f.status <= 599) {
                Err(HttpUtilErrorV::MessageConversionError(bad_status_msg()))
            } else {
                let cleaned = spec_drop_headers(hs, pair_header_name());
                match spec_response_encoding_of(cleaned) {
                    Err(e) => Err(e),
                    Ok(enc) => Ok(
                        ResponsePartsV { headers: cleaned, status: f.status, version: ver, encoding: enc },
                    ),
                }
            },
        },
    }
}

/// Converts an edited front response back to wire form: decodes its
/// pieces as [`spec_response_parts_from_front`] says, then re-encodes the
/// plaintext body with the response's own declared coding, so the bytes
/// returned to the caller stay consistent with its `Content-Encoding`.
/// Succeeds exactly where the pieces decode; the wire body is the
/// coding's encoding of the edited text, and decodes back to it.
pub fn response_from_front(f: &ResponseForFront) -> (r: Result<WireResponse, HttpUtilError>)
    ensures
        match spec_response_parts_from_front(f@) {
            Err(e) => r matches Err(x) && x@ == e,
            Ok(parts) => r matches Ok(w) && w@.headers == parts.headers && w@.status
                == parts.status && w@.version == parts.version && w@.body == spec_coded_of(
                parts.encoding,
                encode_utf8(f@.body),
            ) && spec_plain_of(parts.encoding, w@.body) == Some(encode_utf8(f@.body)),
        },
{
    let hs = match decode_headers(f.headers.as_str()) {
        Err(e) => {
            return Err(e);
        },
        Ok(h) => h,
    };
    let ver = match HttpVersion::from_str(f.version.as_str()) {
        Err(e) => {
            return Err(e);
        },
        Ok(v) => v,
    };
    if !(100 <= f.status && f.status <= 599) {
        return Err(HttpUtilError::MessageConversionError("status code is out of range".to_owned()));
    }
    let name = pair_header_name_bytes();
    let cleaned = drop_headers(&hs, &name);
    let enc = match response_encoding(&cleaned) {
        Err(e) => {
            return Err(e);
        },
        Ok(e) => e,
    };
    let body = match enc.encode(string_to_bytes(f.body.as_str())) {
        Err(_) => vstd::pervasive::unreached(),
        Ok(b) => b,
    };
    Ok(WireResponse { headers: cleaned, status: f.status, version: ver, body })
}

// ------------------------------------------------------------------
// The synthetic error reply.
// ------------------------------------------------------------------

/// The synthetic reply for a recovered failure: a 500 whose body is the
/// error's descriptive text.
pub open spec fn spec_error_reply(e: HttpUtilErrorV) -> WireResponseV {
    WireResponseV {
        headers: Seq::empty(),
        status: 500,
        version: HttpVersion::Http11,
        body: encode_utf8(e.msg()),
    }
}

/// Builds the synthetic 500 reply for a recovered failure.
pub fn error_response(e: &HttpUtilError) -> (r: WireResponse)
    ensures
        r@ == spec_error_reply(e@),
{
    let msg = e.message();
    let r = WireResponse {
        headers: Vec::new(),
        status: 500,
        version: HttpVersion::Http11,
        body: string_to_bytes(msg.as_str()),
    };
    proof {
        assert(r@.headers =~= Seq::<HeaderV>::empty());
    }
    r
}

// ------------------------------------------------------------------
// When conversion is owed to succeed, and what a round trip preserves.
// ------------------------------------------------------------------

/// Law: building a request notification cannot fail for a message whose
/// headers are well-formed header text and whose body is UTF-8 — the
/// bookkeeping tag the engine adds never spoils the headers.
pub proof fn lemma_request_to_front_total(rq: WireRequestV, id: u128, piloted: bool)
    requires
        wf_headers(rq.headers),
        valid_utf8(rq.body),
    ensures
        spec_request_to_front(rq, id, piloted) is Ok,
{
    crate::pair::lemma_tagged_wf(rq.headers, id);
}

/// Law: building a response notification cannot fail for a message whose
/// headers are well-formed header text and whose (decoded) body is UTF-8.
pub proof fn lemma_response_to_front_total(rs: WireResponseV, id: u128, piloted: bool)
    requires
        wf_headers(rs.headers),
        valid_utf8(rs.body),
    ensures
        spec_response_to_front(rs, id, piloted) is Ok,
{
    crate::pair::lemma_tagged_wf(rs.headers, id);
}

/// Law: the canonical form is lossless.  Converting a wire request to its
/// front form and back yields the original request exactly — headers in
/// order, url, method, version and body — with the bookkeeping
/// pair-identifier header (added for the trip) removed again.  The one
/// proviso is that the wire request does not itself carry a header by
/// that bookkeeping name.
pub proof fn lemma_request_front_round_trip(
    rq: WireRequestV,
    id: u128,
    piloted: bool,
    f: RequestV,
)
    requires
        spec_request_to_front(rq, id, piloted) == Ok::<RequestV, HttpUtilErrorV>(f),
        spec_drop_headers(rq.headers, pair_header_name()) == rq.headers,
    ensures
        spec_request_from_front(f) == Ok::<WireRequestV, HttpUtilErrorV>(rq),
{
    let tagged = seq![pair_header(id)] + rq.headers;
    let bytes = spec_encode_headers(tagged);
    lemma_encode_headers_ascii(tagged);
    lemma_ascii_decode(bytes);
    lemma_headers_round_trip(tagged);
    assert(encode_utf8(f.headers) == bytes);
    assert(spec_decode_headers(encode_utf8(f.headers)) == Some(tagged));
    // Dropping the bookkeeping name from the tagged collection removes
    // exactly the tag.
    let pred = crate::headers::keep_pred(pair_header_name());
    Seq::filter_distributes_over_add(seq![pair_header(id)], rq.headers, pred);
    reveal(Seq::filter);
    assert(seq![pair_header(id)].drop_last() =~= Seq::<HeaderV>::empty());
    assert(seq![pair_header(id)].last() == pair_header(id));
    assert(Seq::<HeaderV>::empty().filter(pred) =~= Seq::<HeaderV>::empty());
    assert(!pred(pair_header(id)));
    assert(seq![pair_header(id)].filter(pred) =~= Seq::<HeaderV>::empty());
    assert(Seq::<HeaderV>::empty() + rq.headers.filter(pred) =~= rq.headers.filter(pred));
    assert(spec_drop_headers(tagged, pair_header_name()) == rq.headers);
    // The version literal resolves back, and the body re-encodes to the
    // original bytes.
    crate::version::lemma_version_of_literal(rq.version);
    vstd::utf8::decode_utf8_encode_utf8(rq.body);
}

/// Law: the canonical response form is lossless up to its body's coding.
/// Converting a decoded wire response to its front form and back decodes
/// to the original headers (the bookkeeping tag removed again), status,
/// version and declared coding — so, with the body re-encoded under that
/// very coding, the bytes the caller sees stay consistent with the
/// response's `Content-Encoding`.  The provisos: the response carries no
/// header by the bookkeeping name, its status is in range, and its
/// declared coding is supported (all of which hold of a response the
/// engine admitted).
pub proof fn lemma_response_front_round_trip(
    rs: WireResponseV,
    id: u128,
    piloted: bool,
    f: ResponseForFrontV,
    enc: SupportedEncoding,
)
    requires
        spec_response_to_front(rs, id, piloted) == Ok::<ResponseForFrontV, HttpUtilErrorV>(f),
        spec_drop_headers(rs.headers, pair_header_name()) == rs.headers,
        100 <= rs.status <= 599,
        spec_response_encoding_of(rs.headers) == Ok::<SupportedEncoding, HttpUtilErrorV>(enc),
    ensures
        spec_response_parts_from_front(f) matches Ok(parts) && parts.headers == rs.headers
            && parts.status == rs.status && parts.version == rs.version && parts.encoding
            == enc,
{
    let tagged = seq![pair_header(id)] + rs.headers;
    let bytes = spec_encode_headers(tagged);
    lemma_encode_headers_ascii(tagged);
    lemma_ascii_decode(bytes);
    lemma_headers_round_trip(tagged);
    assert(encode_utf8(f.headers) == bytes);
    assert(spec_decode_headers(encode_utf8(f.headers)) == Some(tagged));
    let pred = crate::headers::keep_pred(pair_header_name());
    Seq::filter_distributes_over_add(seq![pair_header(id)], rs.headers, pred);
    reveal(Seq::filter);
    assert(seq![pair_header(id)].drop_last() =~= Seq::<HeaderV>::empty());
    assert(seq![pair_header(id)].last() == pair_header(id));
    assert(Seq::<HeaderV>::empty().filter(pred) =~= Seq::<HeaderV>::empty());
    assert(!pred(pair_header(id)));
    assert(seq![pair_header(id)].filter(pred) =~= Seq::<HeaderV>::empty());
    assert(Seq::<HeaderV>::empty() + rs.headers.filter(pred) =~= rs.headers.filter(pred));
    assert(spec_drop_headers(tagged, pair_header_name()) == rs.headers);
    crate::version::lemma_version_of_literal(rs.version);
}

// ------------------------------------------------------------------
// Correlation of the two notifications of one exchange.
// ------------------------------------------------------------------

/// Law: the notifications for the two halves of one exchange both carry
/// the exchange's pair identifier — each one's headers JSON decodes to a
/// collection whose first header is the pair-identifier header for `id`,
/// so the two notifications are correlated by the same identifier.
pub proof fn lemma_notices_share_pair_id(
    rq: WireRequestV,
    rs: WireResponseV,
    id: u128,
    p1: bool,
    p2: bool,
    f1: RequestV,
    f2: ResponseForFrontV,
)
    requires
        spec_request_to_front(rq, id, p1) == Ok::<RequestV, HttpUtilErrorV>(f1),
        spec_response_to_front(rs, id, p2) == Ok::<ResponseForFrontV, HttpUtilErrorV>(f2),
    ensures
        spec_decode_headers(encode_utf8(f1.headers)) matches Some(h1) && h1.len() > 0 && h1[0]
            == pair_header(id),
        spec_decode_headers(encode_utf8(f2.headers)) matches Some(h2) && h2.len() > 0 && h2[0]
            == pair_header(id),
{
    let tagged1 = seq![pair_header(id)] + rq.headers;
    lemma_encode_headers_ascii(tagged1);
    lemma_ascii_decode(spec_encode_headers(tagged1));
    lemma_headers_round_trip(tagged1);
    let tagged2 = seq![pair_header(id)] + rs.headers;
    lemma_encode_headers_ascii(tagged2);
    lemma_ascii_decode(spec_encode_headers(tagged2));
    lemma_headers_round_trip(tagged2);
}

} // verus!
