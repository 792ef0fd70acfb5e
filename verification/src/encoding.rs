use vstd::prelude::*;

verus! {

use crate::errors::{HttpUtilError, HttpUtilErrorV};
use crate::headers::{Header, HeaderV, spec_find_header, find_header};
use crate::text::{
    string_to_bytes, bytes_to_string, ascii_chars_of, lemma_ascii_decode,
    lemma_ascii_chars_of_app, lemma_ascii_chars_of_encode,
};
use vstd::utf8::encode_utf8;

/// The content codings the engine can round-trip.  Any other token is
/// rejected at admission time; the engine never attempts to decode or
/// encode an unsupported scheme.
#[derive(Clone, Copy, PartialEq, Eq, Structural, Debug)]
pub enum SupportedEncoding {
    Gzip,
    Deflate,
    Identity,
}

pub open spec fn gzip_token() -> Seq<u8> {
    seq![103u8, 122u8, 105u8, 112u8]
}

pub open spec fn deflate_token() -> Seq<u8> {
    seq![100u8, 101u8, 102u8, 108u8, 97u8, 116u8, 101u8]
}

pub open spec fn identity_token() -> Seq<u8> {
    seq![105u8, 100u8, 101u8, 110u8, 116u8, 105u8, 116u8, 121u8]
}

/// The encoding a token denotes, the empty token meaning identity;
/// `None` for any unsupported token.
pub open spec fn spec_encoding_of_token(t: Seq<u8>) -> Option<SupportedEncoding> {
    if t == gzip_token() {
        Some(SupportedEncoding::Gzip)
    } else if t == deflate_token() {
        Some(SupportedEncoding::Deflate)
    } else if t == identity_token() || t.len() == 0 {
        Some(SupportedEncoding::Identity)
    } else {
        None
    }
}

/// A token the engine supports.
pub open spec fn spec_supported_token(t: Seq<u8>) -> bool {
    spec_encoding_of_token(t) is Some
}

fn is_gzip_token(v: &Vec<u8>) -> (r: bool)
    ensures
        r == (v@ == gzip_token()),
{
    if v.len() != 4 {
        return false;
    }
    let r = v[0] == 103 && v[1] == 122 && v[2] == 105 && v[3] == 112;
    proof {
        if r {
            assert(v@ =~= gzip_token());
        }
    }
    r
}

fn is_deflate_token(v: &Vec<u8>) -> (r: bool)
    ensures
        r == (v@ == deflate_token()),
{
    if v.len() != 7 {
        return false;
    }
    let r = v[0] == 100 && v[1] == 101 && v[2] == 102 && v[3] == 108 && v[4] == 97 && v[5] == 116
        && v[6] == 101;
    proof {
        if r {
            assert(v@ =~= deflate_token());
        }
    }
    r
}

fn is_identity_token(v: &Vec<u8>) -> (r: bool)
    ensures
        r == (v@ == identity_token()),
{
    if v.len() != 8 {
        return false;
    }
    let r = v[0] == 105 && v[1] == 100 && v[2] == 101 && v[3] == 110 && v[4] == 116 && v[5] == 105
        && v[6] == 116 && v[7] == 121;
    proof {
        if r {
            assert(v@ =~= identity_token());
        }
    }
    r
}

/// The encoding a token denotes, if supported.
pub fn encoding_of_token(v: &Vec<u8>) -> (r: Option<SupportedEncoding>)
    ensures
        r == spec_encoding_of_token(v@),
{
    if is_gzip_token(v) {
        Some(SupportedEncoding::Gzip)
    } else if is_deflate_token(v) {
        Some(SupportedEncoding::Deflate)
    } else if is_identity_token(v) || v.len() == 0 {
        Some(SupportedEncoding::Identity)
    } else {
        None
    }
}

/// One byte as rendered in an error message: itself when printable ASCII,
/// a question mark otherwise.
pub open spec fn spec_printable_byte(b: u8) -> u8 {
    if 32 <= b < 127 {
        b
    } else {
        63
    }
}

/// A token as rendered in an error message.
pub open spec fn spec_printable(t: Seq<u8>) -> Seq<u8> {
    t.map_values(|b: u8| spec_printable_byte(b))
}

/// The detail text of the error for an unsupported coding token, naming
/// the offending token.
pub open spec fn unsupported_encoding_msg(t: Seq<u8>) -> Seq<char> {
    "content coding is not supported: "@ + ascii_chars_of(spec_printable(t))
}

/// Builds the error for an unsupported coding token, its detail text
/// naming the token.
fn unsupported_encoding_error(t: &Vec<u8>) -> (r: HttpUtilError)
    ensures
        r@ == HttpUtilErrorV::UnsupportedEncoding(unsupported_encoding_msg(t@)),
{
    let mut bytes = string_to_bytes("content coding is not supported: ");
    let ghost prefix = bytes@;
    for i in 0..t.len()
        invariant
            bytes@ == prefix + spec_printable(t@.take(i as int)),
    {
        let b = t[i];
        let p = if 32 <= b && b < 127 {
            b
        } else {
            63
        };
        bytes.push(p);
        proof {
            assert(spec_printable(t@.take(i + 1)) =~= spec_printable(t@.take(i as int)).push(
                spec_printable_byte(t@[i as int]),
            ));
            assert(bytes@ =~= prefix + spec_printable(t@.take(i + 1)));
        }
    }
    proof {
        assert(t@.take(t@.len() as int) =~= t@);
        reveal_strlit("content coding is not supported: ");
        let lit = "content coding is not supported: "@;
        assert(vstd::utf8::is_ascii_chars(lit));
        vstd::utf8::is_ascii_chars_encode_utf8(lit);
        assert forall|k: int| 0 <= k < bytes@.len() implies #[trigger] bytes@[k] < 128 by {
            if k < prefix.len() {
                assert(bytes@[k] == prefix[k]);
                assert(prefix[k] == lit[k] as u8);
            } else {
                assert(bytes@[k] == spec_printable(t@)[k - prefix.len()]);
            }
        }
        lemma_ascii_decode(bytes@);
        lemma_ascii_chars_of_app(prefix, spec_printable(t@));
        lemma_ascii_chars_of_encode(lit);
    }
    match bytes_to_string(bytes) {
        Some(s) => HttpUtilError::UnsupportedEncoding(s),
        None => vstd::pervasive::unreached(),
    }
}

impl SupportedEncoding {
    /// The encoding named by an optional `Content-Encoding` header value:
    /// an absent header means identity; an unsupported token is an
    /// `UnsupportedEncoding` error.
    pub fn from(header: Option<&Vec<u8>>) -> (r: Result<SupportedEncoding, HttpUtilError>)
        ensures
            match header {
                None => r matches Ok(e) && e == SupportedEncoding::Identity,
                Some(v) => match spec_encoding_of_token(v@) {
                    Some(enc) => r matches Ok(e) && e == enc,
                    None => r matches Err(e) && e@ == HttpUtilErrorV::UnsupportedEncoding(
                        unsupported_encoding_msg(v@),
                    ),
                },
            },
    {
        match header {
            None => Ok(SupportedEncoding::Identity),
            Some(v) => match encoding_of_token(v) {
                Some(e) => Ok(e),
                None => Err(unsupported_encoding_error(v)),
            },
        }
    }

    /// All supported encodings.
    pub fn list() -> (r: Vec<SupportedEncoding>)
        ensures
            r@ == seq![
                SupportedEncoding::Gzip,
                SupportedEncoding::Deflate,
                SupportedEncoding::Identity,
            ],
    {
        let mut v: Vec<SupportedEncoding> = Vec::new();
        v.push(SupportedEncoding::Gzip);
        v.push(SupportedEncoding::Deflate);
        v.push(SupportedEncoding::Identity);
        proof {
            assert(v@ =~= seq![
                SupportedEncoding::Gzip,
                SupportedEncoding::Deflate,
                SupportedEncoding::Identity,
            ]);
        }
        v
    }

    /// Accepts exactly the supported tokens (the empty token standing for
    /// identity); any other token is an `UnsupportedEncoding` error whose
    /// detail text names the token.
    pub fn is_supported(v: &str) -> (r: Result<(), HttpUtilError>)
        ensures
            r is Ok <==> spec_supported_token(encode_utf8(v@)),
            r matches Err(e) ==> e@ == HttpUtilErrorV::UnsupportedEncoding(
                unsupported_encoding_msg(encode_utf8(v@)),
            ),
    {
        let bytes = string_to_bytes(v);
        match encoding_of_token(&bytes) {
            Some(_) => Ok(()),
            None => Err(unsupported_encoding_error(&bytes)),
        }
    }
}

// ------------------------------------------------------------------
// The Accept-Encoding admission check.
// ------------------------------------------------------------------

/// The index of the first comma, or the length when there is none.
pub open spec fn first_comma(v: Seq<u8>) -> int
    decreases v.len(),
{
    if v.len() == 0 {
        0
    } else if v[0] == 44 {
        0
    } else {
        1 + first_comma(v.drop_first())
    }
}

/// The first comma is at or before the end.
pub proof fn lemma_first_comma_le(v: Seq<u8>)
    ensures
        0 <= first_comma(v) <= v.len(),
    decreases v.len(),
{
    if v.len() > 0 && v[0] != 44 {
        lemma_first_comma_le(v.drop_first());
    }
}

/// Pins `first_comma` down from a scan: no comma before `m`, and `m` is the
/// end or a comma.
pub proof fn lemma_first_comma_at(v: Seq<u8>, m: int)
    requires
        0 <= m <= v.len(),
        forall|k: int| 0 <= k < m ==> v[k] != 44,
        m == v.len() || v[m] == 44,
    ensures
        first_comma(v) == m,
    decreases v.len(),
{
    if v.len() > 0 && m > 0 {
        assert forall|k: int| 0 <= k < m - 1 implies v.drop_first()[k] != 44 by {
            assert(v.drop_first()[k] == v[k + 1]);
        }
        if m < v.len() {
            assert(v.drop_first()[m - 1] == v[m]);
        }
        lemma_first_comma_at(v.drop_first(), m - 1);
    }
}

/// Keeps the non-space bytes: the tokens are compared with spaces removed.
pub open spec fn not_space() -> spec_fn(u8) -> bool {
    |b: u8| b != 32
}

/// A token with all spaces removed.
pub open spec fn strip_spaces(v: Seq<u8>) -> Seq<u8> {
    v.filter(not_space())
}

/// Every comma-separated token of the value, spaces removed, names a
/// supported coding.
pub open spec fn spec_tokens_ok(v: Seq<u8>) -> bool
    decreases v.len(),
    via spec_tokens_ok_decreases
{
    let i = first_comma(v);
    if i == v.len() {
        spec_supported_token(strip_spaces(v))
    } else {
        spec_supported_token(strip_spaces(v.take(i))) && spec_tokens_ok(v.skip(i + 1))
    }
}

#[via_fn]
proof fn spec_tokens_ok_decreases(v: Seq<u8>) {
    lemma_first_comma_le(v);
}

/// The first comma-separated token of the value (spaces removed) that
/// names no supported coding; meaningful only where [`spec_tokens_ok`]
/// fails.
pub open spec fn spec_first_bad_token(v: Seq<u8>) -> Seq<u8>
    decreases v.len(),
    via spec_first_bad_token_decreases
{
    let i = first_comma(v);
    if i == v.len() {
        strip_spaces(v)
    } else if !spec_supported_token(strip_spaces(v.take(i))) {
        strip_spaces(v.take(i))
    } else {
        spec_first_bad_token(v.skip(i + 1))
    }
}

#[via_fn]
proof fn spec_first_bad_token_decreases(v: Seq<u8>) {
    lemma_first_comma_le(v);
}

/// The name of the `Accept-Encoding` header.
pub open spec fn accept_encoding_name() -> Seq<u8> {
    encode_utf8("accept-encoding"@)
}

/// Whether the collection's advertised acceptable encodings (if any) can
/// all be round-tripped by the engine.
pub open spec fn spec_check_encoding(hs: Seq<HeaderV>) -> bool {
    match spec_find_header(hs, accept_encoding_name()) {
        Some(v) => spec_tokens_ok(v),
        None => true,
    }
}

/// Collects the non-space bytes of `v[from..to]`.
fn strip_spaces_range(v: &Vec<u8>, from: usize, to: usize) -> (r: Vec<u8>)
    requires
        from <= to <= v@.len(),
    ensures
        r@ == strip_spaces(v@.subrange(from as int, to as int)),
{
    let mut r: Vec<u8> = Vec::new();
    proof {
        reveal(Seq::filter);
        assert(v@.subrange(from as int, from as int).filter(not_space())
            =~= Seq::<u8>::empty());
    }
    for k in from..to
        invariant
            from <= k <= to <= v@.len(),
            r@ == v@.subrange(from as int, k as int).filter(not_space()),
    {
        proof {
            reveal(Seq::filter);
            assert(v@.subrange(from as int, k + 1).drop_last() =~= v@.subrange(
                from as int,
                k as int,
            ));
            assert(v@.subrange(from as int, k + 1).last() == v@[k as int]);
        }
        if v[k] != 32 {
            r.push(v[k]);
        }
    }
    r
}

/// Validates an inbound request's `Accept-Encoding` header: splits its
/// value on commas, strips spaces, and accepts exactly when every token is
/// a supported coding (an absent header is accepted).  The rejection's
/// detail text names the first unsupported token.
pub fn check_encoding(hs: &Vec<Header>) -> (r: Result<(), HttpUtilError>)
    ensures
        r is Ok <==> spec_check_encoding(hs.deep_view()),
        r matches Err(e) ==> (spec_find_header(hs.deep_view(), accept_encoding_name())
            matches Some(v) && e@ == HttpUtilErrorV::UnsupportedEncoding(
            unsupported_encoding_msg(spec_first_bad_token(v)),
        )),
{
    let name = string_to_bytes("accept-encoding");
    let value = match find_header(hs, &name) {
        None => {
            return Ok(());
        },
        Some(v) => v,
    };
    let mut pos: usize = 0;
    proof {
        assert(value@.skip(0) =~= value@);
    }
    loop
        invariant
            pos <= value@.len(),
            spec_find_header(hs.deep_view(), accept_encoding_name()) == Some(value@),
            spec_check_encoding(hs.deep_view()) <==> spec_tokens_ok(value@.skip(pos as int)),
            !spec_tokens_ok(value@.skip(pos as int)) ==> spec_first_bad_token(value@)
                == spec_first_bad_token(value@.skip(pos as int)),
        decreases value@.len() - pos,
    {
        let ghost seg = value@.skip(pos as int);
        // Scan for the end of this token.
        let mut j = pos;
        while j < value.len() && value[j] != 44
            invariant
                pos <= j <= value@.len(),
                forall|k: int| pos <= k < j ==> value@[k] != 44,
            decreases value@.len() - j,
        {
            j = j + 1;
        }
        proof {
            assert forall|k: int| 0 <= k < j - pos implies seg[k] != 44 by {
                assert(seg[k] == value@[pos + k]);
            }
            if j < value@.len() {
                assert(seg[j - pos] == value@[j as int]);
            }
            lemma_first_comma_at(seg, j - pos);
            assert(seg.take(j - pos) =~= value@.subrange(pos as int, j as int));
        }
        let token = strip_spaces_range(&value, pos, j);
        if encoding_of_token(&token).is_none() {
            proof {
                if j == value@.len() {
                    assert(seg.take(j - pos) =~= seg);
                }
                assert(!spec_tokens_ok(seg));
                assert(spec_first_bad_token(seg) == token@);
                assert(spec_first_bad_token(value@) == token@);
            }
            return Err(unsupported_encoding_error(&token));
        }
        if j == value.len() {
            proof {
                assert(seg.take(j - pos) =~= seg);
            }
            return Ok(());
        }
        proof {
            assert(seg.skip(j - pos + 1) =~= value@.skip(j + 1));
        }
        pos = j + 1;
    }
}

// ------------------------------------------------------------------
// The transcoder proper.
// ------------------------------------------------------------------

/// What a gzip payload decodes to, `None` where gzip decoding fails.
pub uninterp spec fn gzip_plain_of(b: Seq<u8>) -> Option<Seq<u8>>;

/// What a raw-deflate payload decodes to, `None` where decoding fails.
pub uninterp spec fn deflate_plain_of(b: Seq<u8>) -> Option<Seq<u8>>;

/// What an encoded payload decodes to under the given coding.
pub open spec fn spec_plain_of(e: SupportedEncoding, b: Seq<u8>) -> Option<Seq<u8>> {
    match e {
        SupportedEncoding::Gzip => gzip_plain_of(b),
        SupportedEncoding::Deflate => deflate_plain_of(b),
        SupportedEncoding::Identity => Some(b),
    }
}

/// The gzip bytes the compression library produces for a plaintext
/// payload at the engine's fixed (highest) level.
pub uninterp spec fn gzip_coded_of(b: Seq<u8>) -> Seq<u8>;

/// The raw-deflate bytes the compression library produces for a
/// plaintext payload at the engine's fixed (highest) level.
pub uninterp spec fn deflate_coded_of(b: Seq<u8>) -> Seq<u8>;

/// The bytes a plaintext payload encodes to under the given coding.
pub open spec fn spec_coded_of(e: SupportedEncoding, b: Seq<u8>) -> Seq<u8> {
    match e {
        SupportedEncoding::Gzip => gzip_coded_of(b),
        SupportedEncoding::Deflate => deflate_coded_of(b),
        SupportedEncoding::Identity => b,
    }
}

/// Relies on flate2's `read::GzDecoder`: gzip decoding is a deterministic
/// function of the input bytes, failing exactly where the input is not a
/// well-formed gzip stream.
#[verifier::external_body]
fn gzip_decode_bytes(input: &Vec<u8>) -> (r: Option<Vec<u8>>)
    ensures
        r matches Some(v) ==> gzip_plain_of(input@) == Some(v@),
        r is Some <==> gzip_plain_of(input@) is Some,
{
    let mut d = flate2::read::GzDecoder::new(input.as_slice());
    let mut out = Vec::new();
    match std::io::Read::read_to_end(&mut d, &mut out) {
        Ok(_) => Some(out),
        Err(_) => None,
    }
}

/// Relies on flate2's `read::DeflateDecoder`: raw-deflate decoding is a
/// deterministic function of the input bytes, failing exactly where the
/// input is not a well-formed deflate stream.
#[verifier::external_body]
fn deflate_decode_bytes(input: &Vec<u8>) -> (r: Option<Vec<u8>>)
    ensures
        r matches Some(v) ==> deflate_plain_of(input@) == Some(v@),
        r is Some <==> deflate_plain_of(input@) is Some,
{
    let mut d = flate2::read::DeflateDecoder::new(input.as_slice());
    let mut out = Vec::new();
    match std::io::Read::read_to_end(&mut d, &mut out) {
        Ok(_) => Some(out),
        Err(_) => None,
    }
}

/// Relies on flate2's `read::GzEncoder` at a fixed compression level:
/// encoding an in-memory slice cannot fail; the produced bytes are a
/// function of the input alone (the library fixes the header's timestamp
/// and operating-system fields for reproducible streams); and compression
/// is lossless, so those bytes decode back to the input.
#[verifier::external_body]
fn gzip_encode_bytes(input: &Vec<u8>) -> (r: Option<Vec<u8>>)
    ensures
        r is Some,
        r matches Some(v) ==> v@ == gzip_coded_of(input@) && gzip_plain_of(v@) == Some(input@),
{
    let mut e = flate2::read::GzEncoder::new(input.as_slice(), flate2::Compression::best());
    let mut out = Vec::new();
    match std::io::Read::read_to_end(&mut e, &mut out) {
        Ok(_) => Some(out),
        Err(_) => None,
    }
}

/// Relies on flate2's `read::DeflateEncoder` at a fixed compression
/// level: encoding an in-memory slice cannot fail; the produced raw
/// stream is a function of the input alone; and compression is lossless,
/// so those bytes decode back to the input.
#[verifier::external_body]
fn deflate_encode_bytes(input: &Vec<u8>) -> (r: Option<Vec<u8>>)
    ensures
        r is Some,
        r matches Some(v) ==> v@ == deflate_coded_of(input@) && deflate_plain_of(v@) == Some(
            input@,
        ),
{
    let mut e = flate2::read::DeflateEncoder::new(input.as_slice(), flate2::Compression::best());
    let mut out = Vec::new();
    match std::io::Read::read_to_end(&mut e, &mut out) {
        Ok(_) => Some(out),
        Err(_) => None,
    }
}

/// The detail text of a failed decode.
pub open spec fn decode_failed_msg() -> Seq<char> {
    "failed to decode body"@
}

impl SupportedEncoding {
    /// Decodes an encoded payload: the identity coding returns it
    /// unchanged; gzip and deflate return exactly the bytes the coding's
    /// decoding function gives, and fail (`DecodeError`) exactly where it
    /// is undefined.
    pub fn decode(&self, original: Vec<u8>) -> (r: Result<Vec<u8>, HttpUtilError>)
        ensures
            r matches Ok(v) ==> spec_plain_of(*self, original@) == Some(v@),
            r is Ok <==> spec_plain_of(*self, original@) is Some,
            r matches Err(e) ==> e@ == HttpUtilErrorV::DecodeError(decode_failed_msg()),
    {
        match self {
            SupportedEncoding::Gzip => match gzip_decode_bytes(&original) {
                Some(v) => Ok(v),
                None => Err(HttpUtilError::DecodeError("failed to decode body".to_owned())),
            },
            SupportedEncoding::Deflate => match deflate_decode_bytes(&original) {
                Some(v) => Ok(v),
                None => Err(HttpUtilError::DecodeError("failed to decode body".to_owned())),
            },
            SupportedEncoding::Identity => Ok(original),
        }
    }

    /// Encodes a plaintext payload.  Encoding an in-memory buffer always
    /// succeeds: the result is exactly the coding's encoding function of
    /// the input (the identity coding returns the input unchanged), and
    /// those bytes decode back to the input under the same coding.
    pub fn encode(&self, plain: Vec<u8>) -> (r: Result<Vec<u8>, HttpUtilError>)
        ensures
            r matches Ok(v) && v@ == spec_coded_of(*self, plain@) && spec_plain_of(*self, v@)
                == Some(plain@),
    {
        match self {
            SupportedEncoding::Gzip => match gzip_encode_bytes(&plain) {
                Some(v) => Ok(v),
                None => vstd::pervasive::unreached(),
            },
            SupportedEncoding::Deflate => match deflate_encode_bytes(&plain) {
                Some(v) => Ok(v),
                None => vstd::pervasive::unreached(),
            },
            SupportedEncoding::Identity => Ok(plain),
        }
    }
}

/// Law: under every supported coding, the decoding relation is a function,
/// so the bytes `encode` produces (whose contract says they decode to its
/// input) decode to that input and to nothing else: `decode(e, encode(e,
/// b))` can only return `b`.
pub proof fn lemma_transcode_round_trip(
    e: SupportedEncoding,
    plain: Seq<u8>,
    encoded: Seq<u8>,
)
    requires
        spec_plain_of(e, encoded) == Some(plain),
    ensures
        forall|p: Seq<u8>| spec_plain_of(e, encoded) == Some(p) ==> p == plain,
{
}

} // verus!
