use vstd::prelude::*;

verus! {

use crate::errors::{HttpUtilError, HttpUtilErrorV};
use crate::headers::{Header, HeaderV, wf_header, wf_headers, check_headers};
use crate::text::{
    is_ws_byte, is_header_name_byte, is_header_value_byte, wf_header_name, wf_header_value,
    ascii_bytes, ascii_chars_of, lemma_ascii_app, lemma_ascii_decode, bytes_to_string,
    string_to_bytes,
};
use vstd::utf8::encode_utf8;

// ------------------------------------------------------------------
// The JSON object form of a header collection, as a byte grammar.
//
// A collection encodes to a flat object `{"name":"value",...}` in
// collection order, with duplicate names written as duplicate keys.
// Values escape the quote, the backslash and the horizontal tab.
// ------------------------------------------------------------------

/// JSON escape of one header-value byte.
pub open spec fn spec_escape_byte(b: u8) -> Seq<u8> {
    if b == 34 {
        seq![92u8, 34u8]
    } else if b == 92 {
        seq![92u8, 92u8]
    } else if b == 9 {
        seq![92u8, 116u8]
    } else {
        seq![b]
    }
}

/// JSON escape of a header value.
pub open spec fn spec_escape(v: Seq<u8>) -> Seq<u8>
    decreases v.len(),
{
    if v.len() == 0 {
        Seq::empty()
    } else {
        spec_escape_byte(v[0]) + spec_escape(v.drop_first())
    }
}

/// One object member: `"name":"escaped-value"`.
pub open spec fn spec_member(h: HeaderV) -> Seq<u8> {
    seq![34u8] + h.name + seq![34u8, 58u8, 34u8] + spec_escape(h.value) + seq![34u8]
}

/// The members of the object, separated by commas.
pub open spec fn spec_members(hs: Seq<HeaderV>) -> Seq<u8>
    decreases hs.len(),
{
    if hs.len() == 0 {
        Seq::empty()
    } else if hs.len() == 1 {
        spec_member(hs[0])
    } else {
        spec_member(hs[0]) + seq![44u8] + spec_members(hs.drop_first())
    }
}

/// The compact JSON object for a header collection.
pub open spec fn spec_encode_headers(hs: Seq<HeaderV>) -> Seq<u8> {
    seq![123u8] + spec_members(hs) + seq![125u8]
}

/// Escaping distributes over concatenation.
pub proof fn lemma_escape_app(a: Seq<u8>, b: Seq<u8>)
    ensures
        spec_escape(a + b) == spec_escape(a) + spec_escape(b),
    decreases a.len(),
{
    if a.len() == 0 {
        assert(a + b =~= b);
        assert(spec_escape(a) + spec_escape(b) =~= spec_escape(b));
    } else {
        assert((a + b).drop_first() =~= a.drop_first() + b);
        lemma_escape_app(a.drop_first(), b);
        assert(spec_escape_byte((a + b)[0]) + (spec_escape(a.drop_first()) + spec_escape(b))
            =~= (spec_escape_byte(a[0]) + spec_escape(a.drop_first())) + spec_escape(b));
    }
}

/// Appending one member to a collection appends its encoding (after a comma
/// when the collection was not empty).
pub proof fn lemma_members_push(hs: Seq<HeaderV>, h: HeaderV)
    ensures
        hs.len() == 0 ==> spec_members(hs.push(h)) == spec_member(h),
        hs.len() > 0 ==> spec_members(hs.push(h)) == spec_members(hs) + seq![44u8]
            + spec_member(h),
    decreases hs.len(),
{
    if hs.len() == 0 {
        assert(hs.push(h)[0] == h);
        assert(hs.push(h).len() == 1);
    } else if hs.len() == 1 {
        assert(hs.push(h).drop_first() =~= hs.drop_first().push(h));
        lemma_members_push(hs.drop_first(), h);
        assert(spec_members(hs.push(h)) == spec_member(hs[0]) + seq![44u8] + spec_member(h));
        assert(spec_members(hs) == spec_member(hs[0]));
    } else {
        assert(hs.push(h).drop_first() =~= hs.drop_first().push(h));
        lemma_members_push(hs.drop_first(), h);
        assert(spec_member(hs[0]) + seq![44u8] + (spec_members(hs.drop_first()) + seq![44u8]
            + spec_member(h)) =~= (spec_member(hs[0]) + seq![44u8] + spec_members(
            hs.drop_first(),
        )) + seq![44u8] + spec_member(h));
    }
}

// ------------------------------------------------------------------
// The executable encoder.
// ------------------------------------------------------------------

/// Appends `v` to `out`.
fn append_bytes(out: &mut Vec<u8>, v: &Vec<u8>)
    ensures
        final(out)@ == old(out)@ + v@,
{
    let ghost base = out@;
    for j in 0..v.len()
        invariant
            out@ == base + v@.take(j as int),
    {
        out.push(v[j]);
        proof {
            assert(base + v@.take(j as int) + seq![v@[j as int]] =~= base + v@.take(j + 1));
        }
    }
    proof {
        assert(base + v@.take(v@.len() as int) =~= base + v@);
    }
}

/// Appends the JSON escape of `v` to `out`.
fn append_escaped(out: &mut Vec<u8>, v: &Vec<u8>)
    ensures
        final(out)@ == old(out)@ + spec_escape(v@),
{
    let ghost base = out@;
    for j in 0..v.len()
        invariant
            out@ == base + spec_escape(v@.take(j as int)),
    {
        let b = v[j];
        let ghost pre = out@;
        if b == 34 {
            out.push(92);
            out.push(34);
        } else if b == 92 {
            out.push(92);
            out.push(92);
        } else if b == 9 {
            out.push(92);
            out.push(116);
        } else {
            out.push(b);
        }
        proof {
            assert(out@ =~= pre + spec_escape_byte(v@[j as int]));
            assert(v@.take(j + 1) =~= v@.take(j as int) + seq![v@[j as int]]);
            lemma_escape_app(v@.take(j as int), seq![v@[j as int]]);
            assert(seq![v@[j as int]].drop_first() =~= Seq::<u8>::empty());
            assert(spec_escape(Seq::<u8>::empty()) =~= Seq::<u8>::empty());
            assert(spec_escape(seq![v@[j as int]]) =~= spec_escape_byte(v@[j as int]));
            assert(out@ =~= base + spec_escape(v@.take(j + 1)));
        }
    }
    proof {
        assert(v@.take(v@.len() as int) =~= v@);
    }
}

/// The encoded bytes of one member.
fn member_bytes(h: &Header) -> (r: Vec<u8>)
    ensures
        r@ == spec_member(h@),
{
    let mut out: Vec<u8> = Vec::new();
    out.push(34);
    append_bytes(&mut out, &h.name);
    out.push(34);
    out.push(58);
    out.push(34);
    append_escaped(&mut out, &h.value);
    out.push(34);
    proof {
        assert(out@ =~= spec_member(h@));
    }
    out
}

/// The detail text of the error returned when a header cannot be encoded.
pub open spec fn header_encode_msg() -> Seq<char> {
    "header is not representable as json text"@
}

/// Encodes a header collection as the bytes of a flat JSON object, in
/// collection order.  Fails, returning `HeaderEncodeError`, exactly when
/// some header is not well-formed header text.
pub fn encode_header_bytes(hs: &Vec<Header>) -> (r: Result<Vec<u8>, HttpUtilError>)
    ensures
        wf_headers(hs.deep_view()) ==> (r matches Ok(v) && v@ == spec_encode_headers(
            hs.deep_view(),
        )),
        !wf_headers(hs.deep_view()) ==> (r matches Err(e) && e@
            == HttpUtilErrorV::HeaderEncodeError(header_encode_msg())),
{
    if !check_headers(hs) {
        return Err(
            HttpUtilError::HeaderEncodeError("header is not representable as json text".to_owned()),
        );
    }
    let mut out: Vec<u8> = Vec::new();
    out.push(123);
    for i in 0..hs.len()
        invariant
            out@ == seq![123u8] + spec_members(hs.deep_view().take(i as int)),
    {
        let ghost done = hs.deep_view().take(i as int);
        if i > 0 {
            out.push(44);
        }
        let m = member_bytes(&hs[i]);
        append_bytes(&mut out, &m);
        proof {
            assert(hs.deep_view()[i as int] == hs@[i as int]@);
            assert(hs.deep_view().take(i + 1) =~= done.push(hs.deep_view()[i as int]));
            lemma_members_push(done, hs.deep_view()[i as int]);
            if i > 0 {
                assert(out@ =~= seq![123u8] + (spec_members(done) + seq![44u8] + spec_member(
                    hs.deep_view()[i as int],
                )));
            } else {
                assert(done.len() == 0);
                assert(spec_members(done) =~= Seq::<u8>::empty());
                assert(out@ =~= seq![123u8] + spec_member(hs.deep_view()[i as int]));
            }
        }
    }
    out.push(125);
    proof {
        assert(hs.deep_view().take(hs.deep_view().len() as int) =~= hs.deep_view());
        assert(out@ =~= spec_encode_headers(hs.deep_view()));
    }
    Ok(out)
}

/// Encodes a header collection as the text of a flat JSON object, as
/// [`encode_header_bytes`] does; the produced text is ASCII.
pub fn encode_headers(hs: &Vec<Header>) -> (r: Result<String, HttpUtilError>)
    ensures
        wf_headers(hs.deep_view()) ==> (r matches Ok(s) && s@ == ascii_chars_of(
            spec_encode_headers(hs.deep_view()),
        )),
        !wf_headers(hs.deep_view()) ==> (r matches Err(e) && e@
            == HttpUtilErrorV::HeaderEncodeError(header_encode_msg())),
{
    match encode_header_bytes(hs) {
        Err(e) => Err(e),
        Ok(bytes) => {
            proof {
                lemma_encode_headers_ascii(hs.deep_view());
                lemma_ascii_decode(bytes@);
            }
            match bytes_to_string(bytes) {
                Some(s) => Ok(s),
                None => vstd::pervasive::unreached(),
            }
        },
    }
}

// ------------------------------------------------------------------
// The parser, as spec functions over byte sequences.
// ------------------------------------------------------------------

/// The value of one hexadecimal digit, either case.
pub open spec fn spec_hex_nibble(b: u8) -> Option<u8> {
    if 48 <= b <= 57 {
        Some((b - 48) as u8)
    } else if 65 <= b <= 70 {
        Some((b - 55) as u8)
    } else if 97 <= b <= 102 {
        Some((b - 87) as u8)
    } else {
        None
    }
}

/// The byte denoted by a `\uXXXX` escape.  Only code points the
/// byte-level header model can hold (ASCII) denote a byte; larger code
/// points could never be valid header text, so they are refused here.
pub open spec fn spec_u_escape(a: u8, b: u8, c: u8, d: u8) -> Option<u8> {
    match (spec_hex_nibble(a), spec_hex_nibble(b), spec_hex_nibble(c), spec_hex_nibble(d)) {
        (Some(x0), Some(x1), Some(x2), Some(x3)) => if x0 == 0 && x1 == 0 && x2 < 8 {
            Some((x2 * 16 + x3) as u8)
        } else {
            None
        },
        _ => None,
    }
}

/// The byte denoted by a one-character JSON escape, if the escape is known.
pub open spec fn spec_unescape_byte(b: u8) -> Option<u8> {
    if b == 34 {
        Some(34u8)
    } else if b == 92 {
        Some(92u8)
    } else if b == 47 {
        Some(47u8)
    } else if b == 116 {
        Some(9u8)
    } else if b == 110 {
        Some(10u8)
    } else if b == 114 {
        Some(13u8)
    } else if b == 98 {
        Some(8u8)
    } else if b == 102 {
        Some(12u8)
    } else {
        None
    }
}

/// The input with its leading JSON whitespace removed.
pub open spec fn spec_skip_ws(s: Seq<u8>) -> Seq<u8>
    decreases s.len(),
{
    if s.len() > 0 && is_ws_byte(s[0]) {
        spec_skip_ws(s.drop_first())
    } else {
        s
    }
}

/// Parses the rest of a JSON string after its opening quote: the decoded
/// content and the input after the closing quote.  `\uXXXX` escapes are
/// decoded where they denote a byte the header model can hold; raw
/// control bytes and unknown escapes are refused.
pub open spec fn spec_parse_string_body(s: Seq<u8>) -> Option<(Seq<u8>, Seq<u8>)>
    decreases s.len(),
{
    if s.len() == 0 {
        None
    } else if s[0] == 34 {
        Some((Seq::empty(), s.drop_first()))
    } else if s[0] == 92 {
        if s.len() >= 2 && s[1] == 117 {
            if s.len() >= 6 {
                match spec_u_escape(s[2], s[3], s[4], s[5]) {
                    Some(c) => match spec_parse_string_body(s.skip(6)) {
                        Some(p) => Some((seq![c] + p.0, p.1)),
                        None => None,
                    },
                    None => None,
                }
            } else {
                None
            }
        } else if s.len() >= 2 {
            match spec_unescape_byte(s[1]) {
                Some(c) => match spec_parse_string_body(s.skip(2)) {
                    Some(p) => Some((seq![c] + p.0, p.1)),
                    None => None,
                },
                None => None,
            }
        } else {
            None
        }
    } else if s[0] >= 32 {
        match spec_parse_string_body(s.drop_first()) {
            Some(p) => Some((seq![s[0]] + p.0, p.1)),
            None => None,
        }
    } else {
        None
    }
}

/// Parses a JSON string, opening quote included.
pub open spec fn spec_parse_string(s: Seq<u8>) -> Option<(Seq<u8>, Seq<u8>)> {
    if s.len() > 0 && s[0] == 34 {
        spec_parse_string_body(s.drop_first())
    } else {
        None
    }
}

/// What remains after a successful string parse is shorter than the input.
pub proof fn lemma_parse_string_body_len(s: Seq<u8>)
    ensures
        spec_parse_string_body(s) matches Some(p) ==> p.1.len() < s.len(),
    decreases s.len(),
{
    if s.len() == 0 {
    } else if s[0] == 34 {
    } else if s[0] == 92 {
        if s.len() >= 2 && s[1] == 117 {
            if s.len() >= 6 {
                lemma_parse_string_body_len(s.skip(6));
            }
        } else if s.len() >= 2 {
            lemma_parse_string_body_len(s.skip(2));
        }
    } else if s[0] >= 32 {
        lemma_parse_string_body_len(s.drop_first());
    }
}

/// Skipping whitespace never lengthens the input.
pub proof fn lemma_skip_ws_len(s: Seq<u8>)
    ensures
        spec_skip_ws(s).len() <= s.len(),
    decreases s.len(),
{
    if s.len() > 0 && is_ws_byte(s[0]) {
        lemma_skip_ws_len(s.drop_first());
    }
}

/// Parses one or more `"name" : "value"` members separated by commas,
/// stopping before whatever follows the last member.
pub open spec fn spec_parse_members(s: Seq<u8>) -> Option<(Seq<HeaderV>, Seq<u8>)>
    decreases s.len(),
    via spec_parse_members_decreases
{
    let s0 = spec_skip_ws(s);
    match spec_parse_string(s0) {
        None => None,
        Some((name, s1)) => {
            let s2 = spec_skip_ws(s1);
            if s2.len() > 0 && s2[0] == 58 {
                let s3 = spec_skip_ws(s2.drop_first());
                match spec_parse_string(s3) {
                    None => None,
                    Some((value, s4)) => {
                        let s5 = spec_skip_ws(s4);
                        let h = HeaderV { name, value };
                        if s5.len() > 0 && s5[0] == 44 {
                            match spec_parse_members(s5.drop_first()) {
                                Some(p) => Some((seq![h] + p.0, p.1)),
                                None => None,
                            }
                        } else {
                            Some((seq![h], s5))
                        }
                    },
                }
            } else {
                None
            }
        },
    }
}

#[via_fn]
proof fn spec_parse_members_decreases(s: Seq<u8>) {
    lemma_skip_ws_len(s);
    let s0 = spec_skip_ws(s);
    if s0.len() > 0 && s0[0] == 34 {
        lemma_parse_string_body_len(s0.drop_first());
        match spec_parse_string(s0) {
            None => {},
            Some((name, s1)) => {
                lemma_skip_ws_len(s1);
                let s2 = spec_skip_ws(s1);
                if s2.len() > 0 && s2[0] == 58 {
                    lemma_skip_ws_len(s2.drop_first());
                    let s3 = spec_skip_ws(s2.drop_first());
                    if s3.len() > 0 && s3[0] == 34 {
                        lemma_parse_string_body_len(s3.drop_first());
                        match spec_parse_string(s3) {
                            None => {},
                            Some((value, s4)) => {
                                lemma_skip_ws_len(s4);
                            },
                        }
                    }
                }
            },
        }
    }
}

/// Parses a complete flat JSON object of string members, with nothing but
/// whitespace allowed after the closing brace.
pub open spec fn spec_parse_headers(s: Seq<u8>) -> Option<Seq<HeaderV>> {
    let s0 = spec_skip_ws(s);
    if s0.len() > 0 && s0[0] == 123 {
        let s1 = spec_skip_ws(s0.drop_first());
        if s1.len() > 0 && s1[0] == 125 {
            if spec_skip_ws(s1.drop_first()).len() == 0 {
                Some(Seq::empty())
            } else {
                None
            }
        } else {
            match spec_parse_members(s0.drop_first()) {
                Some((hs, rest)) => {
                    if rest.len() > 0 && rest[0] == 125 && spec_skip_ws(rest.drop_first()).len()
                        == 0 {
                        Some(hs)
                    } else {
                        None
                    }
                },
                None => None,
            }
        }
    } else {
        None
    }
}

/// The meaning of a headers JSON payload: the parsed collection, provided
/// every decoded pair is valid header text; `None` otherwise.
pub open spec fn spec_decode_headers(s: Seq<u8>) -> Option<Seq<HeaderV>> {
    match spec_parse_headers(s) {
        Some(hs) => if wf_headers(hs) {
            Some(hs)
        } else {
            None
        },
        None => None,
    }
}

// ------------------------------------------------------------------
// The executable parser.
// ------------------------------------------------------------------

/// The position after the leading whitespace at `start`.
fn skip_ws(s: &Vec<u8>, start: usize) -> (j: usize)
    requires
        start <= s@.len(),
    ensures
        start <= j <= s@.len(),
        s@.skip(j as int) == spec_skip_ws(s@.skip(start as int)),
{
    let mut i = start;
    while i < s.len() && (s[i] == 32 || s[i] == 9 || s[i] == 10 || s[i] == 13)
        invariant
            start <= i <= s@.len(),
            spec_skip_ws(s@.skip(start as int)) == spec_skip_ws(s@.skip(i as int)),
        decreases s@.len() - i,
    {
        proof {
            assert(s@.skip(i as int)[0] == s@[i as int]);
            assert(s@.skip(i as int).drop_first() =~= s@.skip(i + 1));
        }
        i = i + 1;
    }
    proof {
        if i < s@.len() {
            assert(s@.skip(i as int)[0] == s@[i as int]);
        }
        assert(spec_skip_ws(s@.skip(i as int)) == s@.skip(i as int));
    }
    i
}

fn hex_nibble(b: u8) -> (r: Option<u8>)
    ensures
        r == spec_hex_nibble(b),
        r matches Some(n) ==> n < 16,
{
    if 48 <= b && b <= 57 {
        Some(b - 48)
    } else if 65 <= b && b <= 70 {
        Some(b - 55)
    } else if 97 <= b && b <= 102 {
        Some(b - 87)
    } else {
        None
    }
}

fn u_escape(a: u8, b: u8, c: u8, d: u8) -> (r: Option<u8>)
    ensures
        r == spec_u_escape(a, b, c, d),
{
    let x0 = match hex_nibble(a) {
        None => {
            return None;
        },
        Some(n) => n,
    };
    let x1 = match hex_nibble(b) {
        None => {
            return None;
        },
        Some(n) => n,
    };
    let x2 = match hex_nibble(c) {
        None => {
            return None;
        },
        Some(n) => n,
    };
    let x3 = match hex_nibble(d) {
        None => {
            return None;
        },
        Some(n) => n,
    };
    if x0 == 0 && x1 == 0 && x2 < 8 {
        Some(x2 * 16 + x3)
    } else {
        None
    }
}

fn unescape_byte(b: u8) -> (r: Option<u8>)
    ensures
        r == spec_unescape_byte(b),
{
    if b == 34 {
        Some(34)
    } else if b == 92 {
        Some(92)
    } else if b == 47 {
        Some(47)
    } else if b == 116 {
        Some(9)
    } else if b == 110 {
        Some(10)
    } else if b == 114 {
        Some(13)
    } else if b == 98 {
        Some(8)
    } else if b == 102 {
        Some(12)
    } else {
        None
    }
}

/// Parses a JSON string content from `start` (just after the opening
/// quote); returns the decoded bytes and the position after the closing
/// quote.
fn parse_string_body(s: &Vec<u8>, start: usize) -> (r: Option<(Vec<u8>, usize)>)
    requires
        start <= s@.len(),
    ensures
        match r {
            Some(p) => start < p.1 <= s@.len() && spec_parse_string_body(s@.skip(start as int))
                == Some((p.0@, s@.skip(p.1 as int))),
            None => spec_parse_string_body(s@.skip(start as int)) is None,
        },
{
    let mut i = start;
    let mut acc: Vec<u8> = Vec::new();
    loop
        invariant
            start <= i <= s@.len(),
            match spec_parse_string_body(s@.skip(i as int)) {
                Some(p) => spec_parse_string_body(s@.skip(start as int)) == Some(
                    (acc@ + p.0, p.1),
                ),
                None => spec_parse_string_body(s@.skip(start as int)) is None,
            },
        decreases s@.len() - i,
    {
        if i >= s.len() {
            return None;
        }
        let b = s[i];
        proof {
            assert(s@.skip(i as int)[0] == s@[i as int]);
        }
        if b == 34 {
            proof {
                assert(s@.skip(i as int).drop_first() =~= s@.skip(i + 1));
                assert(acc@ + Seq::<u8>::empty() =~= acc@);
            }
            return Some((acc, i + 1));
        } else if b == 92 {
            if i + 1 >= s.len() {
                proof {
                    assert(s@.skip(i as int).len() < 2);
                }
                return None;
            }
            proof {
                assert(s@.skip(i as int)[1] == s@[i + 1]);
            }
            if s[i + 1] == 117 {
                if s.len() - i < 6 {
                    proof {
                        assert(s@.skip(i as int).len() < 6);
                    }
                    return None;
                }
                proof {
                    assert(s@.skip(i as int)[2] == s@[i + 2]);
                    assert(s@.skip(i as int)[3] == s@[i + 3]);
                    assert(s@.skip(i as int)[4] == s@[i + 4]);
                    assert(s@.skip(i as int)[5] == s@[i + 5]);
                    assert(s@.skip(i as int).skip(6) =~= s@.skip(i + 6));
                }
                match u_escape(s[i + 2], s[i + 3], s[i + 4], s[i + 5]) {
                    None => {
                        return None;
                    },
                    Some(c) => {
                        let ghost acc_old = acc@;
                        acc.push(c);
                        proof {
                            if let Some(p) = spec_parse_string_body(s@.skip(i + 6)) {
                                assert(acc_old + (seq![c] + p.0) =~= acc@ + p.0);
                            }
                        }
                        i = i + 6;
                    },
                }
            } else {
                let e = unescape_byte(s[i + 1]);
                proof {
                    assert(s@.skip(i as int).skip(2) =~= s@.skip(i + 2));
                }
                match e {
                    None => {
                        return None;
                    },
                    Some(c) => {
                        let ghost acc_old = acc@;
                        acc.push(c);
                        proof {
                            if let Some(p) = spec_parse_string_body(s@.skip(i + 2)) {
                                assert(acc_old + (seq![c] + p.0) =~= acc@ + p.0);
                            }
                        }
                        i = i + 2;
                    },
                }
            }
        } else if b >= 32 {
            proof {
                assert(s@.skip(i as int).drop_first() =~= s@.skip(i + 1));
            }
            let ghost acc_old = acc@;
            acc.push(b);
            proof {
                if let Some(p) = spec_parse_string_body(s@.skip(i + 1)) {
                    assert(acc_old + (seq![s@[i as int]] + p.0) =~= acc@ + p.0);
                }
            }
            i = i + 1;
        } else {
            return None;
        }
    }
}

/// Parses a JSON string at `start`, opening quote included.
fn parse_string(s: &Vec<u8>, start: usize) -> (r: Option<(Vec<u8>, usize)>)
    requires
        start <= s@.len(),
    ensures
        match r {
            Some(p) => start < p.1 <= s@.len() && spec_parse_string(s@.skip(start as int)) == Some(
                (p.0@, s@.skip(p.1 as int)),
            ),
            None => spec_parse_string(s@.skip(start as int)) is None,
        },
{
    if start < s.len() && s[start] == 34 {
        proof {
            assert(s@.skip(start as int)[0] == s@[start as int]);
            assert(s@.skip(start as int).drop_first() =~= s@.skip(start + 1));
        }
        parse_string_body(s, start + 1)
    } else {
        proof {
            if start < s@.len() {
                assert(s@.skip(start as int)[0] == s@[start as int]);
            }
        }
        None
    }
}

/// Parses one or more members from `start`; returns the headers and the
/// position of whatever follows the last member.
fn parse_members(s: &Vec<u8>, start: usize) -> (r: Option<(Vec<Header>, usize)>)
    requires
        start <= s@.len(),
    ensures
        match r {
            Some(p) => p.1 <= s@.len() && spec_parse_members(s@.skip(start as int)) == Some(
                (p.0.deep_view(), s@.skip(p.1 as int)),
            ),
            None => spec_parse_members(s@.skip(start as int)) is None,
        },
{
    let mut i = start;
    let mut acc: Vec<Header> = Vec::new();
    loop
        invariant
            start <= i <= s@.len(),
            match spec_parse_members(s@.skip(i as int)) {
                Some(p) => spec_parse_members(s@.skip(start as int)) == Some(
                    (acc.deep_view() + p.0, p.1),
                ),
                None => spec_parse_members(s@.skip(start as int)) is None,
            },
        decreases s@.len() - i,
    {
        let j0 = skip_ws(s, i);
        let name = match parse_string(s, j0) {
            None => {
                return None;
            },
            Some(p) => p,
        };
        let j1 = name.1;
        let j2 = skip_ws(s, j1);
        if !(j2 < s.len() && s[j2] == 58) {
            proof {
                if j2 < s@.len() {
                    assert(s@.skip(j2 as int)[0] == s@[j2 as int]);
                }
            }
            return None;
        }
        proof {
            assert(s@.skip(j2 as int)[0] == s@[j2 as int]);
            assert(s@.skip(j2 as int).drop_first() =~= s@.skip(j2 + 1));
        }
        let j3 = skip_ws(s, j2 + 1);
        let value = match parse_string(s, j3) {
            None => {
                return None;
            },
            Some(p) => p,
        };
        let j4 = value.1;
        let j5 = skip_ws(s, j4);
        let h = Header { name: name.0, value: value.0 };
        let ghost hv = h@;
        let ghost acc_old = acc.deep_view();
        acc.push(h);
        proof {
            assert forall|k: int| 0 <= k < acc@.len() implies acc.deep_view()[k] == acc_old.push(
                hv,
            )[k] by {
                if k < acc@.len() - 1 {
                    assert(acc.deep_view()[k] == acc_old[k]);
                }
            }
            assert(acc.deep_view() =~= acc_old.push(hv));
            assert(acc_old.push(hv) =~= acc_old + seq![hv]);
        }
        if j5 < s.len() && s[j5] == 44 {
            proof {
                assert(s@.skip(j5 as int)[0] == s@[j5 as int]);
                assert(s@.skip(j5 as int).drop_first() =~= s@.skip(j5 + 1));
                if let Some(p) = spec_parse_members(s@.skip(j5 + 1)) {
                    assert(acc_old + (seq![hv] + p.0) =~= acc.deep_view() + p.0);
                }
            }
            i = j5 + 1;
        } else {
            proof {
                if j5 < s@.len() {
                    assert(s@.skip(j5 as int)[0] == s@[j5 as int]);
                }
                assert(acc_old + seq![hv] =~= acc.deep_view());
                assert(spec_parse_members(s@.skip(i as int)) == Some(
                    (seq![hv], s@.skip(j5 as int)),
                ));
                assert(acc_old + seq![hv] == acc.deep_view());
            }
            return Some((acc, j5));
        }
    }
}

/// The detail text of the error returned when a headers payload cannot be
/// decoded.
pub open spec fn header_parse_msg() -> Seq<char> {
    "header json is not a flat object of header fields"@
}

fn header_parse_error() -> (r: HttpUtilError)
    ensures
        r@ == HttpUtilErrorV::HeaderParseError(header_parse_msg()),
{
    HttpUtilError::HeaderParseError(
        "header json is not a flat object of header fields".to_owned(),
    )
}

/// Decodes the bytes of a flat JSON object into the ordered header
/// collection it denotes.  Fails, returning `HeaderParseError`, exactly when
/// the payload is not such an object or a decoded pair is not valid header
/// text.
pub fn decode_header_bytes(s: &Vec<u8>) -> (r: Result<Vec<Header>, HttpUtilError>)
    ensures
        match spec_decode_headers(s@) {
            Some(hs) => r matches Ok(v) && v.deep_view() == hs,
            None => r matches Err(e) && e@ == HttpUtilErrorV::HeaderParseError(
                header_parse_msg(),
            ),
        },
{
    proof {
        assert(s@.skip(0) =~= s@);
    }
    let i0 = skip_ws(s, 0);
    if !(i0 < s.len() && s[i0] == 123) {
        proof {
            if i0 < s@.len() {
                assert(s@.skip(i0 as int)[0] == s@[i0 as int]);
            }
        }
        return Err(header_parse_error());
    }
    proof {
        assert(s@.skip(i0 as int)[0] == s@[i0 as int]);
        assert(s@.skip(i0 as int).drop_first() =~= s@.skip(i0 + 1));
    }
    let i1 = skip_ws(s, i0 + 1);
    if i1 < s.len() && s[i1] == 125 {
        proof {
            assert(s@.skip(i1 as int)[0] == s@[i1 as int]);
            assert(s@.skip(i1 as int).drop_first() =~= s@.skip(i1 + 1));
        }
        let j = skip_ws(s, i1 + 1);
        if j == s.len() {
            let v: Vec<Header> = Vec::new();
            proof {
                assert(s@.skip(j as int).len() == 0);
                assert(v.deep_view() =~= Seq::<HeaderV>::empty());
            }
            return Ok(v);
        } else {
            proof {
                assert(s@.skip(j as int).len() > 0);
            }
            return Err(header_parse_error());
        }
    }
    proof {
        if i1 < s@.len() {
            assert(s@.skip(i1 as int)[0] == s@[i1 as int]);
        }
    }
    match parse_members(s, i0 + 1) {
        None => Err(header_parse_error()),
        Some((hs, j)) => {
            if !(j < s.len() && s[j] == 125) {
                proof {
                    if j < s@.len() {
                        assert(s@.skip(j as int)[0] == s@[j as int]);
                    }
                }
                return Err(header_parse_error());
            }
            proof {
                assert(s@.skip(j as int)[0] == s@[j as int]);
                assert(s@.skip(j as int).drop_first() =~= s@.skip(j + 1));
            }
            let k = skip_ws(s, j + 1);
            if k != s.len() {
                proof {
                    assert(s@.skip(k as int).len() > 0);
                }
                return Err(header_parse_error());
            }
            proof {
                assert(s@.skip(k as int).len() == 0);
            }
            if check_headers(&hs) {
                Ok(hs)
            } else {
                Err(header_parse_error())
            }
        },
    }
}

/// Decodes a headers JSON payload, as [`decode_header_bytes`] does, from
/// its textual form.
pub fn decode_headers(json: &str) -> (r: Result<Vec<Header>, HttpUtilError>)
    ensures
        match spec_decode_headers(encode_utf8(json@)) {
            Some(hs) => r matches Ok(v) && v.deep_view() == hs,
            None => r matches Err(e) && e@ == HttpUtilErrorV::HeaderParseError(
                header_parse_msg(),
            ),
        },
{
    let bytes = string_to_bytes(json);
    decode_header_bytes(&bytes)
}

// ------------------------------------------------------------------
// The encoding of well-formed headers is ASCII text.
// ------------------------------------------------------------------

/// The escape of well-formed header text is ASCII.
pub proof fn lemma_escape_ascii(v: Seq<u8>)
    requires
        wf_header_value(v),
    ensures
        ascii_bytes(spec_escape(v)),
    decreases v.len(),
{
    if v.len() == 0 {
    } else {
        let v1 = v.drop_first();
        assert forall|i: int| 0 <= i < v1.len() implies is_header_value_byte(
            #[trigger] v1[i],
        ) by {
            assert(v1[i] == v[i + 1]);
        }
        lemma_escape_ascii(v1);
        assert(is_header_value_byte(v[0]));
        assert(ascii_bytes(spec_escape_byte(v[0])));
        lemma_ascii_app(spec_escape_byte(v[0]), spec_escape(v1));
    }
}

/// One encoded member of a well-formed header is ASCII.
pub proof fn lemma_member_ascii(h: HeaderV)
    requires
        wf_header(h),
    ensures
        ascii_bytes(spec_member(h)),
{
    lemma_escape_ascii(h.value);
    assert(ascii_bytes(seq![34u8]));
    assert(ascii_bytes(seq![34u8, 58u8, 34u8]));
    assert(ascii_bytes(h.name));
    lemma_ascii_app(seq![34u8], h.name);
    lemma_ascii_app(seq![34u8] + h.name, seq![34u8, 58u8, 34u8]);
    lemma_ascii_app(seq![34u8] + h.name + seq![34u8, 58u8, 34u8], spec_escape(h.value));
    lemma_ascii_app(
        seq![34u8] + h.name + seq![34u8, 58u8, 34u8] + spec_escape(h.value),
        seq![34u8],
    );
}

/// The encoded members of well-formed headers are ASCII.
pub proof fn lemma_members_ascii(hs: Seq<HeaderV>)
    requires
        wf_headers(hs),
    ensures
        ascii_bytes(spec_members(hs)),
    decreases hs.len(),
{
    if hs.len() == 0 {
    } else if hs.len() == 1 {
        lemma_member_ascii(hs[0]);
    } else {
        let hs1 = hs.drop_first();
        assert forall|i: int| 0 <= i < hs1.len() implies wf_header(#[trigger] hs1[i]) by {
            assert(hs1[i] == hs[i + 1]);
        }
        lemma_members_ascii(hs1);
        lemma_member_ascii(hs[0]);
        lemma_ascii_app(spec_member(hs[0]), seq![44u8]);
        lemma_ascii_app(spec_member(hs[0]) + seq![44u8], spec_members(hs1));
    }
}

/// The whole encoded object of well-formed headers is ASCII.
pub proof fn lemma_encode_headers_ascii(hs: Seq<HeaderV>)
    requires
        wf_headers(hs),
    ensures
        ascii_bytes(spec_encode_headers(hs)),
{
    lemma_members_ascii(hs);
    lemma_ascii_app(seq![123u8], spec_members(hs));
    lemma_ascii_app(seq![123u8] + spec_members(hs), seq![125u8]);
}

// ------------------------------------------------------------------
// The round trip: decoding an encoded collection returns it unchanged.
// ------------------------------------------------------------------

/// Skipping whitespace leaves an input alone that does not start with any.
pub proof fn lemma_skip_ws_nows(s: Seq<u8>)
    requires
        s.len() == 0 || !is_ws_byte(s[0]),
    ensures
        spec_skip_ws(s) == s,
{
}

/// Escaping leaves a run of header-name bytes unchanged.
pub proof fn lemma_escape_id(v: Seq<u8>)
    requires
        forall|i: int| 0 <= i < v.len() ==> is_header_name_byte(#[trigger] v[i]),
    ensures
        spec_escape(v) == v,
    decreases v.len(),
{
    if v.len() == 0 {
        assert(spec_escape(v) =~= v);
    } else {
        let v1 = v.drop_first();
        assert forall|i: int| 0 <= i < v1.len() implies is_header_name_byte(#[trigger] v1[i]) by {
            assert(v1[i] == v[i + 1]);
        }
        lemma_escape_id(v1);
        assert(spec_escape_byte(v[0]) =~= seq![v[0]]);
        assert(seq![v[0]] + v1 =~= v);
    }
}

/// Header-name bytes are header-value bytes.
pub proof fn lemma_name_is_value(n: Seq<u8>)
    ensures
        (forall|i: int| 0 <= i < n.len() ==> is_header_name_byte(#[trigger] n[i]))
            ==> wf_header_value(n),
{
}

/// Parsing an escaped header value followed by a closing quote yields the
/// value back and stops right after the quote.
pub proof fn lemma_parse_escaped(v: Seq<u8>, rest: Seq<u8>)
    requires
        wf_header_value(v),
    ensures
        spec_parse_string_body(spec_escape(v) + seq![34u8] + rest) == Some((v, rest)),
    decreases v.len(),
{
    let s = spec_escape(v) + seq![34u8] + rest;
    if v.len() == 0 {
        assert(spec_escape(v) =~= Seq::<u8>::empty());
        assert(s =~= seq![34u8] + rest);
        assert(s[0] == 34);
        assert(s.drop_first() =~= rest);
        assert(v =~= Seq::<u8>::empty());
    } else {
        let b = v[0];
        let v1 = v.drop_first();
        assert forall|i: int| 0 <= i < v1.len() implies is_header_value_byte(
            #[trigger] v1[i],
        ) by {
            assert(v1[i] == v[i + 1]);
        }
        lemma_parse_escaped(v1, rest);
        let tail = spec_escape(v1) + seq![34u8] + rest;
        assert(s =~= spec_escape_byte(b) + tail);
        assert(is_header_value_byte(b));
        assert(seq![b] + v1 =~= v);
        if b == 34 {
            assert(s[0] == 92 && s[1] == 34);
            assert(s.len() >= 2);
            assert(s.skip(2) =~= tail);
            assert(spec_unescape_byte(34u8) == Some(34u8));
        } else if b == 92 {
            assert(s[0] == 92 && s[1] == 92);
            assert(s.len() >= 2);
            assert(s.skip(2) =~= tail);
            assert(spec_unescape_byte(92u8) == Some(92u8));
        } else if b == 9 {
            assert(s[0] == 92 && s[1] == 116);
            assert(s.len() >= 2);
            assert(s.skip(2) =~= tail);
            assert(spec_unescape_byte(116u8) == Some(9u8));
        } else {
            assert(spec_escape_byte(b) =~= seq![b]);
            assert(s[0] == b);
            assert(b >= 32 && b != 34 && b != 92);
            assert(s.drop_first() =~= tail);
        }
    }
}

/// Parsing the encoded members of a non-empty collection, followed by the
/// closing brace, yields the collection and stops at the brace.
#[verifier::rlimit(50)]
pub proof fn lemma_members_parse(hs: Seq<HeaderV>)
    requires
        wf_headers(hs),
        hs.len() >= 1,
    ensures
        spec_parse_members(spec_members(hs) + seq![125u8]) == Some((hs, seq![125u8])),
    decreases hs.len(),
{
    let h = hs[0];
    let s = spec_members(hs) + seq![125u8];
    assert(wf_header(h));
    let rest_all: Seq<u8> = if hs.len() == 1 {
        seq![125u8]
    } else {
        seq![44u8] + spec_members(hs.drop_first()) + seq![125u8]
    };
    let r2 = seq![58u8, 34u8] + spec_escape(h.value) + seq![34u8] + rest_all;
    lemma_escape_id(h.name);
    lemma_name_is_value(h.name);
    // The input decomposes along the parse: quote, name, quote, colon,
    // quote, escaped value, quote, then what follows the member.
    assert(s =~= seq![34u8] + (h.name + seq![34u8] + r2));
    assert(s[0] == 34);
    lemma_skip_ws_nows(s);
    assert(s.drop_first() =~= spec_escape(h.name) + seq![34u8] + r2);
    lemma_parse_escaped(h.name, r2);
    assert(spec_parse_string(s) == Some((h.name, r2)));
    assert(r2[0] == 58);
    lemma_skip_ws_nows(r2);
    let r3 = seq![34u8] + (spec_escape(h.value) + seq![34u8] + rest_all);
    assert(r2.drop_first() =~= r3);
    assert(r3[0] == 34);
    lemma_skip_ws_nows(r3);
    assert(r3.drop_first() =~= spec_escape(h.value) + seq![34u8] + rest_all);
    lemma_parse_escaped(h.value, rest_all);
    assert(spec_parse_string(r3) == Some((h.value, rest_all)));
    assert(h == HeaderV { name: h.name, value: h.value });
    if hs.len() == 1 {
        assert(rest_all[0] == 125);
        lemma_skip_ws_nows(rest_all);
        assert(seq![h] =~= hs);
        assert(spec_parse_members(s) == Some((hs, seq![125u8])));
    } else {
        assert(rest_all[0] == 44);
        lemma_skip_ws_nows(rest_all);
        let hs1 = hs.drop_first();
        assert forall|i: int| 0 <= i < hs1.len() implies wf_header(#[trigger] hs1[i]) by {
            assert(hs1[i] == hs[i + 1]);
        }
        lemma_members_parse(hs1);
        assert(rest_all.drop_first() =~= spec_members(hs1) + seq![125u8]);
        assert(seq![h] + hs1 =~= hs);
        assert(spec_parse_members(s) == Some((hs, seq![125u8])));
    }
}

/// THE round trip: a well-formed header collection decodes from its own
/// encoding unchanged — order, case and duplicate names included.
pub proof fn lemma_headers_round_trip(hs: Seq<HeaderV>)
    requires
        wf_headers(hs),
    ensures
        spec_decode_headers(spec_encode_headers(hs)) == Some(hs),
{
    let s = spec_encode_headers(hs);
    assert(s[0] == 123);
    lemma_skip_ws_nows(s);
    if hs.len() == 0 {
        assert(spec_members(hs) =~= Seq::<u8>::empty());
        assert(s =~= seq![123u8, 125u8]);
        assert(s.drop_first() =~= seq![125u8]);
        lemma_skip_ws_nows(seq![125u8]);
        assert(seq![125u8].drop_first() =~= Seq::<u8>::empty());
        assert(spec_skip_ws(Seq::<u8>::empty()).len() == 0);
        assert(hs =~= Seq::<HeaderV>::empty());
    } else {
        let body = spec_members(hs) + seq![125u8];
        assert(s.drop_first() =~= body);
        assert(spec_member(hs[0])[0] == 34);
        assert(spec_members(hs)[0] == 34);
        assert(body[0] == 34);
        lemma_skip_ws_nows(body);
        lemma_members_parse(hs);
        assert(seq![125u8].drop_first() =~= Seq::<u8>::empty());
        assert(spec_skip_ws(Seq::<u8>::empty()).len() == 0);
    }
}

} // verus!
