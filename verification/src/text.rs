use vstd::prelude::*;

verus! {

use vstd::string::StrSliceExecFns;
use vstd::utf8::{valid_utf8, decode_utf8, encode_utf8, is_ascii_chars};

/// JSON insignificant whitespace.
pub open spec fn is_ws_byte(b: u8) -> bool {
    b == 32 || b == 9 || b == 10 || b == 13
}

/// The bytes allowed in an HTTP header field name: the token characters.
pub open spec fn is_header_name_byte(b: u8) -> bool {
    (48 <= b <= 57) || (65 <= b <= 90) || (97 <= b <= 122) || b == 33 || b == 35 || b == 36 || b
        == 37 || b == 38 || b == 39 || b == 42 || b == 43 || b == 45 || b == 46 || b == 94 || b
        == 95 || b == 96 || b == 124 || b == 126
}

/// The bytes allowed in an HTTP header field value: horizontal tab, space and
/// the visible ASCII characters.
pub open spec fn is_header_value_byte(b: u8) -> bool {
    b == 9 || (32 <= b <= 126)
}

/// A well-formed header name: a non-empty run of token bytes.
pub open spec fn wf_header_name(n: Seq<u8>) -> bool {
    n.len() > 0 && forall|i: int| 0 <= i < n.len() ==> is_header_name_byte(#[trigger] n[i])
}

/// A well-formed header value: any run (possibly empty) of value bytes.
pub open spec fn wf_header_value(v: Seq<u8>) -> bool {
    forall|i: int| 0 <= i < v.len() ==> is_header_value_byte(#[trigger] v[i])
}

pub fn header_name_byte(b: u8) -> (r: bool)
    ensures
        r == is_header_name_byte(b),
{
    (48 <= b && b <= 57) || (65 <= b && b <= 90) || (97 <= b && b <= 122) || b == 33 || b == 35
        || b == 36 || b == 37 || b == 38 || b == 39 || b == 42 || b == 43 || b == 45 || b == 46
        || b == 94 || b == 95 || b == 96 || b == 124 || b == 126
}

pub fn header_value_byte(b: u8) -> (r: bool)
    ensures
        r == is_header_value_byte(b),
{
    b == 9 || (32 <= b && b <= 126)
}

pub fn check_header_name(n: &Vec<u8>) -> (r: bool)
    ensures
        r == wf_header_name(n@),
{
    if n.len() == 0 {
        return false;
    }
    for i in 0..n.len()
        invariant
            forall|k: int| 0 <= k < i ==> is_header_name_byte(#[trigger] n@[k]),
    {
        if !header_name_byte(n[i]) {
            return false;
        }
    }
    true
}

pub fn check_header_value(v: &Vec<u8>) -> (r: bool)
    ensures
        r == wf_header_value(v@),
{
    for i in 0..v.len()
        invariant
            forall|k: int| 0 <= k < i ==> is_header_value_byte(#[trigger] v@[k]),
    {
        if !header_value_byte(v[i]) {
            return false;
        }
    }
    true
}

/// Each byte read as the ASCII character it stands for.
pub open spec fn ascii_chars_of(b: Seq<u8>) -> Seq<char> {
    b.map_values(|x: u8| x as char)
}

/// Rendering the UTF-8 bytes of ASCII text as characters gives the text
/// back.
pub proof fn lemma_ascii_chars_of_encode(s: Seq<char>)
    requires
        is_ascii_chars(s),
    ensures
        ascii_chars_of(encode_utf8(s)) == s,
{
    vstd::utf8::is_ascii_chars_encode_utf8(s);
    assert forall|i: int| 0 <= i < s.len() implies ascii_chars_of(encode_utf8(s))[i] == s[i] by {
        assert(encode_utf8(s)[i] == s[i] as u8);
        assert((s[i] as u8) as char == s[i]);
    }
    assert(ascii_chars_of(encode_utf8(s)) =~= s);
}

/// Byte-to-character rendering distributes over concatenation.
pub proof fn lemma_ascii_chars_of_app(a: Seq<u8>, b: Seq<u8>)
    ensures
        ascii_chars_of(a + b) == ascii_chars_of(a) + ascii_chars_of(b),
{
    assert forall|i: int| 0 <= i < (a + b).len() implies ascii_chars_of(a + b)[i]
        == (ascii_chars_of(a) + ascii_chars_of(b))[i] by {
        if i < a.len() {
            assert((a + b)[i] == a[i]);
        } else {
            assert((a + b)[i] == b[i - a.len()]);
        }
    }
    assert(ascii_chars_of(a + b) =~= ascii_chars_of(a) + ascii_chars_of(b));
}

/// A byte sequence of ASCII bytes only.
pub open spec fn ascii_bytes(s: Seq<u8>) -> bool {
    forall|i: int| 0 <= i < s.len() ==> #[trigger] s[i] < 128
}

/// Concatenation preserves ASCII byte sequences.
pub proof fn lemma_ascii_app(a: Seq<u8>, b: Seq<u8>)
    requires
        ascii_bytes(a),
        ascii_bytes(b),
    ensures
        ascii_bytes(a + b),
{
    assert forall|i: int| 0 <= i < (a + b).len() implies #[trigger] (a + b)[i] < 128 by {
        if i < a.len() {
            assert((a + b)[i] == a[i]);
        } else {
            assert((a + b)[i] == b[i - a.len()]);
        }
    }
}

/// An all-ASCII byte sequence is valid UTF-8 and decodes byte-for-byte.
pub proof fn lemma_ascii_decode(b: Seq<u8>)
    requires
        forall|i: int| 0 <= i < b.len() ==> #[trigger] b[i] < 128,
    ensures
        valid_utf8(b),
        decode_utf8(b) == ascii_chars_of(b),
        encode_utf8(ascii_chars_of(b)) == b,
{
    let cs = ascii_chars_of(b);
    assert(is_ascii_chars(cs));
    vstd::utf8::is_ascii_chars_encode_utf8(cs);
    assert(encode_utf8(cs) =~= b);
    vstd::utf8::encode_utf8_valid_utf8(cs);
    vstd::utf8::encode_utf8_decode_utf8(cs);
}

/// UTF-8 encoding is injective on character sequences.
pub proof fn lemma_encode_utf8_injective(a: Seq<char>, b: Seq<char>)
    requires
        encode_utf8(a) == encode_utf8(b),
    ensures
        a == b,
{
    vstd::utf8::encode_utf8_decode_utf8(a);
    vstd::utf8::encode_utf8_decode_utf8(b);
}

/// Byte-for-byte equality of two byte vectors.
pub fn bytes_eq(a: &Vec<u8>, b: &Vec<u8>) -> (r: bool)
    ensures
        r == (a@ == b@),
{
    if a.len() != b.len() {
        return false;
    }
    for i in 0..a.len()
        invariant
            a@.len() == b@.len(),
            forall|k: int| 0 <= k < i ==> a@[k] == b@[k],
    {
        if a[i] != b[i] {
            return false;
        }
    }
    proof {
        assert(a@ =~= b@);
    }
    true
}

/// ASCII lower-casing of one byte.
pub open spec fn lower_byte(b: u8) -> u8 {
    if 65 <= b <= 90 {
        (b + 32) as u8
    } else {
        b
    }
}

/// ASCII lower-casing of a byte sequence.
pub open spec fn lower_bytes(s: Seq<u8>) -> Seq<u8> {
    s.map_values(|b: u8| lower_byte(b))
}

/// Equality of two byte vectors up to ASCII case.
pub fn bytes_eq_nocase(a: &Vec<u8>, b: &Vec<u8>) -> (r: bool)
    ensures
        r == (lower_bytes(a@) == lower_bytes(b@)),
{
    if a.len() != b.len() {
        proof {
            assert(lower_bytes(a@).len() != lower_bytes(b@).len());
        }
        return false;
    }
    for i in 0..a.len()
        invariant
            a@.len() == b@.len(),
            forall|k: int| 0 <= k < i ==> lower_byte(a@[k]) == lower_byte(b@[k]),
    {
        let x = a[i];
        let y = b[i];
        let lx = if 65 <= x && x <= 90 {
            x + 32
        } else {
            x
        };
        let ly = if 65 <= y && y <= 90 {
            y + 32
        } else {
            y
        };
        if lx != ly {
            proof {
                assert(lower_bytes(a@)[i as int] != lower_bytes(b@)[i as int]);
            }
            return false;
        }
    }
    proof {
        assert(lower_bytes(a@) =~= lower_bytes(b@));
    }
    true
}

/// Equality of two string slices, decided by their UTF-8 bytes.
pub fn str_eq(a: &str, b: &str) -> (r: bool)
    ensures
        r == (a@ == b@),
{
    let av = a.as_bytes_vec();
    let bv = b.as_bytes_vec();
    let r = bytes_eq(&av, &bv);
    proof {
        if av@ == bv@ {
            lemma_encode_utf8_injective(a@, b@);
        }
    }
    r
}

/// Relies on `String::from_utf8`: returns the UTF-8 decoding of the bytes,
/// and `None` exactly when the bytes are not valid UTF-8.
#[verifier::external_body]
pub(crate) fn bytes_to_string(v: Vec<u8>) -> (r: Option<String>)
    ensures
        r matches Some(s) ==> valid_utf8(v@) && s@ == decode_utf8(v@),
        r is Some <==> valid_utf8(v@),
{
    match String::from_utf8(v) {
        Ok(s) => Some(s),
        Err(_) => None,
    }
}

/// The UTF-8 bytes of a string slice, as an owned vector.
pub fn string_to_bytes(s: &str) -> (r: Vec<u8>)
    ensures
        r@ == encode_utf8(s@),
{
    s.as_bytes_vec()
}

/// The hexadecimal digit (upper case) for a value below 16.
pub open spec fn spec_hex_digit(d: u8) -> u8 {
    if d < 10 {
        (48 + d) as u8
    } else {
        (55 + d) as u8
    }
}

/// The `i`-th nibble (from the most significant end) of a 128-bit value.
pub open spec fn spec_nibble(id: u128, i: int) -> u8 {
    ((id >> ((124 - 4 * i) as u128)) & 0xf) as u8
}

/// The 32 upper-case hexadecimal digits of a 128-bit value.
pub open spec fn spec_u128_hex(id: u128) -> Seq<u8> {
    Seq::new(32, |i: int| spec_hex_digit(spec_nibble(id, i)))
}

fn hex_digit(d: u8) -> (r: u8)
    requires
        d < 16,
    ensures
        r == spec_hex_digit(d),
{
    if d < 10 {
        48 + d
    } else {
        55 + d
    }
}

/// The 32-digit upper-case hexadecimal rendering of a 128-bit identifier.
pub fn u128_hex(id: u128) -> (r: Vec<u8>)
    ensures
        r@ == spec_u128_hex(id),
{
    let mut v: Vec<u8> = Vec::new();
    for i in 0..32usize
        invariant
            v@.len() == i,
            forall|k: int| 0 <= k < i ==> v@[k] == spec_u128_hex(id)[k],
    {
        let sh: u128 = 124 - 4 * (i as u128);
        proof {
            assert(((id >> sh) & 0xf) < 16) by (bit_vector);
        }
        let nib: u8 = ((id >> sh) & 0xf) as u8;
        proof {
            assert(sh == (124 - 4 * (i as int)) as u128);
        }
        v.push(hex_digit(nib));
    }
    proof {
        assert(v@ =~= spec_u128_hex(id));
    }
    v
}

/// Every digit of the hexadecimal rendering is a valid header value byte and
/// a valid header name byte.
pub proof fn lemma_hex_bytes_wf(id: u128)
    ensures
        wf_header_value(spec_u128_hex(id)),
        forall|i: int|
            0 <= i < 32 ==> is_header_name_byte(#[trigger] spec_u128_hex(id)[i]),
{
    assert forall|i: int| 0 <= i < 32 implies is_header_name_byte(#[trigger] spec_u128_hex(id)[i])
        && is_header_value_byte(spec_u128_hex(id)[i]) by {
        let d = spec_nibble(id, i);
        assert(d < 16) by {
            let sh = (124 - 4 * i) as u128;
            assert(((id >> sh) & 0xf) < 16) by (bit_vector);
        }
    }
}

} // verus!
