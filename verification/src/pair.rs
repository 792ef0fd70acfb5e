use vstd::prelude::*;

verus! {

use crate::text::{
    string_to_bytes, is_header_name_byte, wf_header_name, wf_header_value, spec_u128_hex,
    lemma_hex_bytes_wf,
};
use crate::headers::{HeaderV, wf_header, wf_headers};
use vstd::utf8::encode_utf8;

/// Relies on `uuid::Uuid::new_v4` and `Uuid::as_u128`: a freshly drawn
/// random 128-bit identifier.  Nothing is promised of a random value;
/// callers treat it as opaque, and distinct calls are expected (but not
/// proved) to collide only with negligible probability.  The call aborts
/// if the operating system's randomness source fails — an environmental
/// failure, like resource exhaustion, that no input can rule out.
#[verifier::external_body]
pub(crate) fn new_pair_id() -> u128 {
    uuid::Uuid::new_v4().as_u128()
}

/// The name of the bookkeeping header that carries the pair identifier in
/// every payload shown to the control surface.
pub open spec fn pair_header_name() -> Seq<u8> {
    encode_utf8("x-pair-id"@)
}

/// The bookkeeping header tagging a payload with its exchange's pair
/// identifier, rendered as 32 upper-case hexadecimal digits.
pub open spec fn pair_header(id: u128) -> HeaderV {
    HeaderV { name: pair_header_name(), value: spec_u128_hex(id) }
}

/// The name of the pair-identifier header.
pub fn pair_header_name_bytes() -> (r: Vec<u8>)
    ensures
        r@ == pair_header_name(),
{
    string_to_bytes("x-pair-id")
}

/// The pair-identifier header is itself well-formed header text.
pub proof fn lemma_pair_header_wf(id: u128)
    ensures
        wf_header_name(pair_header_name()),
        wf_header_value(spec_u128_hex(id)),
{
    reveal_strlit("x-pair-id");
    let cs = "x-pair-id"@;
    assert(vstd::utf8::is_ascii_chars(cs));
    vstd::utf8::is_ascii_chars_encode_utf8(cs);
    let n = pair_header_name();
    assert forall|i: int| 0 <= i < n.len() implies is_header_name_byte(#[trigger] n[i]) by {
        assert(n[i] == cs[i] as u8);
    }
    lemma_hex_bytes_wf(id);
}

/// Tagging a collection with the pair-identifier header keeps it exactly
/// as well-formed as it was: the tag itself is always valid header text.
/// So building a notification fails on the headers only where the wire
/// message's own headers are at fault.
pub proof fn lemma_tagged_wf(hs: Seq<HeaderV>, id: u128)
    ensures
        wf_headers(seq![pair_header(id)] + hs) <==> wf_headers(hs),
{
    lemma_pair_header_wf(id);
    let tagged = seq![pair_header(id)] + hs;
    if wf_headers(hs) {
        assert forall|i: int| 0 <= i < tagged.len() implies wf_header(#[trigger] tagged[i]) by {
            if i == 0 {
                assert(tagged[0] == pair_header(id));
            } else {
                assert(tagged[i] == hs[i - 1]);
            }
        }
    }
    if wf_headers(tagged) {
        assert forall|i: int| 0 <= i < hs.len() implies wf_header(#[trigger] hs[i]) by {
            assert(tagged[i + 1] == hs[i]);
        }
    }
}

} // verus!
