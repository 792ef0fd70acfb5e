use vstd::prelude::*;

verus! {

use crate::text::{
    wf_header_name, wf_header_value, lower_bytes, check_header_name, check_header_value,
    bytes_eq_nocase,
};

/// One header field: a (name, value) pair of byte strings.  Name case is
/// kept as received and duplicate names are allowed; the order of a header
/// collection is significant.
#[derive(Debug, PartialEq, Eq)]
pub struct Header {
    pub name: Vec<u8>,
    pub value: Vec<u8>,
}

/// Mathematical image of a [`Header`].
pub struct HeaderV {
    pub name: Seq<u8>,
    pub value: Seq<u8>,
}

impl View for Header {
    type V = HeaderV;

    open spec fn view(&self) -> HeaderV {
        HeaderV { name: self.name@, value: self.value@ }
    }
}

impl DeepView for Header {
    type V = HeaderV;

    open spec fn deep_view(&self) -> HeaderV {
        self.view()
    }
}

/// A well-formed header: a token name and a value of header text bytes.
pub open spec fn wf_header(h: HeaderV) -> bool {
    wf_header_name(h.name) && wf_header_value(h.value)
}

/// All headers of the collection are well-formed.
pub open spec fn wf_headers(hs: Seq<HeaderV>) -> bool {
    forall|i: int| 0 <= i < hs.len() ==> wf_header(#[trigger] hs[i])
}

/// A byte-for-byte copy of a byte vector.
pub fn clone_bytes(v: &Vec<u8>) -> (r: Vec<u8>)
    ensures
        r@ == v@,
{
    let mut r: Vec<u8> = Vec::new();
    for i in 0..v.len()
        invariant
            r@ == v@.take(i as int),
    {
        r.push(v[i]);
        proof {
            assert(r@ =~= v@.take(i + 1));
        }
    }
    proof {
        assert(v@.take(v@.len() as int) =~= v@);
    }
    r
}

/// A field-for-field copy of a header.
pub fn clone_header(h: &Header) -> (r: Header)
    ensures
        r@ == h@,
{
    Header { name: clone_bytes(&h.name), value: clone_bytes(&h.value) }
}

/// An element-for-element copy of a header collection.
pub fn clone_headers(hs: &Vec<Header>) -> (r: Vec<Header>)
    ensures
        r.deep_view() == hs.deep_view(),
{
    let mut r: Vec<Header> = Vec::new();
    for i in 0..hs.len()
        invariant
            r@.len() == i,
            forall|k: int| 0 <= k < i ==> #[trigger] r@[k]@ == hs@[k]@,
    {
        r.push(clone_header(&hs[i]));
    }
    proof {
        assert forall|k: int| 0 <= k < hs@.len() implies r.deep_view()[k] == hs.deep_view()[k] by {
            assert(r@[k]@ == hs@[k]@);
        }
        assert(r.deep_view() =~= hs.deep_view());
    }
    r
}

/// Whether every header of the collection is well-formed.
pub fn check_headers(hs: &Vec<Header>) -> (r: bool)
    ensures
        r == wf_headers(hs.deep_view()),
{
    for i in 0..hs.len()
        invariant
            forall|k: int| 0 <= k < i ==> wf_header(#[trigger] hs.deep_view()[k]),
    {
        proof {
            assert(hs.deep_view()[i as int] == hs@[i as int]@);
        }
        let h = &hs[i];
        if !check_header_name(&h.name) || !check_header_value(&h.value) {
            return false;
        }
    }
    true
}

/// The value of the first header whose name equals `name` up to ASCII case,
/// if any.
pub open spec fn spec_find_header(hs: Seq<HeaderV>, name: Seq<u8>) -> Option<Seq<u8>>
    decreases hs.len(),
{
    if hs.len() == 0 {
        None
    } else if lower_bytes(hs[0].name) == lower_bytes(name) {
        Some(hs[0].value)
    } else {
        spec_find_header(hs.drop_first(), name)
    }
}

/// The value of the first header matching `name` (ASCII case-insensitively).
pub fn find_header(hs: &Vec<Header>, name: &Vec<u8>) -> (r: Option<Vec<u8>>)
    ensures
        match r {
            Some(v) => spec_find_header(hs.deep_view(), name@) == Some(v@),
            None => spec_find_header(hs.deep_view(), name@) is None,
        },
{
    let ghost full = hs.deep_view();
    proof {
        assert(full.skip(0) =~= full);
    }
    for i in 0..hs.len()
        invariant
            spec_find_header(full, name@) == spec_find_header(full.skip(i as int), name@),
            full == hs.deep_view(),
    {
        proof {
            assert(full[i as int] == hs@[i as int]@);
            assert(full.skip(i as int)[0] == full[i as int]);
        }
        if bytes_eq_nocase(&hs[i].name, name) {
            return Some(clone_bytes(&hs[i].value));
        }
        proof {
            assert(full.skip(i as int).drop_first() =~= full.skip(i + 1));
        }
    }
    proof {
        assert(full.skip(full.len() as int).len() == 0);
    }
    None
}

/// Holds of the headers kept by [`spec_drop_headers`]: those whose name
/// differs from `name` up to ASCII case.
pub open spec fn keep_pred(name: Seq<u8>) -> spec_fn(HeaderV) -> bool {
    |h: HeaderV| lower_bytes(h.name) != lower_bytes(name)
}

/// The collection with every header of the given name (up to ASCII case)
/// removed.
pub open spec fn spec_drop_headers(hs: Seq<HeaderV>, name: Seq<u8>) -> Seq<HeaderV> {
    hs.filter(keep_pred(name))
}

/// Removes every header whose name equals `name` up to ASCII case.
pub fn drop_headers(hs: &Vec<Header>, name: &Vec<u8>) -> (r: Vec<Header>)
    ensures
        r.deep_view() == spec_drop_headers(hs.deep_view(), name@),
{
    let mut r: Vec<Header> = Vec::new();
    proof {
        reveal(Seq::filter);
        assert(hs.deep_view().take(0).filter(keep_pred(name@)) =~= Seq::<HeaderV>::empty());
    }
    for i in 0..hs.len()
        invariant
            r.deep_view() == hs.deep_view().take(i as int).filter(keep_pred(name@)),
    {
        let ghost full = hs.deep_view();
        proof {
            reveal(Seq::filter);
            assert(full[i as int] == hs@[i as int]@);
            assert(full.take(i + 1).drop_last() =~= full.take(i as int));
            assert(full.take(i + 1).last() == full[i as int]);
        }
        if !bytes_eq_nocase(&hs[i].name, name) {
            let ghost old_view = r.deep_view();
            r.push(clone_header(&hs[i]));
            proof {
                assert(keep_pred(name@)(full[i as int]));
                assert(full.take(i + 1).filter(keep_pred(name@)) == full.take(i as int).filter(
                    keep_pred(name@),
                ).push(full[i as int]));
                assert forall|k: int| 0 <= k < r@.len() implies r.deep_view()[k] == old_view.push(
                    full[i as int],
                )[k] by {
                    if k < r@.len() - 1 {
                        assert(r.deep_view()[k] == old_view[k]);
                    }
                }
                assert(r.deep_view() =~= old_view.push(full[i as int]));
            }
        } else {
            proof {
                assert(!keep_pred(name@)(full[i as int]));
                assert(full.take(i + 1).filter(keep_pred(name@)) == full.take(i as int).filter(
                    keep_pred(name@),
                ));
            }
        }
    }
    proof {
        assert(hs.deep_view().take(hs.deep_view().len() as int) =~= hs.deep_view());
    }
    r
}

} // verus!
