use vstd::prelude::*;

verus! {

use crate::headers::clone_bytes;

/// Duplicates a fully buffered message body: the two returned copies are
/// byte-identical to the original and to each other, so one can be
/// forwarded while the other is rendered for observation.  On an owned
/// buffer duplication cannot fail; reading the body off the wire, which
/// can, happens before this point.
pub fn copy_body(body: Vec<u8>) -> (r: (Vec<u8>, Vec<u8>))
    ensures
        r.0@ == body@,
        r.1@ == body@,
{
    let copy = clone_bytes(&body);
    (body, copy)
}

} // verus!
