use vstd::prelude::*;

verus! {

use crate::errors::{HttpUtilError, HttpUtilErrorV};
use crate::text::str_eq;

/// The fixed enumeration of HTTP versions the engine recognizes, represented
/// on the wire as the literals `HTTP/0.9` .. `HTTP/3.0`.
#[derive(Clone, Copy, PartialEq, Eq, Structural, Debug)]
pub enum HttpVersion {
    Http09,
    Http10,
    Http11,
    Http2,
    Http3,
}

/// The detail text of the error returned for an unknown version literal.
pub open spec fn invalid_version_msg() -> Seq<char> {
    "invalid http version"@
}

impl HttpVersion {
    /// The wire literal of this version.
    pub open spec fn spec_literal(self) -> Seq<char> {
        match self {
            HttpVersion::Http09 => "HTTP/0.9"@,
            HttpVersion::Http10 => "HTTP/1.0"@,
            HttpVersion::Http11 => "HTTP/1.1"@,
            HttpVersion::Http2 => "HTTP/2.0"@,
            HttpVersion::Http3 => "HTTP/3.0"@,
        }
    }

    /// The wire literal of this version.
    pub fn as_str(self) -> (r: &'static str)
        ensures
            r@ == self.spec_literal(),
    {
        match self {
            HttpVersion::Http09 => "HTTP/0.9",
            HttpVersion::Http10 => "HTTP/1.0",
            HttpVersion::Http11 => "HTTP/1.1",
            HttpVersion::Http2 => "HTTP/2.0",
            HttpVersion::Http3 => "HTTP/3.0",
        }
    }

    /// The version denoted by `s`, or `InvalidVersion` for any string outside
    /// the fixed enumeration.
    pub fn from_str(s: &str) -> (r: Result<HttpVersion, HttpUtilError>)
        ensures
            match spec_version_of(s@) {
                Some(v) => r matches Ok(x) && x == v,
                None => r matches Err(e) && e@ == HttpUtilErrorV::InvalidVersion(
                    invalid_version_msg(),
                ),
            },
    {
        if str_eq(s, "HTTP/0.9") {
            Ok(HttpVersion::Http09)
        } else if str_eq(s, "HTTP/1.0") {
            Ok(HttpVersion::Http10)
        } else if str_eq(s, "HTTP/1.1") {
            Ok(HttpVersion::Http11)
        } else if str_eq(s, "HTTP/2.0") {
            Ok(HttpVersion::Http2)
        } else if str_eq(s, "HTTP/3.0") {
            Ok(HttpVersion::Http3)
        } else {
            Err(HttpUtilError::InvalidVersion("invalid http version".to_owned()))
        }
    }
}

/// The version a literal denotes, if any.
pub open spec fn spec_version_of(s: Seq<char>) -> Option<HttpVersion> {
    if s == "HTTP/0.9"@ {
        Some(HttpVersion::Http09)
    } else if s == "HTTP/1.0"@ {
        Some(HttpVersion::Http10)
    } else if s == "HTTP/1.1"@ {
        Some(HttpVersion::Http11)
    } else if s == "HTTP/2.0"@ {
        Some(HttpVersion::Http2)
    } else if s == "HTTP/3.0"@ {
        Some(HttpVersion::Http3)
    } else {
        None
    }
}

/// Every version's own literal resolves back to it.
pub proof fn lemma_version_of_literal(v: HttpVersion)
    ensures
        spec_version_of(v.spec_literal()) == Some(v),
{
    reveal_strlit("HTTP/0.9");
    reveal_strlit("HTTP/1.0");
    reveal_strlit("HTTP/1.1");
    reveal_strlit("HTTP/2.0");
    reveal_strlit("HTTP/3.0");
    assert("HTTP/0.9"@[5] == '0');
    assert("HTTP/1.0"@[5] == '1');
    assert("HTTP/1.1"@[5] == '1');
    assert("HTTP/2.0"@[5] == '2');
    assert("HTTP/3.0"@[5] == '3');
    assert("HTTP/1.0"@[7] == '0');
    assert("HTTP/1.1"@[7] == '1');
}

} // verus!
