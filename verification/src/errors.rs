use vstd::prelude::*;

verus! {

/// The failure taxonomy of the engine.  Every variant carries a
/// human-readable detail text; the dispatcher turns any of these into a
/// synthetic `500` response whose body is that text.
#[derive(Debug)]
pub enum HttpUtilError {
    /// Header JSON was malformed, or a decoded pair is not valid header text.
    HeaderParseError(String),
    /// A header value cannot be represented as UTF-8 header text.
    HeaderEncodeError(String),
    /// A version string outside the fixed enumeration.
    InvalidVersion(String),
    /// A content-coding token outside {gzip, deflate, identity}.
    UnsupportedEncoding(String),
    /// The compression codec failed to decode an otherwise supported coding.
    DecodeError(String),
    /// The compression codec failed to encode an otherwise supported coding.
    EncodeError(String),
    /// Body duplication failed (unreadable stream).
    BodyCopyError(String),
    /// Canonical/wire conversion failed (e.g. a body that is not UTF-8).
    MessageConversionError(String),
    /// The externally supplied edited payload failed to deserialize.
    ModifiedMessageReceiveError(String),
    /// The destination was unreachable or the transport failed.
    UpstreamRequestError(String),
    /// The destination needs a capability this deployment does not support.
    UnsupportedDestinationError(String),
}

/// Mathematical image of [`HttpUtilError`]: the same variants over character
/// sequences.
pub enum HttpUtilErrorV {
    HeaderParseError(Seq<char>),
    HeaderEncodeError(Seq<char>),
    InvalidVersion(Seq<char>),
    UnsupportedEncoding(Seq<char>),
    DecodeError(Seq<char>),
    EncodeError(Seq<char>),
    BodyCopyError(Seq<char>),
    MessageConversionError(Seq<char>),
    ModifiedMessageReceiveError(Seq<char>),
    UpstreamRequestError(Seq<char>),
    UnsupportedDestinationError(Seq<char>),
}

impl HttpUtilErrorV {
    /// The detail text carried by the error.
    pub open spec fn msg(self) -> Seq<char> {
        match self {
            HttpUtilErrorV::HeaderParseError(m) => m,
            HttpUtilErrorV::HeaderEncodeError(m) => m,
            HttpUtilErrorV::InvalidVersion(m) => m,
            HttpUtilErrorV::UnsupportedEncoding(m) => m,
            HttpUtilErrorV::DecodeError(m) => m,
            HttpUtilErrorV::EncodeError(m) => m,
            HttpUtilErrorV::BodyCopyError(m) => m,
            HttpUtilErrorV::MessageConversionError(m) => m,
            HttpUtilErrorV::ModifiedMessageReceiveError(m) => m,
            HttpUtilErrorV::UpstreamRequestError(m) => m,
            HttpUtilErrorV::UnsupportedDestinationError(m) => m,
        }
    }
}

impl View for HttpUtilError {
    type V = HttpUtilErrorV;

    open spec fn view(&self) -> HttpUtilErrorV {
        match self {
            HttpUtilError::HeaderParseError(m) => HttpUtilErrorV::HeaderParseError(m@),
            HttpUtilError::HeaderEncodeError(m) => HttpUtilErrorV::HeaderEncodeError(m@),
            HttpUtilError::InvalidVersion(m) => HttpUtilErrorV::InvalidVersion(m@),
            HttpUtilError::UnsupportedEncoding(m) => HttpUtilErrorV::UnsupportedEncoding(m@),
            HttpUtilError::DecodeError(m) => HttpUtilErrorV::DecodeError(m@),
            HttpUtilError::EncodeError(m) => HttpUtilErrorV::EncodeError(m@),
            HttpUtilError::BodyCopyError(m) => HttpUtilErrorV::BodyCopyError(m@),
            HttpUtilError::MessageConversionError(m) => HttpUtilErrorV::MessageConversionError(
                m@,
            ),
            HttpUtilError::ModifiedMessageReceiveError(m) => {
                HttpUtilErrorV::ModifiedMessageReceiveError(m@)
            },
            HttpUtilError::UpstreamRequestError(m) => HttpUtilErrorV::UpstreamRequestError(m@),
            HttpUtilError::UnsupportedDestinationError(m) => {
                HttpUtilErrorV::UnsupportedDestinationError(m@)
            },
        }
    }
}

impl HttpUtilError {
    /// The detail text carried by the error.
    pub fn message(&self) -> (r: String)
        ensures
            r@ == self@.msg(),
    {
        match self {
            HttpUtilError::HeaderParseError(m) => m.clone(),
            HttpUtilError::HeaderEncodeError(m) => m.clone(),
            HttpUtilError::InvalidVersion(m) => m.clone(),
            HttpUtilError::UnsupportedEncoding(m) => m.clone(),
            HttpUtilError::DecodeError(m) => m.clone(),
            HttpUtilError::EncodeError(m) => m.clone(),
            HttpUtilError::BodyCopyError(m) => m.clone(),
            HttpUtilError::MessageConversionError(m) => m.clone(),
            HttpUtilError::ModifiedMessageReceiveError(m) => m.clone(),
            HttpUtilError::UpstreamRequestError(m) => m.clone(),
            HttpUtilError::UnsupportedDestinationError(m) => m.clone(),
        }
    }
}

} // verus!
