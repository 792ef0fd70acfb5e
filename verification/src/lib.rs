//! Interception engine for a pausable HTTP forward proxy.
//!
//! The crate models one proxied exchange (a request and its response) as a
//! small state machine.  A canonical, wire-agnostic message form is exchanged
//! with an external control surface as JSON; bodies can be transcoded between
//! `gzip`, `deflate` and `identity` content encodings; every exchange carries
//! a fresh 128-bit correlation identifier.

pub mod body;
pub mod encoding;
pub mod engine;
pub mod errors;
pub mod headers;
pub mod json;
pub mod message;
pub mod pair;
pub mod text;
pub mod version;
