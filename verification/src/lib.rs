//! Discovery of the caller's public-facing IP address.
//!
//! The library holds the verified core of the tool: a DNS message codec
//! (query encoding and response parsing on wire bytes), the decision logic
//! of the DNS and HTTPS probes, and the fallback chain that tries an
//! ordered list of providers until one answers. Sockets and the HTTPS
//! client live outside the library; they hand buffers and status codes in
//! and take plain values back.

pub mod addr;
pub mod chain;
pub mod decode;
pub mod encode;
pub mod errors;
pub mod probe;
pub mod roundtrip;
pub mod rtype;
pub mod text;

pub use errors::AllProbesFailedError;
pub use errors::ProbeError;
