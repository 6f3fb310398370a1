//! Error taxonomy of the resolver.
//!
//! Every failure of one probe is one of the `ProbeError` variants; the
//! chain as a whole fails with `AllProbesFailedError` once every probe has
//! failed. No probe error is fatal on its own: the chain swallows it and
//! moves on to the next provider.

use vstd::prelude::*;

verus! {

/// Why a single probe failed.
#[derive(Clone, Copy, Debug, PartialEq, Eq, Structural)]
pub enum ProbeError {
    /// The query name cannot be represented on the wire.
    EncodingError,
    /// The response buffer is not a well-formed DNS message.
    DecodeError,
    /// The upstream server name resolved to no socket address.
    UpstreamUnresolvable,
    /// A local socket could not be bound.
    BindError,
    /// No datagram arrived within the read timeout.
    Timeout,
    /// Any other socket failure.
    IoError,
    /// The response parsed, but no answer record carried an address.
    NoAddressFound,
    /// The HTTPS exchange returned a non-2xx status or failed in transport.
    HttpFailed,
}

/// The whole chain was exhausted without a single success.
///
/// Carries no structured detail: per-probe errors are swallowed by the
/// chain, and the caller surfaces only a generic failure.
#[derive(Clone, Copy, Debug, PartialEq, Eq, Structural)]
pub struct AllProbesFailedError;

} // verus!
