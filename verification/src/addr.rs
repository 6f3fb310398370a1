//! IP addresses as the codec sees them: the raw payload bytes of an `A`
//! or `AAAA` record. Text formatting lives in `fmt`.

use vstd::prelude::*;

verus! {

/// An address extracted from a resource record: four payload bytes for
/// IPv4, sixteen for IPv6. The view is the payload byte sequence; its
/// length tells the family apart.
pub enum IpAddress {
    /// An IPv4 address, as the 4-byte payload of an `A` record.
    V4([u8; 4]),
    /// An IPv6 address, as the 16-byte payload of an `AAAA` record.
    V6([u8; 16]),
}

impl View for IpAddress {
    type V = Seq<u8>;

    open spec fn view(&self) -> Seq<u8> {
        match self {
            IpAddress::V4(b) => b@,
            IpAddress::V6(b) => b@,
        }
    }
}

} // verus!
