//! DNS record types and classes, restricted to what the resolver issues
//! and understands: `A` and `AAAA` answers, `ANY` queries, class `IN`.

use vstd::prelude::*;

verus! {

/// Wire code of an `A` record (IPv4 address).
pub const TYPE_A: u16 = 1;

/// Wire code of an `AAAA` record (IPv6 address).
pub const TYPE_AAAA: u16 = 28;

/// Wire code of the `ANY` query type.
pub const TYPE_ANY: u16 = 255;

/// Wire code of the `IN` (internet) class.
pub const CLASS_IN: u16 = 1;

/// A symbolic record type that a query can carry.
#[derive(Clone, Copy, Debug, PartialEq, Eq, Structural)]
pub enum RecordType {
    /// IPv4 host address record.
    A,
    /// IPv6 host address record.
    Aaaa,
    /// Wildcard query matching every record type.
    Any,
}

/// A symbolic query class. Only the internet class is issued.
#[derive(Clone, Copy, Debug, PartialEq, Eq, Structural)]
pub enum DnsClass {
    /// The internet class, wire code 1.
    In,
}

/// Wire code of a symbolic record type.
pub open spec fn spec_rtype_code(t: RecordType) -> u16 {
    match t {
        RecordType::A => TYPE_A,
        RecordType::Aaaa => TYPE_AAAA,
        RecordType::Any => TYPE_ANY,
    }
}

/// Wire code of a symbolic class.
pub open spec fn spec_class_code(c: DnsClass) -> u16 {
    match c {
        DnsClass::In => CLASS_IN,
    }
}

/// The record type a symbolic name stands for: exactly `"A"`, `"AAAA"`
/// and `"ANY"` are recognized.
pub open spec fn spec_rtype_from_name(s: Seq<char>) -> Option<RecordType> {
    if s == "A"@ {
        Some(RecordType::A)
    } else if s == "AAAA"@ {
        Some(RecordType::Aaaa)
    } else if s == "ANY"@ {
        Some(RecordType::Any)
    } else {
        None
    }
}

/// The class a symbolic name stands for: only `"IN"` is recognized.
pub open spec fn spec_class_from_name(s: Seq<char>) -> Option<DnsClass> {
    if s == "IN"@ {
        Some(DnsClass::In)
    } else {
        None
    }
}

/// Whether the text equals the view of `lit`, one character at a time.
fn text_eq(s: &str, lit: &str) -> (r: bool)
    ensures
        r == (s@ == lit@),
{
    let n = s.unicode_len();
    if n != lit.unicode_len() {
        proof {
            assert(s@ != lit@);
        }
        return false;
    }
    let mut i: usize = 0;
    while i < n
        invariant
            0 <= i <= n,
            n == s@.len() == lit@.len(),
            forall|j: int| 0 <= j < i ==> s@[j] == lit@[j],
        decreases n - i,
    {
        if s.get_char(i) != lit.get_char(i) {
            proof {
                assert(s@[i as int] != lit@[i as int]);
            }
            return false;
        }
        i += 1;
    }
    proof {
        assert(s@ =~= lit@);
    }
    true
}

impl RecordType {
    /// The 16-bit code this type has on the wire.
    pub fn code(&self) -> (r: u16)
        ensures
            r == spec_rtype_code(*self),
    {
        match self {
            RecordType::A => TYPE_A,
            RecordType::Aaaa => TYPE_AAAA,
            RecordType::Any => TYPE_ANY,
        }
    }

    /// Translates a symbolic record type name; any unrecognized name is
    /// `None`, which a query encoder turns into an encoding failure.
    pub fn from_name(s: &str) -> (r: Option<RecordType>)
        ensures
            r == spec_rtype_from_name(s@),
    {
        if text_eq(s, "A") {
            Some(RecordType::A)
        } else if text_eq(s, "AAAA") {
            Some(RecordType::Aaaa)
        } else if text_eq(s, "ANY") {
            Some(RecordType::Any)
        } else {
            None
        }
    }
}

impl DnsClass {
    /// The 16-bit code this class has on the wire.
    pub fn code(&self) -> (r: u16)
        ensures
            r == spec_class_code(*self),
    {
        match self {
            DnsClass::In => CLASS_IN,
        }
    }

    /// Translates a symbolic class name; any unrecognized name is
    /// `None`.
    pub fn from_name(s: &str) -> (r: Option<DnsClass>)
        ensures
            r == spec_class_from_name(s@),
    {
        if text_eq(s, "IN") {
            Some(DnsClass::In)
        } else {
            None
        }
    }
}

} // verus!
