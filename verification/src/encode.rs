//! DNS query encoding.
//!
//! A query message is a fixed 12-byte header followed by one question:
//! the query name in wire form (each label prefixed by its length, the
//! whole name terminated by a zero byte), then the 16-bit record type and
//! class, big-endian. The transaction id is fixed, the recursion-desired
//! flag is set, and the counts announce exactly one question.

use vstd::prelude::*;

use crate::errors::ProbeError;
use crate::rtype::DnsClass;
use crate::rtype::RecordType;
use crate::rtype::spec_class_code;
use crate::rtype::spec_rtype_code;

verus! {

/// The fixed transaction id every query is stamped with.
pub const QUERY_ID: u16 = 0x1db3;

/// Longest query name, in text form, that still fits the 255-byte wire
/// limit once every label gets its length prefix and the final zero byte.
pub const MAX_NAME_BYTES: usize = 253;

/// Longest single label a name may carry.
pub const MAX_LABEL_BYTES: usize = 63;

/// The byte value of `'.'`, the label separator in text form.
pub const DOT: u8 = 46;

/// Index of the first `'.'` at or after `i`, or the name's length if none.
pub open spec fn label_end(name: Seq<u8>, i: int) -> int
    decreases name.len() - i,
{
    if i < 0 || i >= name.len() {
        name.len() as int
    } else if name[i] == DOT {
        i
    } else {
        label_end(name, i + 1)
    }
}

/// The first dot at or after `i` lies between `i` and the name's end.
pub proof fn lemma_label_end_bounds(name: Seq<u8>, i: int)
    requires
        0 <= i <= name.len(),
    ensures
        i <= label_end(name, i) <= name.len(),
    decreases name.len() - i,
{
    if i < name.len() && name[i] != DOT {
        lemma_label_end_bounds(name, i + 1);
    }
}

/// The suffix of a name starting at `i` splits into labels of 1 to 63
/// bytes each: no empty label (so no leading, trailing or doubled dot)
/// and no over-long label.
pub open spec fn valid_name_from(name: Seq<u8>, i: int) -> bool
    decreases name.len() - i,
    via valid_name_from_decreases
{
    let e = label_end(name, i);
    &&& 1 <= e - i <= MAX_LABEL_BYTES
    &&& (e == name.len() || valid_name_from(name, e + 1))
}

#[via_fn]
proof fn valid_name_from_decreases(name: Seq<u8>, i: int) {
    if 0 <= i <= name.len() {
        lemma_label_end_bounds(name, i);
    }
}

/// A query name the codec can represent: non-empty, well-labelled, and
/// short enough that its wire form stays within 255 bytes.
pub open spec fn valid_query_name(name: Seq<u8>) -> bool {
    name.len() <= MAX_NAME_BYTES && valid_name_from(name, 0)
}

/// Wire form of the name's suffix starting at `i`: every label prefixed
/// by its length, a zero byte after the last label.
pub open spec fn wire_name_from(name: Seq<u8>, i: int) -> Seq<u8>
    decreases name.len() - i,
    via wire_name_from_decreases
{
    let e = label_end(name, i);
    seq![(e - i) as u8] + name.subrange(i, e) + (if e == name.len() {
        seq![0u8]
    } else {
        wire_name_from(name, e + 1)
    })
}

#[via_fn]
proof fn wire_name_from_decreases(name: Seq<u8>, i: int) {
    if 0 <= i <= name.len() {
        lemma_label_end_bounds(name, i);
    }
}

/// Wire form of a whole query name.
pub open spec fn wire_name(name: Seq<u8>) -> Seq<u8> {
    wire_name_from(name, 0)
}

/// A 16-bit value split into its two big-endian bytes.
pub open spec fn be16_bytes(v: u16) -> Seq<u8> {
    seq![(v / 256) as u8, (v % 256) as u8]
}

/// The 12-byte header of every query: fixed id, recursion desired, one
/// question, no other sections.
pub open spec fn spec_query_header() -> Seq<u8> {
    seq![
        (QUERY_ID / 256) as u8,
        (QUERY_ID % 256) as u8,
        1u8,
        0u8,
        0u8,
        1u8,
        0u8,
        0u8,
        0u8,
        0u8,
        0u8,
        0u8,
    ]
}

/// The complete wire form of a query for `name` with the given record
/// type and class.
pub open spec fn spec_query_bytes(name: Seq<u8>, rtype: RecordType, class: DnsClass) -> Seq<u8> {
    spec_query_header() + wire_name(name) + be16_bytes(spec_rtype_code(rtype)) + be16_bytes(
        spec_class_code(class),
    )
}

/// Index of the first dot at or after `i`, or the name's length if none.
fn label_end_at(name: &Vec<u8>, i: usize) -> (e: usize)
    requires
        i <= name@.len(),
    ensures
        e == label_end(name@, i as int),
        i <= e <= name@.len(),
    decreases name@.len() - i,
{
    if i == name.len() {
        i
    } else if name[i] == DOT {
        i
    } else {
        label_end_at(name, i + 1)
    }
}

/// Appends the wire form of the name's suffix starting at `i` to `out`,
/// reporting whether that suffix is well-labelled. On failure `out` is
/// left in a partial state and must be discarded.
fn append_wire_name(name: &Vec<u8>, i: usize, out: &mut Vec<u8>) -> (ok: bool)
    requires
        i <= name@.len(),
        name@.len() <= MAX_NAME_BYTES,
    ensures
        ok == valid_name_from(name@, i as int),
        ok ==> final(out)@ == old(out)@ + wire_name_from(name@, i as int),
    decreases name@.len() - i,
{
    let e = label_end_at(name, i);
    if e == i || e - i > MAX_LABEL_BYTES {
        return false;
    }
    out.push((e - i) as u8);
    let ghost base = out@;
    let mut j: usize = i;
    while j < e
        invariant
            i <= j <= e,
            e <= name@.len(),
            out@ == base + name@.subrange(i as int, j as int),
        decreases e - j,
    {
        out.push(name[j]);
        assert(name@.subrange(i as int, j + 1 as int) =~= name@.subrange(i as int, j as int)
            + seq![name@[j as int]]);
        j += 1;
    }
    if e == name.len() {
        out.push(0u8);
        assert(out@ =~= old(out)@ + wire_name_from(name@, i as int));
        true
    } else {
        let ok = append_wire_name(name, e + 1, out);
        if ok {
            assert(out@ =~= old(out)@ + wire_name_from(name@, i as int));
        }
        ok
    }
}

/// Encodes a query for `name` (in dotted text form, as bytes) with the
/// given record type and class.
///
/// Succeeds exactly on names the wire form can represent; any other name
/// is rejected with `EncodingError`.
pub fn encode_query(name: &Vec<u8>, rtype: RecordType, class: DnsClass) -> (r: Result<
    Vec<u8>,
    ProbeError,
>)
    ensures
        r is Ok <==> valid_query_name(name@),
        (r matches Ok(q) ==> q@ == spec_query_bytes(name@, rtype, class)),
        (r matches Err(e) ==> e == ProbeError::EncodingError),
{
    if name.len() > MAX_NAME_BYTES {
        return Err(ProbeError::EncodingError);
    }
    let mut out: Vec<u8> = Vec::new();
    out.push((QUERY_ID / 256) as u8);
    out.push((QUERY_ID % 256) as u8);
    out.push(1u8);
    out.push(0u8);
    out.push(0u8);
    out.push(1u8);
    out.push(0u8);
    out.push(0u8);
    out.push(0u8);
    out.push(0u8);
    out.push(0u8);
    out.push(0u8);
    assert(out@ =~= spec_query_header());
    if !append_wire_name(name, 0, &mut out) {
        return Err(ProbeError::EncodingError);
    }
    let tc = rtype.code();
    out.push((tc / 256) as u8);
    out.push((tc % 256) as u8);
    let cc = class.code();
    out.push((cc / 256) as u8);
    out.push((cc % 256) as u8);
    assert(out@ =~= spec_query_bytes(name@, rtype, class));
    Ok(out)
}

} // verus!
