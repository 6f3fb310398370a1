//! The codec's round-trip law.
//!
//! Encoding and decoding are not literal inverses — one builds a query,
//! the other parses a response — so the law is stated over the standard
//! response shape to a query: the question echoed verbatim, then one
//! answer record whose name is a compression pointer to the question.
//! For every representable query name and every answer payload, decoding
//! that response yields exactly the one encoded record, and when the
//! record is an `A` of four bytes or an `AAAA` of sixteen, the probe's
//! outcome is exactly the text of the encoded address.

use vstd::prelude::*;

use crate::decode::SpecRecord;
use crate::decode::be16;
use crate::decode::skip_name;
use crate::decode::skip_questions;
use crate::decode::parse_records;
use crate::decode::spec_decode;
use crate::decode::spec_first_address;
use crate::decode::spec_address_payload;
use crate::encode::QUERY_ID;
use crate::encode::be16_bytes;
use crate::encode::label_end;
use crate::encode::lemma_label_end_bounds;
use crate::encode::valid_name_from;
use crate::encode::valid_query_name;
use crate::encode::wire_name;
use crate::encode::wire_name_from;
use crate::errors::ProbeError;
use crate::probe::spec_dns_outcome;
use crate::rtype::CLASS_IN;
use crate::rtype::DnsClass;
use crate::rtype::RecordType;
use crate::rtype::TYPE_A;
use crate::rtype::TYPE_AAAA;
use crate::rtype::spec_class_code;
use crate::rtype::spec_rtype_code;
use crate::text::ip_text;

verus! {

/// Header of the canned response: the query's id, response flags with
/// recursion available, one question, one answer.
pub open spec fn spec_response_header() -> Seq<u8> {
    seq![
        (QUERY_ID / 256) as u8,
        (QUERY_ID % 256) as u8,
        0x81u8,
        0x80u8,
        0u8,
        1u8,
        0u8,
        1u8,
        0u8,
        0u8,
        0u8,
        0u8,
    ]
}

/// The standard response to a query for `name`: the question echoed,
/// then one answer record named by a compression pointer to the
/// question, with the given type, class `IN`, a time-to-live, and the
/// given payload.
pub open spec fn spec_response_bytes(
    name: Seq<u8>,
    rtype: RecordType,
    class: DnsClass,
    ans_type: u16,
    rdata: Seq<u8>,
) -> Seq<u8> {
    spec_response_header() + wire_name(name) + be16_bytes(spec_rtype_code(rtype)) + be16_bytes(
        spec_class_code(class),
    ) + seq![192u8, 12u8] + be16_bytes(ans_type) + be16_bytes(CLASS_IN) + seq![0u8, 0u8, 0u8, 60u8]
        + be16_bytes(rdata.len() as u16) + rdata
}

/// The wire form of a valid name suffix is the suffix's text plus one
/// length byte per name and the final zero byte.
proof fn lemma_wire_name_len(name: Seq<u8>, i: int)
    requires
        0 <= i <= name.len(),
        valid_name_from(name, i),
    ensures
        wire_name_from(name, i).len() == name.len() - i + 2,
    decreases name.len() - i,
{
    lemma_label_end_bounds(name, i);
    let e = label_end(name, i);
    if e < name.len() {
        lemma_wire_name_len(name, e + 1);
    }
}

/// Skipping a name in a buffer that holds the wire form of a valid name
/// lands exactly past that wire form.
proof fn lemma_skip_wire_name(buf: Seq<u8>, pos: int, name: Seq<u8>, i: int)
    requires
        0 <= i <= name.len(),
        valid_name_from(name, i),
        0 <= pos,
        pos + wire_name_from(name, i).len() <= buf.len(),
        buf.subrange(pos, pos + wire_name_from(name, i).len()) == wire_name_from(name, i),
    ensures
        skip_name(buf, pos) == Some(pos + wire_name_from(name, i).len()),
    decreases name.len() - i,
{
    lemma_label_end_bounds(name, i);
    let e = label_end(name, i);
    let l = e - i;
    let w = wire_name_from(name, i);
    assert(buf[pos] == w[0]);
    assert(w[0] == l as u8);
    if e == name.len() {
        assert(w.len() == l + 2);
        assert(buf[pos + 1 + l] == w[1 + l]);
        assert(w[1 + l] == 0u8);
        assert(skip_name(buf, pos + 1 + l) == Some(pos + 1 + l + 1));
    } else {
        let rest = wire_name_from(name, e + 1);
        assert(w.len() == 1 + l + rest.len());
        lemma_wire_name_len(name, e + 1);
        assert forall|k: int| 0 <= k < rest.len() implies buf[pos + 1 + l + k] == rest[k] by {
            assert(buf[pos + 1 + l + k] == w[1 + l + k]);
            assert(w[1 + l + k] == rest[k]);
        }
        assert(buf.subrange(pos + 1 + l, pos + 1 + l + rest.len()) =~= rest);
        lemma_skip_wire_name(buf, pos + 1 + l, name, e + 1);
    }
}

/// Decoding the standard response to a query yields exactly the one
/// encoded answer record.
pub proof fn lemma_decode_round_trip(
    name: Seq<u8>,
    rtype: RecordType,
    class: DnsClass,
    ans_type: u16,
    rdata: Seq<u8>,
)
    requires
        valid_query_name(name),
        rdata.len() <= 65535,
    ensures
        spec_decode(spec_response_bytes(name, rtype, class, ans_type, rdata)) == Some(
            seq![SpecRecord { rtype: ans_type, rdata }],
        ),
{
    let buf = spec_response_bytes(name, rtype, class, ans_type, rdata);
    let w = wire_name(name);
    lemma_wire_name_len(name, 0);
    let wl = w.len() as int;
    assert(buf.len() == 12 + wl + 4 + 2 + 2 + 2 + 4 + 2 + rdata.len());

    // The header announces one question and one answer.
    assert(buf[4] == 0u8 && buf[5] == 1u8 && buf[6] == 0u8 && buf[7] == 1u8);
    assert(be16(buf, 4) == 1);
    assert(be16(buf, 6) == 1);

    // The question section: the query name's wire form, then its type
    // and class.
    assert(buf.subrange(12, 12 + wl) =~= w);
    lemma_skip_wire_name(buf, 12, name, 0);
    assert(skip_name(buf, 12) == Some(12 + wl));
    assert(skip_questions(buf, 12 + wl + 4, 0) == Some(12 + wl + 4));
    assert(skip_questions(buf, 12, 1) == Some(12 + wl + 4));

    // The answer record: a compression pointer, type, class,
    // time-to-live, payload length, payload.
    let a = 12 + wl + 4;
    assert(buf[a] == 192u8);
    assert(skip_name(buf, a) == Some(a + 2));
    let p = a + 2;
    assert(buf[p] == (ans_type / 256) as u8 && buf[p + 1] == (ans_type % 256) as u8);
    assert(be16(buf, p) == ans_type) by {
        assert((ans_type / 256) * 256 + (ans_type % 256) == ans_type);
    }
    let n = rdata.len() as u16;
    assert(buf[p + 8] == (n / 256) as u8 && buf[p + 9] == (n % 256) as u8);
    assert(be16(buf, p + 8) == n) by {
        assert((n / 256) * 256 + (n % 256) == n);
    }
    assert forall|k: int| 0 <= k < rdata.len() implies buf[p + 10 + k] == rdata[k] by {
        assert(buf.len() - rdata.len() + k == p + 10 + k);
    }
    assert(buf.subrange(p + 10, p + 10 + rdata.len()) =~= rdata);
    assert(parse_records(buf, p + 10 + rdata.len(), 0) == Some(Seq::<SpecRecord>::empty()));
    assert(parse_records(buf, a, 1) == Some(seq![SpecRecord { rtype: ans_type, rdata }])) by {
        assert(seq![SpecRecord { rtype: ans_type, rdata }] + Seq::<SpecRecord>::empty() =~= seq![
            SpecRecord { rtype: ans_type, rdata },
        ]);
    }
}

/// For both supported record types, the probe's outcome on the standard
/// response is exactly the text of the encoded address: an `A` record's
/// four payload bytes as dotted decimal, an `AAAA` record's sixteen as
/// compressed hex.
pub proof fn lemma_dns_outcome_round_trip(
    name: Seq<u8>,
    rtype: RecordType,
    class: DnsClass,
    ans_type: u16,
    rdata: Seq<u8>,
)
    requires
        valid_query_name(name),
        ans_type == TYPE_A && rdata.len() == 4 || ans_type == TYPE_AAAA && rdata.len() == 16,
    ensures
        spec_dns_outcome(spec_response_bytes(name, rtype, class, ans_type, rdata)) == Ok::<
            Seq<char>,
            ProbeError,
        >(ip_text(rdata)),
{
    lemma_decode_round_trip(name, rtype, class, ans_type, rdata);
    let recs = seq![SpecRecord { rtype: ans_type, rdata }];
    assert(spec_address_payload(recs[0]) == Some(rdata));
    assert(spec_first_address(recs) == Some(rdata));
}

} // verus!
