//! DNS response parsing.
//!
//! A response buffer is validated as a whole message: a 12-byte header
//! whose question and answer counts must be consistent with the buffer's
//! length, the echoed question section, then the answer records. Names
//! inside the message are skipped label by label, with compression
//! pointers accepted as name terminators. The answer section is
//! materialized eagerly as an ordered sequence of record views; each view
//! yields an address payload only for an `A` record of exactly four
//! payload bytes or an `AAAA` record of exactly sixteen — every other
//! record type is silently skipped, never an error.

use vstd::prelude::*;

use crate::addr::IpAddress;
use crate::errors::ProbeError;
use crate::rtype::TYPE_A;
use crate::rtype::TYPE_AAAA;

verus! {

/// The two bytes at `i`, big-endian, as a number.
pub open spec fn be16(buf: Seq<u8>, i: int) -> int
    recommends
        0 <= i,
        i + 2 <= buf.len(),
{
    buf[i] * 256 + buf[i + 1]
}

/// Position just past the wire name starting at `pos`: labels of 1 to 63
/// bytes until a zero byte, or a 2-byte compression pointer, which also
/// terminates the name. `None` if the name runs past the buffer or a
/// length byte is in the reserved range.
pub open spec fn skip_name(buf: Seq<u8>, pos: int) -> Option<int>
    decreases buf.len() - pos,
{
    if pos < 0 || pos >= buf.len() {
        None
    } else {
        let b = buf[pos] as int;
        if b == 0 {
            Some(pos + 1)
        } else if b >= 192 {
            if pos + 2 <= buf.len() {
                Some(pos + 2)
            } else {
                None
            }
        } else if b <= 63 {
            if pos + 1 + b <= buf.len() {
                skip_name(buf, pos + 1 + b)
            } else {
                None
            }
        } else {
            None
        }
    }
}

/// Position just past `n` question entries starting at `pos`: each is a
/// name followed by the 4 bytes of query type and class.
pub open spec fn skip_questions(buf: Seq<u8>, pos: int, n: nat) -> Option<int>
    decreases n,
{
    if n == 0 {
        Some(pos)
    } else {
        match skip_name(buf, pos) {
            None => None,
            Some(p) => if p + 4 <= buf.len() {
                skip_questions(buf, p + 4, (n - 1) as nat)
            } else {
                None
            },
        }
    }
}

/// The mathematical shape of one answer record: its type code and its
/// payload bytes.
pub ghost struct SpecRecord {
    pub rtype: u16,
    pub rdata: Seq<u8>,
}

/// The `n` resource records starting at `pos`: each is a name, then
/// type (2), class (2), time-to-live (4), payload length (2), and that
/// many payload bytes. `None` if any record runs past the buffer.
pub open spec fn parse_records(buf: Seq<u8>, pos: int, n: nat) -> Option<Seq<SpecRecord>>
    decreases n,
{
    if n == 0 {
        Some(Seq::empty())
    } else {
        match skip_name(buf, pos) {
            None => None,
            Some(p) => if p + 10 <= buf.len() {
                let rdlen = be16(buf, p + 8);
                if p + 10 + rdlen <= buf.len() {
                    match parse_records(buf, p + 10 + rdlen, (n - 1) as nat) {
                        None => None,
                        Some(rest) => Some(
                            seq![
                                SpecRecord {
                                    rtype: be16(buf, p) as u16,
                                    rdata: buf.subrange(p + 10, p + 10 + rdlen),
                                },
                            ] + rest,
                        ),
                    }
                } else {
                    None
                }
            } else {
                None
            },
        }
    }
}

/// The answer records of a well-formed response buffer, or `None` if the
/// buffer is not a well-formed message: header too short, or a question
/// or answer count inconsistent with the buffer's length.
pub open spec fn spec_decode(buf: Seq<u8>) -> Option<Seq<SpecRecord>> {
    if buf.len() < 12 {
        None
    } else {
        match skip_questions(buf, 12, be16(buf, 4) as nat) {
            None => None,
            Some(p) => parse_records(buf, p, be16(buf, 6) as nat),
        }
    }
}

/// The address payload of one record: its payload bytes when the record
/// is an `A` of 4 bytes or an `AAAA` of 16 bytes, absent otherwise.
pub open spec fn spec_address_payload(rec: SpecRecord) -> Option<Seq<u8>> {
    if rec.rtype == TYPE_A && rec.rdata.len() == 4 {
        Some(rec.rdata)
    } else if rec.rtype == TYPE_AAAA && rec.rdata.len() == 16 {
        Some(rec.rdata)
    } else {
        None
    }
}

/// The payload of the first record, in wire order, that carries an
/// address; `None` if no record does.
pub open spec fn spec_first_address(recs: Seq<SpecRecord>) -> Option<Seq<u8>>
    decreases recs.len(),
{
    if recs.len() == 0 {
        None
    } else {
        match spec_address_payload(recs[0]) {
            Some(a) => Some(a),
            None => spec_first_address(recs.drop_first()),
        }
    }
}

/// A read-only view over one answer record.
pub struct RecordView {
    /// The record's 16-bit type code as it stands on the wire.
    pub rtype: u16,
    /// The record's payload bytes.
    pub rdata: Vec<u8>,
}

impl View for RecordView {
    type V = SpecRecord;

    open spec fn view(&self) -> SpecRecord {
        SpecRecord { rtype: self.rtype, rdata: self.rdata@ }
    }
}

/// The record views of a sequence, as their mathematical shapes.
pub open spec fn records_seq(s: Seq<RecordView>) -> Seq<SpecRecord> {
    s.map_values(|r: RecordView| r@)
}

/// A decoded response: the answer records, eagerly materialized in wire
/// order.
pub struct ResponseView {
    /// The answer records in the order they stand in the message.
    pub answers: Vec<RecordView>,
}

/// The two bytes at `i`, big-endian.
fn read_u16(buf: &Vec<u8>, i: usize) -> (r: u16)
    requires
        i + 2 <= buf@.len(),
    ensures
        r == be16(buf@, i as int),
{
    // Binding the length as a usize puts i + 1 within bounds.
    let blen = buf.len();
    (buf[i] as u16) * 256 + (buf[i + 1] as u16)
}

/// Position just past the wire name starting at `pos`.
fn skip_name_at(buf: &Vec<u8>, pos: usize) -> (r: Option<usize>)
    ensures
        (match r {
            Some(p) => skip_name(buf@, pos as int) == Some(p as int) && pos < p <= buf@.len(),
            None => skip_name(buf@, pos as int) is None,
        }),
    decreases buf@.len() - pos,
{
    if pos >= buf.len() {
        return None;
    }
    let b = buf[pos];
    if b == 0 {
        Some(pos + 1)
    } else if b >= 192 {
        if buf.len() - pos >= 2 {
            Some(pos + 2)
        } else {
            None
        }
    } else if b <= 63 {
        if buf.len() - pos - 1 >= b as usize {
            skip_name_at(buf, pos + 1 + b as usize)
        } else {
            None
        }
    } else {
        None
    }
}

/// Position just past `n` question entries starting at `pos`.
fn skip_questions_at(buf: &Vec<u8>, pos: usize, n: u16) -> (r: Option<usize>)
    requires
        pos <= buf@.len(),
    ensures
        (match r {
            Some(p) => skip_questions(buf@, pos as int, n as nat) == Some(p as int) && p
                <= buf@.len(),
            None => skip_questions(buf@, pos as int, n as nat) is None,
        }),
    decreases n,
{
    if n == 0 {
        return Some(pos);
    }
    match skip_name_at(buf, pos) {
        None => None,
        Some(p) => {
            if buf.len() - p >= 4 {
                skip_questions_at(buf, p + 4, n - 1)
            } else {
                None
            }
        },
    }
}

/// Appends the `n` records starting at `pos` to `out`, reporting whether
/// all of them fit the buffer. On failure `out` is left in a partial
/// state and must be discarded.
fn parse_records_into(buf: &Vec<u8>, pos: usize, n: u16, out: &mut Vec<RecordView>) -> (ok: bool)
    requires
        pos <= buf@.len(),
    ensures
        ok <==> parse_records(buf@, pos as int, n as nat) is Some,
        ok ==> records_seq(final(out)@) == records_seq(old(out)@) + parse_records(
            buf@,
            pos as int,
            n as nat,
        )->Some_0,
    decreases n,
{
    if n == 0 {
        assert(records_seq(out@) =~= records_seq(out@) + Seq::<SpecRecord>::empty());
        return true;
    }
    match skip_name_at(buf, pos) {
        None => false,
        Some(p) => {
            let blen = buf.len();
            if blen - p < 10 {
                return false;
            }
            let rtype = read_u16(buf, p);
            let rdlen = read_u16(buf, p + 8) as usize;
            if blen - (p + 10) < rdlen {
                return false;
            }
            let end: usize = p + 10 + rdlen;
            let mut rdata: Vec<u8> = Vec::new();
            let mut j: usize = p + 10;
            while j < end
                invariant
                    p + 10 <= j <= end,
                    end == p + 10 + rdlen,
                    end <= buf@.len(),
                    rdata@ == buf@.subrange(p + 10 as int, j as int),
                decreases p + 10 + rdlen - j,
            {
                rdata.push(buf[j]);
                assert(buf@.subrange(p + 10 as int, j + 1 as int) =~= buf@.subrange(
                    p + 10 as int,
                    j as int,
                ) + seq![buf@[j as int]]);
                j += 1;
            }
            let rec = RecordView { rtype, rdata };
            let ghost mid = out@;
            out.push(rec);
            assert(records_seq(out@) =~= records_seq(mid) + seq![
                SpecRecord {
                    rtype: be16(buf@, p as int) as u16,
                    rdata: buf@.subrange(p + 10 as int, p + 10 + rdlen as int),
                },
            ]);
            let ok = parse_records_into(buf, p + 10 + rdlen, n - 1, out);
            if ok {
                assert(records_seq(out@) =~= records_seq(old(out)@) + parse_records(
                    buf@,
                    pos as int,
                    n as nat,
                )->Some_0);
            }
            ok
        },
    }
}

/// Decodes a response buffer into its answer records.
///
/// Succeeds exactly on well-formed messages — header present, question
/// and answer counts consistent with the buffer's length — and fails
/// with `DecodeError` on every other buffer.
pub fn decode_response(buf: &Vec<u8>) -> (r: Result<ResponseView, ProbeError>)
    ensures
        r is Ok <==> spec_decode(buf@) is Some,
        (r matches Ok(resp) ==> Some(records_seq(resp.answers@)) == spec_decode(buf@)),
        (r matches Err(e) ==> e == ProbeError::DecodeError),
{
    if buf.len() < 12 {
        return Err(ProbeError::DecodeError);
    }
    let qd = read_u16(buf, 4);
    let an = read_u16(buf, 6);
    match skip_questions_at(buf, 12, qd) {
        None => Err(ProbeError::DecodeError),
        Some(p) => {
            let mut answers: Vec<RecordView> = Vec::new();
            if parse_records_into(buf, p, an, &mut answers) {
                Ok(ResponseView { answers })
            } else {
                Err(ProbeError::DecodeError)
            }
        },
    }
}

impl RecordView {
    /// The address this record carries, if its type is `A` or `AAAA` and
    /// its payload has the matching length; absent for every other
    /// record type.
    pub fn address_payload(&self) -> (r: Option<IpAddress>)
        ensures
            (match r {
                Some(ip) => spec_address_payload(self@) == Some(ip@),
                None => spec_address_payload(self@) is None,
            }),
    {
        if self.rtype == TYPE_A && self.rdata.len() == 4 {
            let b = [self.rdata[0], self.rdata[1], self.rdata[2], self.rdata[3]];
            assert(b@ =~= self.rdata@);
            Some(IpAddress::V4(b))
        } else if self.rtype == TYPE_AAAA && self.rdata.len() == 16 {
            let b = [
                self.rdata[0],
                self.rdata[1],
                self.rdata[2],
                self.rdata[3],
                self.rdata[4],
                self.rdata[5],
                self.rdata[6],
                self.rdata[7],
                self.rdata[8],
                self.rdata[9],
                self.rdata[10],
                self.rdata[11],
                self.rdata[12],
                self.rdata[13],
                self.rdata[14],
                self.rdata[15],
            ];
            assert(b@ =~= self.rdata@);
            Some(IpAddress::V6(b))
        } else {
            None
        }
    }
}

/// Skipping records whose payload is absent does not change which
/// address comes first.
proof fn lemma_first_address_skip(recs: Seq<SpecRecord>, i: int)
    requires
        0 <= i <= recs.len(),
        forall|j: int| 0 <= j < i ==> spec_address_payload(#[trigger] recs[j]) is None,
    ensures
        spec_first_address(recs) == spec_first_address(recs.skip(i)),
    decreases i,
{
    if i > 0 {
        assert(spec_address_payload(recs[0]) is None);
        assert(recs.drop_first() =~= recs.skip(1));
        lemma_first_address_skip(recs.skip(1), i - 1);
        assert(recs.skip(1).skip(i - 1) =~= recs.skip(i));
    } else {
        assert(recs.skip(0) =~= recs);
    }
}

impl ResponseView {
    /// How many answer records the response carries.
    pub fn answer_count(&self) -> (n: usize)
        ensures
            n == self.answers@.len(),
    {
        self.answers.len()
    }

    /// The first address payload in wire order, or `None` if no answer
    /// record carries one.
    pub fn first_address(&self) -> (r: Option<IpAddress>)
        ensures
            (match r {
                Some(ip) => spec_first_address(records_seq(self.answers@)) == Some(ip@),
                None => spec_first_address(records_seq(self.answers@)) is None,
            }),
    {
        let ghost recs = records_seq(self.answers@);
        let mut i: usize = 0;
        while i < self.answers.len()
            invariant
                0 <= i <= self.answers@.len(),
                recs == records_seq(self.answers@),
                recs.len() == self.answers@.len(),
                forall|j: int| 0 <= j < i ==> spec_address_payload(#[trigger] recs[j]) is None,
            decreases self.answers@.len() - i,
        {
            match self.answers[i].address_payload() {
                Some(ip) => {
                    proof {
                        lemma_first_address_skip(recs, i as int);
                        assert(recs.skip(i as int)[0] == recs[i as int]);
                    }
                    return Some(ip);
                },
                None => {
                },
            }
            i += 1;
        }
        proof {
            lemma_first_address_skip(recs, recs.len() as int);
            assert(recs.skip(recs.len() as int) =~= Seq::<SpecRecord>::empty());
        }
        None
    }
}

} // verus!
