use pubip::decode::decode_response;
use pubip::encode::encode_query;
use pubip::errors::ProbeError;
use pubip::probe::evaluate_dns_response;
use pubip::rtype::DnsClass;
use pubip::rtype::RecordType;

/// Header the codec stamps on every query: fixed id 0x1db3, recursion
/// desired, one question.
const QUERY_HEADER: [u8; 12] = [0x1d, 0xb3, 1, 0, 0, 1, 0, 0, 0, 0, 0, 0];

fn response_with_answer(rtype_hi: u8, rtype_lo: u8, rdata: &[u8]) -> Vec<u8> {
    // Header: id, flags (response, recursion), one question, one answer.
    let mut buf: Vec<u8> = vec![0x1d, 0xb3, 0x81, 0x80, 0, 1, 0, 1, 0, 0, 0, 0];
    // Question: whoami.akamai.net A IN.
    buf.extend_from_slice(b"\x06whoami\x06akamai\x03net\x00");
    buf.extend_from_slice(&[0, 1, 0, 1]);
    // Answer: name as a compression pointer to the question, then type,
    // class IN, a time-to-live, payload length and payload.
    buf.extend_from_slice(&[0xc0, 0x0c]);
    buf.extend_from_slice(&[rtype_hi, rtype_lo, 0, 1]);
    buf.extend_from_slice(&[0, 0, 0, 60]);
    buf.extend_from_slice(&[0, rdata.len() as u8]);
    buf.extend_from_slice(rdata);
    buf
}

#[test]
fn encode_akamai_query_exact_bytes() {
    let name: Vec<u8> = b"whoami.akamai.net".to_vec();
    let q = encode_query(&name, RecordType::A, DnsClass::In).unwrap();
    let mut expected: Vec<u8> = QUERY_HEADER.to_vec();
    expected.extend_from_slice(b"\x06whoami\x06akamai\x03net\x00");
    expected.extend_from_slice(&[0, 1, 0, 1]);
    assert_eq!(q, expected);
}

#[test]
fn encode_any_query_uses_any_code() {
    let name: Vec<u8> = b"o-o.myaddr.l.google.com".to_vec();
    let q = encode_query(&name, RecordType::Any, DnsClass::In).unwrap();
    let mut expected: Vec<u8> = QUERY_HEADER.to_vec();
    expected.extend_from_slice(b"\x03o-o\x06myaddr\x01l\x06google\x03com\x00");
    expected.extend_from_slice(&[0, 255, 0, 1]);
    assert_eq!(q, expected);
}

#[test]
fn encode_rejects_empty_name() {
    let name: Vec<u8> = Vec::new();
    assert_eq!(encode_query(&name, RecordType::A, DnsClass::In), Err(ProbeError::EncodingError));
}

#[test]
fn encode_rejects_empty_label() {
    for bad in ["a..b", ".a", "a."] {
        let name: Vec<u8> = bad.as_bytes().to_vec();
        assert_eq!(
            encode_query(&name, RecordType::A, DnsClass::In),
            Err(ProbeError::EncodingError),
            "name {bad:?} must be rejected"
        );
    }
}

#[test]
fn encode_rejects_over_long_label() {
    let mut name: Vec<u8> = vec![b'a'; 64];
    name.extend_from_slice(b".com");
    assert_eq!(encode_query(&name, RecordType::A, DnsClass::In), Err(ProbeError::EncodingError));
    // 63-byte labels are the longest accepted.
    let mut name: Vec<u8> = vec![b'a'; 63];
    name.extend_from_slice(b".com");
    assert!(encode_query(&name, RecordType::A, DnsClass::In).is_ok());
}

#[test]
fn encode_rejects_over_long_name() {
    // Four 62-byte labels and one of two bytes: 254 bytes of text.
    let mut name: Vec<u8> = Vec::new();
    for _ in 0..4 {
        name.extend_from_slice(&vec![b'a'; 62]);
        name.push(b'.');
    }
    name.extend_from_slice(b"bb");
    assert_eq!(name.len(), 254);
    assert_eq!(encode_query(&name, RecordType::A, DnsClass::In), Err(ProbeError::EncodingError));
    name.truncate(253);
    assert!(encode_query(&name, RecordType::A, DnsClass::In).is_ok());
}

/// The canned response to an encoded query: the query's own question
/// section echoed, one answer whose name points back at the question.
fn response_for_query(query: &[u8], rtype_hi: u8, rtype_lo: u8, rdata: &[u8]) -> Vec<u8> {
    let mut buf: Vec<u8> = vec![query[0], query[1], 0x81, 0x80, 0, 1, 0, 1, 0, 0, 0, 0];
    buf.extend_from_slice(&query[12..]);
    buf.extend_from_slice(&[0xc0, 0x0c]);
    buf.extend_from_slice(&[rtype_hi, rtype_lo, 0, 1]);
    buf.extend_from_slice(&[0, 0, 0, 60]);
    buf.extend_from_slice(&[0, rdata.len() as u8]);
    buf.extend_from_slice(rdata);
    buf
}

#[test]
fn round_trip_a_record() {
    // Encode a query, decode its matching canned response: exactly the
    // encoded IPv4 address comes back out.
    let name: Vec<u8> = b"whoami.akamai.net".to_vec();
    let q = encode_query(&name, RecordType::A, DnsClass::In).unwrap();
    let resp = response_for_query(&q, 0, 1, &[198, 51, 100, 23]);
    assert_eq!(evaluate_dns_response(&resp).unwrap(), "198.51.100.23");
}

#[test]
fn round_trip_aaaa_record() {
    let name: Vec<u8> = b"whoami.akamai.net".to_vec();
    let q = encode_query(&name, RecordType::Aaaa, DnsClass::In).unwrap();
    let rdata = [0x20, 0x01, 0x0d, 0xb8, 0, 0x42, 0, 0, 0, 0, 0, 0, 0, 0, 0xab, 0xcd];
    let resp = response_for_query(&q, 0, 28, &rdata);
    assert_eq!(evaluate_dns_response(&resp).unwrap(), "2001:db8:42::abcd");
}

#[test]
fn record_type_and_class_names() {
    assert_eq!(RecordType::from_name("A"), Some(RecordType::A));
    assert_eq!(RecordType::from_name("AAAA"), Some(RecordType::Aaaa));
    assert_eq!(RecordType::from_name("ANY"), Some(RecordType::Any));
    assert_eq!(RecordType::from_name("TXT"), None);
    assert_eq!(RecordType::from_name(""), None);
    assert_eq!(RecordType::from_name("a"), None);
    assert_eq!(DnsClass::from_name("IN"), Some(DnsClass::In));
    assert_eq!(DnsClass::from_name("CH"), None);
}

#[test]
fn decode_extracts_ipv4_answer() {
    // The canned response to the encoded A query: the encoded address
    // comes back out exactly.
    let buf = response_with_answer(0, 1, &[203, 0, 113, 7]);
    assert_eq!(evaluate_dns_response(&buf).unwrap(), "203.0.113.7");
}

#[test]
fn decode_extracts_ipv6_answer() {
    let rdata = [0x20, 0x01, 0x0d, 0xb8, 0, 0, 0, 0, 0, 0, 0, 0, 0, 0, 0, 1];
    let buf = response_with_answer(0, 28, &rdata);
    assert_eq!(evaluate_dns_response(&buf).unwrap(), "2001:db8::1");
}

#[test]
fn decode_skips_records_without_address() {
    // A TXT record first, then an A record: the TXT record is skipped,
    // not an error.
    let mut buf = response_with_answer(0, 16, b"\x09203.0.113.7");
    buf[7] = 2; // two answer records
    buf.extend_from_slice(&[0xc0, 0x0c, 0, 1, 0, 1, 0, 0, 0, 60, 0, 4, 1, 2, 3, 4]);
    assert_eq!(evaluate_dns_response(&buf).unwrap(), "1.2.3.4");
}

#[test]
fn txt_only_answer_finds_no_address() {
    // The Google-DNS shape: the only answer is a TXT record. The
    // response decodes, yields no address payload, and the probe fails
    // with NoAddressFound. This dead end is expected, not a bug.
    let buf = response_with_answer(0, 16, b"\x09203.0.113.7");
    let resp = decode_response(&buf).unwrap();
    assert_eq!(resp.answer_count(), 1);
    assert!(resp.first_address().is_none());
    assert_eq!(evaluate_dns_response(&buf), Err(ProbeError::NoAddressFound));
}

#[test]
fn wrong_payload_length_is_not_an_address() {
    // An A record whose payload is not 4 bytes carries no address.
    let buf = response_with_answer(0, 1, &[1, 2, 3, 4, 5]);
    assert_eq!(evaluate_dns_response(&buf), Err(ProbeError::NoAddressFound));
}

#[test]
fn decode_rejects_short_header() {
    let buf: Vec<u8> = vec![0x1d, 0xb3, 0x81, 0x80, 0, 1];
    assert_eq!(evaluate_dns_response(&buf), Err(ProbeError::DecodeError));
}

#[test]
fn decode_rejects_truncated_answer() {
    let mut buf = response_with_answer(0, 1, &[1, 2, 3, 4]);
    buf.truncate(buf.len() - 2);
    assert_eq!(evaluate_dns_response(&buf), Err(ProbeError::DecodeError));
}

#[test]
fn decode_rejects_count_beyond_buffer() {
    let mut buf = response_with_answer(0, 1, &[1, 2, 3, 4]);
    buf[7] = 3; // claims three answers; only one is present
    assert_eq!(evaluate_dns_response(&buf), Err(ProbeError::DecodeError));
}
