//! Probe descriptors and per-probe decision logic.
//!
//! A probe is a named, immutable unit of work: a provider label plus the
//! parameters of one DNS query or one HTTPS fetch, timeouts included.
//! The chain is built once from these descriptors and never mutated.
//! The runner performs the network exchange and hands the raw outcome —
//! a response buffer, or a status code and body — back to the verified
//! evaluation functions here, which decide what the probe returns.

use vstd::prelude::*;
use vstd::string::StringExecFns;

use crate::decode::decode_response;
use crate::decode::spec_decode;
use crate::decode::spec_first_address;
use crate::errors::ProbeError;
use crate::rtype::RecordType;
use crate::text::ip_text;
use crate::text::ip_string;
use crate::text::trim_str;
use crate::text::trim_text;

verus! {

/// Read timeout of a DNS probe's socket, in milliseconds.
pub const DNS_READ_TIMEOUT_MS: u64 = 5000;

/// Connect, read and write timeout of an HTTPS probe, in milliseconds.
pub const HTTPS_TIMEOUT_MS: u64 = 10000;

/// The kind-specific parameters of one probe.
pub enum ProbeKind {
    /// A raw DNS query over UDP.
    Dns {
        /// Upstream server as `host:port` text.
        upstream: String,
        /// The name the query asks about, in dotted text form.
        query_name: String,
        /// The record type the query asks for.
        record_type: RecordType,
        /// Socket read timeout, in milliseconds.
        read_timeout_ms: u64,
    },
    /// A GET of a fixed URL whose body is the address.
    Https {
        /// The URL fetched.
        url: String,
        /// Connect timeout, in milliseconds.
        connect_timeout_ms: u64,
        /// Read timeout, in milliseconds.
        read_timeout_ms: u64,
        /// Write timeout, in milliseconds.
        write_timeout_ms: u64,
    },
}

/// One named, ordered unit of work in the fallback chain.
pub struct Probe {
    /// Human-readable provider label, reported with a successful answer.
    pub label: String,
    /// What the probe does when it runs.
    pub kind: ProbeKind,
}

/// A DNS probe descriptor with the default read timeout.
fn dns_probe(label: &str, upstream: &str, query_name: &str, record_type: RecordType) -> (p: Probe)
    ensures
        p.label@ == label@,
        (p.kind matches ProbeKind::Dns {
            upstream: u,
            query_name: q,
            record_type: t,
            read_timeout_ms: ms,
        } && u@ == upstream@ && q@ == query_name@ && t == record_type && ms
            == DNS_READ_TIMEOUT_MS),
{
    Probe {
        label: String::from_str(label),
        kind: ProbeKind::Dns {
            upstream: String::from_str(upstream),
            query_name: String::from_str(query_name),
            record_type,
            read_timeout_ms: DNS_READ_TIMEOUT_MS,
        },
    }
}

/// An HTTPS probe descriptor with the default timeouts.
fn https_probe(label: &str, url: &str) -> (p: Probe)
    ensures
        p.label@ == label@,
        (p.kind matches ProbeKind::Https {
            url: u,
            connect_timeout_ms: c,
            read_timeout_ms: r,
            write_timeout_ms: w,
        } && u@ == url@ && c == HTTPS_TIMEOUT_MS && r == HTTPS_TIMEOUT_MS && w
            == HTTPS_TIMEOUT_MS),
{
    Probe {
        label: String::from_str(label),
        kind: ProbeKind::Https {
            url: String::from_str(url),
            connect_timeout_ms: HTTPS_TIMEOUT_MS,
            read_timeout_ms: HTTPS_TIMEOUT_MS,
            write_timeout_ms: HTTPS_TIMEOUT_MS,
        },
    }
}

/// The akamai DNS provider: an `A` query for `whoami.akamai.net`.
pub fn dns_akamai() -> (p: Probe)
    ensures
        p.label@ == "akamai (DNS)"@,
        (p.kind matches ProbeKind::Dns {
            upstream: u,
            query_name: q,
            record_type: t,
            read_timeout_ms: ms,
        } && u@ == "ns1-1.akamaitech.net:53"@ && q@ == "whoami.akamai.net"@ && t == RecordType::A
            && ms == DNS_READ_TIMEOUT_MS),
{
    dns_probe("akamai (DNS)", "ns1-1.akamaitech.net:53", "whoami.akamai.net", RecordType::A)
}

/// The google DNS provider: an `ANY` query for `o-o.myaddr.l.google.com`.
///
/// The upstream answers with a TXT record, which carries no address
/// payload, so this probe is a known dead end: it always ends in
/// `NoAddressFound`. It is kept as a provider all the same rather than
/// silently dropped or patched with guessed TXT semantics.
pub fn dns_google() -> (p: Probe)
    ensures
        p.label@ == "google (DNS)"@,
        (p.kind matches ProbeKind::Dns {
            upstream: u,
            query_name: q,
            record_type: t,
            read_timeout_ms: ms,
        } && u@ == "ns1.google.com:53"@ && q@ == "o-o.myaddr.l.google.com"@ && t == RecordType::Any
            && ms == DNS_READ_TIMEOUT_MS),
{
    dns_probe("google (DNS)", "ns1.google.com:53", "o-o.myaddr.l.google.com", RecordType::Any)
}

/// The ifconfig.co HTTPS provider (answers v4 or v6).
pub fn https_ifconfig_co() -> (p: Probe)
    ensures
        p.label@ == "ifconfig.co (https)"@,
        (p.kind matches ProbeKind::Https { url: u, .. } && u@ == "https://ifconfig.co/ip"@),
{
    https_probe("ifconfig.co (https)", "https://ifconfig.co/ip")
}

/// The ifconfig.me HTTPS provider.
pub fn https_ifconfig_me() -> (p: Probe)
    ensures
        p.label@ == "ifconfig.me (https)"@,
        (p.kind matches ProbeKind::Https { url: u, .. } && u@ == "https://ifconfig.me/ip"@),
{
    https_probe("ifconfig.me (https)", "https://ifconfig.me/ip")
}

/// The icanhazip HTTPS provider.
pub fn https_icanhazip() -> (p: Probe)
    ensures
        p.label@ == "icanhazip (https)"@,
        (p.kind matches ProbeKind::Https { url: u, .. } && u@ == "https://icanhazip.com/"@),
{
    https_probe("icanhazip (https)", "https://icanhazip.com/")
}

/// The IPv4-only icanhazip HTTPS provider.
pub fn https_ipv4_icanhazip() -> (p: Probe)
    ensures
        p.label@ == "icanhazip (ipv4, https)"@,
        (p.kind matches ProbeKind::Https { url: u, .. } && u@ == "https://ipv4.icanhazip.com/"@),
{
    https_probe("icanhazip (ipv4, https)", "https://ipv4.icanhazip.com/")
}

/// What a DNS probe returns once a datagram has arrived: the text of the
/// first address among the answer records, `DecodeError` for a buffer
/// that is not a well-formed message, and `NoAddressFound` for a
/// well-formed response none of whose records carries an address.
pub open spec fn spec_dns_outcome(buf: Seq<u8>) -> Result<Seq<char>, ProbeError> {
    match spec_decode(buf) {
        None => Err(ProbeError::DecodeError),
        Some(recs) => match spec_first_address(recs) {
            None => Err(ProbeError::NoAddressFound),
            Some(bytes) => Ok(ip_text(bytes)),
        },
    }
}

/// Decides a DNS probe from the received datagram: decodes the buffer,
/// walks the answer records in wire order, and returns the text of the
/// first address found, v4 or v6 alike.
pub fn evaluate_dns_response(buf: &Vec<u8>) -> (r: Result<String, ProbeError>)
    ensures
        (r matches Ok(a) ==> spec_dns_outcome(buf@) matches Ok(t) && a@ == t),
        (r matches Err(e) ==> spec_dns_outcome(buf@) == Err::<Seq<char>, ProbeError>(e)),
{
    let resp = match decode_response(buf) {
        Ok(resp) => resp,
        Err(e) => {
            return Err(e);
        },
    };
    match resp.first_address() {
        Some(ip) => Ok(ip_string(&ip)),
        None => Err(ProbeError::NoAddressFound),
    }
}

/// The address a successful DNS probe reports is non-empty and already
/// whitespace-trimmed, as a resolution's answer must be.
pub proof fn lemma_dns_address_clean(buf: Seq<u8>)
    ensures
        (spec_dns_outcome(buf) matches Ok(t) ==> t.len() > 0 && trim_text(t) == t),
{
    if spec_dns_outcome(buf) is Ok {
        let recs = spec_decode(buf)->Some_0;
        let bytes = spec_first_address(recs)->Some_0;
        crate::text::lemma_ip_text_clean(bytes);
    }
}

/// What an HTTPS probe returns for a status and body: the trimmed body
/// on a 2xx status, `HttpFailed` on any other.
pub open spec fn spec_https_outcome(status: u16, body: Seq<char>) -> Result<
    Seq<char>,
    ProbeError,
> {
    if 200 <= status <= 299 {
        Ok(trim_text(body))
    } else {
        Err(ProbeError::HttpFailed)
    }
}

/// The address a successful HTTPS probe reports is already
/// whitespace-trimmed: trimming it again changes nothing. Nothing more
/// is promised of it — a malformed upstream body propagates verbatim,
/// the accepted trust boundary with the chosen providers.
pub proof fn lemma_https_address_trimmed(status: u16, body: Seq<char>)
    ensures
        (spec_https_outcome(status, body) matches Ok(t) ==> trim_text(t) == t),
{
    if spec_https_outcome(status, body) is Ok {
        crate::text::lemma_trim_idempotent(body);
    }
}

/// Decides an HTTPS probe from the collaborator's status code and body:
/// only 2xx counts as success, and the body, trimmed of leading and
/// trailing whitespace, is returned verbatim as the address. A transport
/// failure never reaches this point: the runner maps it to `HttpFailed`
/// directly, as this function does for every non-2xx status.
pub fn evaluate_https_response(status: u16, body: &str) -> (r: Result<String, ProbeError>)
    ensures
        (r matches Ok(a) ==> spec_https_outcome(status, body@) matches Ok(t) && a@ == t),
        (r matches Err(e) ==> spec_https_outcome(status, body@) == Err::<Seq<char>, ProbeError>(
            e,
        )),
        r is Ok <==> 200 <= status <= 299,
{
    if 200 <= status && status <= 299 {
        Ok(trim_str(body))
    } else {
        Err(ProbeError::HttpFailed)
    }
}

} // verus!
