use pubip::addr::IpAddress;
use pubip::errors::ProbeError;
use pubip::probe::dns_akamai;
use pubip::probe::dns_google;
use pubip::probe::evaluate_https_response;
use pubip::probe::https_icanhazip;
use pubip::probe::https_ifconfig_co;
use pubip::probe::https_ifconfig_me;
use pubip::probe::https_ipv4_icanhazip;
use pubip::probe::ProbeKind;
use pubip::rtype::RecordType;
use pubip::text::ip_string;
use pubip::text::trim_str;

#[test]
fn https_status_404_fails() {
    assert_eq!(evaluate_https_response(404, "not found"), Err(ProbeError::HttpFailed));
}

#[test]
fn https_status_200_trims_body() {
    let r = evaluate_https_response(200, "  203.0.113.7\n").unwrap();
    assert_eq!(r, "203.0.113.7");
}

#[test]
fn https_status_bounds() {
    assert!(evaluate_https_response(200, "a").is_ok());
    assert!(evaluate_https_response(299, "a").is_ok());
    assert_eq!(evaluate_https_response(199, "a"), Err(ProbeError::HttpFailed));
    assert_eq!(evaluate_https_response(300, "a"), Err(ProbeError::HttpFailed));
    assert_eq!(evaluate_https_response(500, "a"), Err(ProbeError::HttpFailed));
}

#[test]
fn trim_removes_only_edges() {
    assert_eq!(trim_str("\r\n\t 2001:db8::1 \t\r\n"), "2001:db8::1");
    assert_eq!(trim_str("a b"), "a b");
    assert_eq!(trim_str(""), "");
    assert_eq!(trim_str(" \n\t"), "");
    assert_eq!(trim_str("x"), "x");
}

#[test]
fn ipv4_text_is_dotted_decimal() {
    assert_eq!(ip_string(&IpAddress::V4([0, 0, 0, 0])), "0.0.0.0");
    assert_eq!(ip_string(&IpAddress::V4([255, 255, 255, 255])), "255.255.255.255");
    assert_eq!(ip_string(&IpAddress::V4([203, 0, 113, 7])), "203.0.113.7");
}

#[test]
fn ipv6_text_compresses_longest_zero_run() {
    let all_zero = [0u8; 16];
    assert_eq!(ip_string(&IpAddress::V6(all_zero)), "::");
    let mut loopback = [0u8; 16];
    loopback[15] = 1;
    assert_eq!(ip_string(&IpAddress::V6(loopback)), "::1");
    let doc = [0x20, 0x01, 0x0d, 0xb8, 0, 0, 0, 0, 0, 0, 0, 0, 0, 0, 0, 1];
    assert_eq!(ip_string(&IpAddress::V6(doc)), "2001:db8::1");
}

#[test]
fn ipv6_text_without_zero_run_is_uncompressed() {
    let full = [
        0, 1, 0, 2, 0, 3, 0, 4, 0, 5, 0, 6, 0, 7, 0, 8,
    ];
    assert_eq!(ip_string(&IpAddress::V6(full)), "1:2:3:4:5:6:7:8");
    // A single zero group is written out, not compressed.
    let single = [
        0, 1, 0, 2, 0, 3, 0, 0, 0, 5, 0, 6, 0, 7, 0, 8,
    ];
    assert_eq!(ip_string(&IpAddress::V6(single)), "1:2:3:0:5:6:7:8");
}

#[test]
fn ipv6_text_prefers_the_leftmost_of_equal_runs() {
    let tie = [
        0, 1, 0, 0, 0, 0, 0, 1, 0, 0, 0, 0, 0, 1, 0, 1,
    ];
    assert_eq!(ip_string(&IpAddress::V6(tie)), "1::1:0:0:1:1");
}

#[test]
fn probe_builders_carry_the_provider_parameters() {
    let p = dns_akamai();
    assert_eq!(p.label, "akamai (DNS)");
    match p.kind {
        ProbeKind::Dns { upstream, query_name, record_type, read_timeout_ms } => {
            assert_eq!(upstream, "ns1-1.akamaitech.net:53");
            assert_eq!(query_name, "whoami.akamai.net");
            assert_eq!(record_type, RecordType::A);
            assert_eq!(read_timeout_ms, 5000);
        },
        _ => panic!("akamai probe must be a DNS probe"),
    }

    let p = dns_google();
    assert_eq!(p.label, "google (DNS)");
    match p.kind {
        ProbeKind::Dns { upstream, query_name, record_type, .. } => {
            assert_eq!(upstream, "ns1.google.com:53");
            assert_eq!(query_name, "o-o.myaddr.l.google.com");
            assert_eq!(record_type, RecordType::Any);
        },
        _ => panic!("google probe must be a DNS probe"),
    }

    for (p, url, label) in [
        (https_ifconfig_co(), "https://ifconfig.co/ip", "ifconfig.co (https)"),
        (https_ifconfig_me(), "https://ifconfig.me/ip", "ifconfig.me (https)"),
        (https_icanhazip(), "https://icanhazip.com/", "icanhazip (https)"),
        (https_ipv4_icanhazip(), "https://ipv4.icanhazip.com/", "icanhazip (ipv4, https)"),
    ] {
        assert_eq!(p.label, label);
        match p.kind {
            ProbeKind::Https { url: u, connect_timeout_ms, read_timeout_ms, write_timeout_ms } => {
                assert_eq!(u, url);
                assert_eq!(connect_timeout_ms, 10000);
                assert_eq!(read_timeout_ms, 10000);
                assert_eq!(write_timeout_ms, 10000);
            },
            _ => panic!("{label} must be an HTTPS probe"),
        }
    }
}
