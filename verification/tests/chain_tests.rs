use pubip::chain::ChainRun;
use pubip::chain::ResolutionResult;
use pubip::chain::default_chain;
use pubip::chain::resolve_public_address;
use pubip::errors::AllProbesFailedError;
use pubip::probe::HTTPS_TIMEOUT_MS;
use pubip::probe::Probe;
use pubip::probe::ProbeKind;

fn named_probe(label: &str) -> Probe {
    Probe {
        label: label.to_string(),
        kind: ProbeKind::Https {
            url: "https://192.0.2.1/".to_string(),
            connect_timeout_ms: HTTPS_TIMEOUT_MS,
            read_timeout_ms: HTTPS_TIMEOUT_MS,
            write_timeout_ms: HTTPS_TIMEOUT_MS,
        },
    }
}

#[test]
fn first_success_wins_and_later_probes_are_not_consulted() {
    // Probes one and two fail, probe three succeeds: the answer is
    // probe three's, and the probe after it is never reached.
    let chain = vec![
        named_probe("P1"),
        named_probe("P2"),
        named_probe("X"),
        named_probe("P4"),
    ];
    let outcomes = vec![None, None, Some("1.2.3.4".to_string()), Some("9.9.9.9".to_string())];
    let r = resolve_public_address(&chain, &outcomes).unwrap();
    assert_eq!(r.provider, "X");
    assert_eq!(r.address, "1.2.3.4");
}

#[test]
fn chain_run_never_offers_a_probe_after_a_success() {
    let chain = vec![named_probe("P1"), named_probe("P2"), named_probe("X"), named_probe("P4")];
    let mut run = ChainRun::new();
    assert_eq!(run.next_probe(&chain), Some(0));
    run.record_failure();
    assert_eq!(run.next_probe(&chain), Some(1));
    run.record_failure();
    assert_eq!(run.next_probe(&chain), Some(2));
    run.record_success();
    // The probe after the success is never offered.
    assert_eq!(run.next_probe(&chain), None);
}

#[test]
fn exhausted_chain_fails_as_a_whole() {
    let chain = vec![named_probe("P1"), named_probe("P2"), named_probe("P3")];
    let outcomes = vec![None, None, None];
    assert_eq!(resolve_public_address(&chain, &outcomes), Err(AllProbesFailedError));
    let mut run = ChainRun::new();
    for _ in 0..3 {
        assert!(run.next_probe(&chain).is_some());
        run.record_failure();
    }
    assert_eq!(run.next_probe(&chain), None);
}

#[test]
fn empty_chain_fails() {
    let chain: Vec<Probe> = Vec::new();
    let outcomes: Vec<Option<String>> = Vec::new();
    assert_eq!(resolve_public_address(&chain, &outcomes), Err(AllProbesFailedError));
}

#[test]
fn resolution_is_idempotent_on_a_fixture_chain() {
    // Two runs against the same deterministic fixtures answer alike.
    let chain = vec![named_probe("a"), named_probe("b")];
    let outcomes = vec![None, Some("203.0.113.7".to_string())];
    let first: ResolutionResult = resolve_public_address(&chain, &outcomes).unwrap();
    let second: ResolutionResult = resolve_public_address(&chain, &outcomes).unwrap();
    assert_eq!(first, second);
}

#[test]
fn default_chain_order_matches_policy() {
    // DNS before HTTPS, the IPv4-specific endpoint before dual-stack.
    let chain = default_chain();
    let labels: Vec<&str> = chain.iter().map(|p| p.label.as_str()).collect();
    assert_eq!(
        labels,
        vec![
            "akamai (DNS)",
            "icanhazip (ipv4, https)",
            "icanhazip (https)",
            "ifconfig.me (https)",
            "ifconfig.co (https)",
        ]
    );
    assert!(matches!(chain[0].kind, ProbeKind::Dns { .. }));
    for p in &chain[1..] {
        assert!(matches!(p.kind, ProbeKind::Https { .. }));
    }
}
