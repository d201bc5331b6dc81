use sslboard_desktop::dns::{
    derive_zone, interpret_dns_results, record_name, trim_txt_quotes, DnsAdapter,
    DnsChallengeRequest, GoogleDnsAnswer, GoogleDnsResponse, ManualDnsAdapter, PropagationState,
};

fn make_req() -> DnsChallengeRequest {
    DnsChallengeRequest {
        domain: "test.example.com".to_string(),
        value: "expected-value".to_string(),
        zone: None,
    }
}

#[test]
fn interprets_found_when_value_matches() {
    let responses = vec![GoogleDnsResponse {
        status: 0,
        answer: Some(vec![GoogleDnsAnswer {
            data: Some("\"expected-value\"".to_string()),
        }]),
    }];
    let result = interpret_dns_results(&responses, &make_req());
    assert!(matches!(result.state, PropagationState::Found));
    assert!(result.observed_values.contains(&"expected-value".to_string()));
}

#[test]
fn interprets_wrong_content_when_value_differs() {
    let responses = vec![GoogleDnsResponse {
        status: 0,
        answer: Some(vec![GoogleDnsAnswer {
            data: Some("\"other-value\"".to_string()),
        }]),
    }];
    let result = interpret_dns_results(&responses, &make_req());
    assert!(matches!(result.state, PropagationState::WrongContent));
    assert!(result.observed_values.contains(&"other-value".to_string()));
}

#[test]
fn interprets_nxdomain_when_only_nxdomain_seen() {
    let responses = vec![GoogleDnsResponse {
        status: 3,
        answer: None,
    }];
    let result = interpret_dns_results(&responses, &make_req());
    assert!(matches!(result.state, PropagationState::NxDomain));
}

#[test]
fn found_beats_nxdomain_mix() {
    let responses = vec![
        GoogleDnsResponse {
            status: 3,
            answer: None,
        },
        GoogleDnsResponse {
            status: 0,
            answer: Some(vec![GoogleDnsAnswer {
                data: Some("\"expected-value\"".to_string()),
            }]),
        },
    ];
    let result = interpret_dns_results(&responses, &make_req());
    assert!(matches!(result.state, PropagationState::Found));
}

#[test]
fn pending_when_ok_but_empty() {
    let responses = vec![GoogleDnsResponse {
        status: 0,
        answer: None,
    }];
    let result = interpret_dns_results(&responses, &make_req());
    assert!(matches!(result.state, PropagationState::Pending));
}

#[test]
fn record_name_adds_acme_prefix() {
    assert_eq!(record_name("example.com"), "_acme-challenge.example.com");
}

#[test]
fn record_name_preserves_existing_prefix() {
    assert_eq!(
        record_name("_acme-challenge.example.com"),
        "_acme-challenge.example.com"
    );
}

#[test]
fn record_name_drops_trailing_dots() {
    assert_eq!(record_name("example.com.."), "_acme-challenge.example.com");
}

#[test]
fn error_state_when_no_responses() {
    let result = interpret_dns_results(&[], &make_req());
    assert!(matches!(result.state, PropagationState::Error));
    assert_eq!(result.reason.as_deref(), Some("no responses from DNS resolvers"));
    assert!(result.observed_values.is_empty());
}

#[test]
fn reasons_follow_states() {
    let wrong = interpret_dns_results(
        &[GoogleDnsResponse {
            status: 0,
            answer: Some(vec![GoogleDnsAnswer { data: Some("x".to_string()) }]),
        }],
        &make_req(),
    );
    assert_eq!(wrong.reason.as_deref(), Some("TXT record present with different value"));
    let nx = interpret_dns_results(&[GoogleDnsResponse { status: 3, answer: None }], &make_req());
    assert_eq!(nx.reason.as_deref(), Some("record not found (NXDOMAIN)"));
    let pending =
        interpret_dns_results(&[GoogleDnsResponse { status: 0, answer: None }], &make_req());
    assert_eq!(pending.reason.as_deref(), Some("record not found yet"));
    let other = interpret_dns_results(&[GoogleDnsResponse { status: 2, answer: None }], &make_req());
    assert!(matches!(other.state, PropagationState::Error));
}

#[test]
fn derive_zone_takes_last_two_labels() {
    assert_eq!(derive_zone("a.b.example.com."), "example.com");
    assert_eq!(derive_zone("localhost"), "localhost");
}

#[test]
fn trim_txt_quotes_strips_quotes_and_spaces() {
    assert_eq!(trim_txt_quotes("\" value \""), "value");
    assert_eq!(trim_txt_quotes("plain"), "plain");
}

#[test]
fn manual_adapter_presents_record() {
    let adapter = ManualDnsAdapter::new();
    let ins = adapter.present_txt(&make_req()).unwrap();
    assert_eq!(ins.adapter, "manual");
    assert_eq!(ins.record_name, "_acme-challenge.test.example.com");
    assert_eq!(ins.value, "expected-value");
    assert_eq!(ins.zone, "example.com");
    let with_zone = DnsChallengeRequest {
        zone: Some("custom.zone".to_string()),
        ..make_req()
    };
    assert_eq!(adapter.present_txt(&with_zone).unwrap().zone, "custom.zone");
}

#[test]
fn record_name_applied_twice_is_unchanged() {
    for domain in ["example.com", "example.com..", "_acme-challenge.a.b", "x"] {
        let once = record_name(domain);
        assert_eq!(record_name(&once), once);
    }
}
