use std::time::Duration;

use sslboard_desktop::dns::{GoogleDnsAnswer, GoogleDnsResponse, PropagationState};
use sslboard_desktop::providers::{
    batch_result, interpret_dns_response, matches_zone, parse_timeout, propagation_poll_step,
    query_google_dns, retry_after_failure, status_error, verification_step, AtomicDnsOperations,
    CloudflareAdapter, DefaultNormalizer, DigitalOceanAdapter, PollStep, RetryStep,
    Route53Adapter, VerifyOutcome, VerifyStep, ZoneEntry,
};

#[test]
fn matches_exact_zone_name() {
    assert!(matches_zone("example.com", "example.com"));
    assert!(!matches_zone("example.com", "other.com"));
}

#[test]
fn matches_subdomain_suffix() {
    assert!(matches_zone("sub.example.com", "example.com"));
    assert!(!matches_zone("example.com", "sub.example.com"));
}

#[test]
fn matches_idn_suffix() {
    assert!(matches_zone("testé.ezs3.net", "ezs3.net"));
    assert!(matches_zone("xn--test-epa.ezs3.net", "ezs3.net"));
    assert!(matches_zone("testé.fr", "xn--test-epa.fr"));
    assert!(!matches_zone("example.com", "xn--test-epa.fr"));
}

#[test]
fn parse_timeout_defaults() {
    let timeout = parse_timeout(None);
    assert_eq!(timeout, Duration::from_secs(15));
}

#[test]
fn parse_timeout_parses_valid() {
    let timeout = parse_timeout(Some("20"));
    assert_eq!(timeout, Duration::from_secs(20));
}

#[test]
fn parse_timeout_rejects_zero() {
    let timeout = parse_timeout(Some("0"));
    assert_eq!(timeout, Duration::from_secs(15));
}

#[test]
fn parse_timeout_rejects_invalid() {
    let timeout = parse_timeout(Some("nope"));
    assert_eq!(timeout, Duration::from_secs(15));
}

#[test]
fn parse_timeout_accepts_plus_sign_and_rejects_overflow() {
    assert_eq!(parse_timeout(Some("+7")), Duration::from_secs(7));
    assert_eq!(parse_timeout(Some("18446744073709551616")), Duration::from_secs(15));
    assert_eq!(parse_timeout(Some("18446744073709551615")), Duration::from_secs(u64::MAX));
}

#[test]
fn interpret_dns_response_found_when_value_matches() {
    let response = GoogleDnsResponse {
        status: 0,
        answer: Some(vec![GoogleDnsAnswer {
            data: Some("\"expected-value\"".to_string()),
        }]),
    };
    let result = interpret_dns_response(&response, "test.example.com", "expected-value");
    assert!(matches!(result.state, PropagationState::Found));
    assert!(result.observed_values.contains(&"expected-value".to_string()));
}

#[test]
fn interpret_dns_response_wrong_content_when_value_differs() {
    let response = GoogleDnsResponse {
        status: 0,
        answer: Some(vec![GoogleDnsAnswer {
            data: Some("\"other-value\"".to_string()),
        }]),
    };
    let result = interpret_dns_response(&response, "test.example.com", "expected-value");
    assert!(matches!(result.state, PropagationState::WrongContent));
    assert!(result.observed_values.contains(&"other-value".to_string()));
}

#[test]
fn interpret_dns_response_nxdomain_when_only_nxdomain_seen() {
    let response = GoogleDnsResponse {
        status: 3,
        answer: None,
    };
    let result = interpret_dns_response(&response, "test.example.com", "expected-value");
    assert!(matches!(result.state, PropagationState::NxDomain));
}

#[test]
fn interpret_dns_response_found_beats_nxdomain_mix() {
    let response = GoogleDnsResponse {
        status: 0,
        answer: Some(vec![GoogleDnsAnswer {
            data: Some("\"expected-value\"".to_string()),
        }]),
    };
    let result = interpret_dns_response(&response, "test.example.com", "expected-value");
    assert!(matches!(result.state, PropagationState::Found));
}

#[test]
fn interpret_dns_response_pending_when_ok_but_empty() {
    let response = GoogleDnsResponse {
        status: 0,
        answer: None,
    };
    let result = interpret_dns_response(&response, "test.example.com", "expected-value");
    assert!(matches!(result.state, PropagationState::Pending));
}

#[test]
fn normalize_value_removes_quotes_and_whitespace() {
    let normalizer = DefaultNormalizer;
    assert_eq!(normalizer.normalize_value("\"test\""), "test");
    assert_eq!(normalizer.normalize_value(" \"test\" "), "test");
    assert_eq!(normalizer.normalize_value("test"), "test");
    assert_eq!(normalizer.normalize_value("\"test value\""), "test value");
}

#[test]
fn interpret_dns_response_handles_multiple_answers() {
    let response = GoogleDnsResponse {
        status: 0,
        answer: Some(vec![
            GoogleDnsAnswer {
                data: Some("\"value1\"".to_string()),
            },
            GoogleDnsAnswer {
                data: Some("\"value2\"".to_string()),
            },
        ]),
    };
    let result = interpret_dns_response(&response, "test.example.com", "value1");
    assert!(matches!(result.state, PropagationState::Found));
    assert_eq!(result.observed_values.len(), 2);
    assert!(result.observed_values.contains(&"value1".to_string()));
    assert!(result.observed_values.contains(&"value2".to_string()));
}

#[test]
fn interpret_dns_response_wrong_content_with_multiple_answers() {
    let response = GoogleDnsResponse {
        status: 0,
        answer: Some(vec![
            GoogleDnsAnswer {
                data: Some("\"value1\"".to_string()),
            },
            GoogleDnsAnswer {
                data: Some("\"value2\"".to_string()),
            },
        ]),
    };
    let result = interpret_dns_response(&response, "test.example.com", "expected-value");
    assert!(matches!(result.state, PropagationState::WrongContent));
    assert_eq!(result.observed_values.len(), 2);
}

#[test]
fn interpret_dns_response_error_without_status() {
    let response = GoogleDnsResponse { status: 2, answer: None };
    let result = query_google_dns("test.example.com", "v", &response);
    assert!(matches!(result.state, PropagationState::Error));
    assert_eq!(result.reason.as_deref(), Some("no response from DNS resolver"));
}

#[test]
fn cloudflare_atomic_normalize_value() {
    let adapter = CloudflareAdapter::new("dummy-token".to_string(), "example.com".to_string());
    assert_eq!(adapter.normalize_value("\"test\""), "test");
    assert_eq!(adapter.normalize_value(" \"test\" "), "test");
    assert_eq!(adapter.normalize_value("test"), "test");
}

#[test]
fn digitalocean_atomic_normalize_value() {
    let adapter = DigitalOceanAdapter::new("dummy-token".to_string(), "example.com".to_string());
    assert_eq!(adapter.normalize_value("\"test\""), "test");
    assert_eq!(adapter.normalize_value(" \"test\" "), "test");
    assert_eq!(adapter.normalize_value("test"), "test");
}

#[test]
fn quoted_txt_formats() {
    assert_eq!(CloudflareAdapter::format_txt_content("abc"), "\"abc\"");
    assert_eq!(CloudflareAdapter::format_txt_content(" \"abc\" "), "\"abc\"");
    assert_eq!(Route53Adapter::format_txt_content("\"abc"), "\"abc\"");
    assert_eq!(DigitalOceanAdapter::format_txt_content(" \"abc\" "), "abc");
}

#[test]
fn digitalocean_relative_names() {
    let adapter = DigitalOceanAdapter::new("t".to_string(), "example.com.".to_string());
    assert_eq!(adapter.to_relative_name("example.com"), "@");
    assert_eq!(adapter.to_relative_name("_acme-challenge.example.com."), "_acme-challenge");
    assert_eq!(adapter.to_relative_name("a.b.example.com"), "a.b");
    assert_eq!(adapter.to_relative_name("other.org"), "other.org");
    assert_eq!(adapter.get_zone_id(), "example.com.");
}

#[test]
fn digitalocean_record_ids_round_trip() {
    for id in [0u64, 7, 10, 123456789, u64::MAX] {
        let text = DigitalOceanAdapter::record_id_text(id);
        assert_eq!(text, id.to_string());
        assert_eq!(DigitalOceanAdapter::parse_record_id(&text), Ok(id));
    }
    assert_eq!(
        DigitalOceanAdapter::parse_record_id("12a"),
        Err("Invalid record ID: 12a".to_string())
    );
}

#[test]
fn route53_record_ids_round_trip() {
    let id = Route53Adapter::record_id("_acme-challenge.example.com");
    assert_eq!(id, "route53:_acme-challenge.example.com");
    assert_eq!(
        Route53Adapter::record_name_from_id(&id),
        Ok("_acme-challenge.example.com".to_string())
    );
    assert_eq!(
        Route53Adapter::record_name_from_id("cf:abc"),
        Err("Invalid Route53 record ID format".to_string())
    );
}

#[test]
fn cloudflare_zone_discovery_picks_first_match_and_caches() {
    let mut adapter = CloudflareAdapter::new("t".to_string(), "sub.example.com".to_string());
    let zones = vec![
        ZoneEntry { id: "z1".to_string(), name: "other.com".to_string() },
        ZoneEntry { id: "z2".to_string(), name: "example.com".to_string() },
        ZoneEntry { id: "z3".to_string(), name: "sub.example.com".to_string() },
    ];
    assert_eq!(adapter.discover_zone_id(&zones), Ok("z2".to_string()));
    assert_eq!(adapter.zone_cache, Some("z2".to_string()));
    assert_eq!(adapter.discover_zone_id(&[]), Ok("z2".to_string()));
    let mut missing = CloudflareAdapter::new("t".to_string(), "nowhere.org".to_string());
    assert_eq!(
        missing.discover_zone_id(&zones),
        Err("No Cloudflare zone found for domain suffix: nowhere.org".to_string())
    );
}

#[test]
fn route53_zone_discovery_trims_trailing_dot() {
    let mut adapter =
        Route53Adapter::new("a".to_string(), "s".to_string(), "example.com".to_string());
    let zones = vec![ZoneEntry { id: "/hostedzone/Z1".to_string(), name: "example.com.".to_string() }];
    assert_eq!(adapter.discover_hosted_zone_id(&zones), Ok("/hostedzone/Z1".to_string()));
    assert_eq!(adapter.hosted_zone_cache, Some("/hostedzone/Z1".to_string()));
}

#[test]
fn status_error_maps_auth() {
    let err = status_error("Cloudflare", 401, "401 Unauthorized", None);
    assert!(err.contains("Cloudflare authentication failed"));
}

#[test]
fn status_error_maps_rate_limit() {
    let err = status_error("DigitalOcean", 429, "429 Too Many Requests", None);
    assert!(err.contains("DigitalOcean rate limit exceeded"));
}

#[test]
fn status_error_includes_body() {
    let msg = status_error("Cloudflare", 400, "400 Bad Request", Some("bad request".to_string()));
    assert!(msg.contains("Cloudflare API error"));
    assert!(msg.contains("bad request"));
    assert_eq!(
        status_error("Cloudflare", 500, "500 Internal Server Error", None),
        "Cloudflare API error: 500 Internal Server Error"
    );
}

#[test]
fn batch_failures_report_count_and_first_error() {
    assert_eq!(batch_result("set", 0, "x"), Ok(()));
    assert_eq!(
        batch_result("delete", 2, "boom"),
        Err("Failed to delete 2 record(s): boom".to_string())
    );
}

#[test]
fn retries_until_attempts_run_out() {
    assert_eq!(retry_after_failure(0, 3, 500), RetryStep::Retry { next: 1, wait_ms: 500 });
    assert_eq!(retry_after_failure(1, 3, 500), RetryStep::Retry { next: 2, wait_ms: 1000 });
    assert_eq!(retry_after_failure(2, 3, 500), RetryStep::GiveUp);
    assert_eq!(retry_after_failure(4, 10, 500), RetryStep::Retry { next: 5, wait_ms: 8000 });
    assert_eq!(retry_after_failure(70, 100, 1), RetryStep::Retry { next: 71, wait_ms: u64::MAX });
}

#[test]
fn polling_stops_on_final_state_or_timeout() {
    assert_eq!(propagation_poll_step(PropagationState::Found, 0, 100), PollStep::Finish);
    assert_eq!(propagation_poll_step(PropagationState::WrongContent, 0, 100), PollStep::Finish);
    assert_eq!(propagation_poll_step(PropagationState::Pending, 50, 100), PollStep::Wait);
    assert_eq!(propagation_poll_step(PropagationState::NxDomain, 100, 100), PollStep::Finish);
}

#[test]
fn verification_steps() {
    assert!(matches!(
        verification_step(VerifyOutcome::Verified, "create", "r", 0, 10),
        VerifyStep::Done
    ));
    assert!(matches!(
        verification_step(VerifyOutcome::NotYet, "create", "r", 5, 10),
        VerifyStep::Wait
    ));
    match verification_step(VerifyOutcome::NotYet, "create", "r.example.com", 120, 100) {
        VerifyStep::Fail(m) => {
            assert_eq!(m, "create verification failed for r.example.com: timeout after 120ms");
            assert!(m.contains("timeout"));
        }
        _ => panic!("expected a failure"),
    }
    match verification_step(VerifyOutcome::Failed("immediate failure".to_string()), "x", "r", 0, 10) {
        VerifyStep::Fail(m) => assert_eq!(m, "immediate failure"),
        _ => panic!("expected a failure"),
    }
}

/// Runs provider-side verification as the shell does, on a clock that
/// advances by `interval` per wait; returns the outcome and the attempts made.
fn drive_verification(
    timeout: Duration,
    interval: Duration,
    mut verify: impl FnMut() -> Result<bool, String>,
) -> (Result<(), String>, u32) {
    let timeout_ms = timeout.as_millis() as u64;
    let interval_ms = interval.as_millis() as u64;
    let mut elapsed_ms: u64 = 0;
    let mut calls: u32 = 0;
    loop {
        calls += 1;
        let outcome = match verify() {
            Ok(true) => VerifyOutcome::Verified,
            Ok(false) => VerifyOutcome::NotYet,
            Err(e) => VerifyOutcome::Failed(e),
        };
        match verification_step(outcome, "test", "test.example.com", elapsed_ms, timeout_ms) {
            VerifyStep::Done => return (Ok(()), calls),
            VerifyStep::Fail(m) => return (Err(m), calls),
            VerifyStep::Wait => elapsed_ms += interval_ms,
        }
    }
}

#[test]
fn retry_provider_verification_succeeds_immediately() {
    let (result, calls) = drive_verification(Duration::from_secs(5), Duration::from_millis(100), || Ok(true));
    assert!(result.is_ok());
    assert_eq!(calls, 1);
}

#[test]
fn retry_provider_verification_retries_until_success() {
    let mut count = 0;
    let (result, calls) = drive_verification(Duration::from_secs(2), Duration::from_millis(50), || {
        count += 1;
        Ok(count >= 3)
    });
    assert!(result.is_ok());
    assert_eq!(calls, 3);
}

#[test]
fn retry_provider_verification_fails_on_timeout() {
    let (result, _) = drive_verification(Duration::from_millis(100), Duration::from_millis(20), || Ok(false));
    assert!(result.is_err());
    assert!(result.unwrap_err().contains("timeout"));
}

#[test]
fn retry_provider_verification_fails_immediately_on_error() {
    let (result, calls) = drive_verification(Duration::from_secs(5), Duration::from_millis(100), || {
        Err("immediate failure".to_string())
    });
    assert!(result.is_err());
    assert_eq!(calls, 1);
}

#[test]
fn quoted_values_normalize_like_the_value() {
    let n = DefaultNormalizer;
    for v in ["abc", "\"abc\"", "  \"abc\" ", " a\"b ", "\"\"", "", " \"x", "y\" "] {
        let quoted = CloudflareAdapter::format_txt_content(v);
        assert_eq!(n.normalize_value(&quoted), n.normalize_value(v), "{v:?}");
    }
}
