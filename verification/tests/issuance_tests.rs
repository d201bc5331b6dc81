use sslboard_desktop::dns::{DnsPropagationResult, PropagationState};
use sslboard_desktop::dns_config::{DnsProvider, DnsProviderResolution};
use sslboard_desktop::issuance::{
    authorization_needs_challenge, check_dns_propagation, cleans_up_via_provider, finish_challenge,
    format_key_label, key_algorithm_to_db, key_curve_to_db, managed_key_label, parse_key_algorithm,
    parse_key_curve, plan_challenge, resolve_key_params, root_from_hostname,
    revocation_leaf_der, validate_and_normalize_domains, AuthorizationState,
};
use sslboard_desktop::types::{KeyAlgorithm, KeyCurve};

#[test]
fn defaults_to_rsa_2048_when_missing() {
    let (algo, size, curve) = resolve_key_params(None, None, None).unwrap();
    assert!(matches!(algo, KeyAlgorithm::Rsa));
    assert_eq!(size, Some(2048));
    assert!(curve.is_none());
}

#[test]
fn accepts_rsa_3072() {
    let (algo, size, curve) = resolve_key_params(Some(KeyAlgorithm::Rsa), Some(3072), None).unwrap();
    assert!(matches!(algo, KeyAlgorithm::Rsa));
    assert_eq!(size, Some(3072));
    assert!(curve.is_none());
}

#[test]
fn accepts_ecdsa_p384() {
    let (algo, size, curve) =
        resolve_key_params(Some(KeyAlgorithm::Ecdsa), None, Some(KeyCurve::P384)).unwrap();
    assert!(matches!(algo, KeyAlgorithm::Ecdsa));
    assert!(size.is_none());
    assert!(matches!(curve, Some(KeyCurve::P384)));
}

#[test]
fn rejects_invalid_size() {
    let err = resolve_key_params(Some(KeyAlgorithm::Rsa), Some(1024), None).unwrap_err();
    assert!(err.to_string().contains("Unsupported RSA key size"));
    assert_eq!(err, "Unsupported RSA key size 1024. Allowed: 2048, 3072, 4096");
}

#[test]
fn key_params_errors() {
    assert_eq!(
        resolve_key_params(None, Some(2048), None).unwrap_err(),
        "Key parameters must include key_algorithm when size/curve is provided"
    );
    assert_eq!(
        resolve_key_params(Some(KeyAlgorithm::Rsa), None, None).unwrap_err(),
        "RSA key_size is required"
    );
    assert_eq!(
        resolve_key_params(Some(KeyAlgorithm::Rsa), Some(2048), Some(KeyCurve::P256)).unwrap_err(),
        "RSA issuance does not accept key_curve"
    );
    assert_eq!(
        resolve_key_params(Some(KeyAlgorithm::Ecdsa), Some(256), Some(KeyCurve::P256)).unwrap_err(),
        "ECDSA issuance does not accept key_size"
    );
    assert_eq!(
        resolve_key_params(Some(KeyAlgorithm::Ecdsa), None, None).unwrap_err(),
        "ECDSA key_curve is required"
    );
}

#[test]
fn resolved_key_params_are_stable() {
    let first = resolve_key_params(Some(KeyAlgorithm::Rsa), Some(4096), None).unwrap();
    let again = resolve_key_params(Some(first.0), first.1, first.2).unwrap();
    assert_eq!(first, again);
}

#[test]
fn key_labels() {
    assert_eq!(format_key_label(&KeyAlgorithm::Rsa, None, None), "RSA 2048");
    assert_eq!(format_key_label(&KeyAlgorithm::Rsa, Some(4096), None), "RSA 4096");
    assert_eq!(format_key_label(&KeyAlgorithm::Ecdsa, None, Some(&KeyCurve::P256)), "ECDSA P-256");
    assert_eq!(format_key_label(&KeyAlgorithm::Ecdsa, None, None), "ECDSA");
    assert_eq!(
        managed_key_label(&KeyAlgorithm::Ecdsa, None, Some(&KeyCurve::P384), "example.com"),
        "Managed ECDSA P-384 key for example.com"
    );
}

#[test]
fn key_names_round_trip() {
    for a in [KeyAlgorithm::Rsa, KeyAlgorithm::Ecdsa] {
        assert_eq!(parse_key_algorithm(key_algorithm_to_db(&Some(a))), Ok(Some(a)));
    }
    for c in [KeyCurve::P256, KeyCurve::P384] {
        assert_eq!(parse_key_curve(key_curve_to_db(&Some(c))), Ok(Some(c)));
    }
    assert_eq!(parse_key_algorithm(None), Ok(None));
    assert_eq!(
        parse_key_algorithm(Some("dsa".to_string())),
        Err("Unknown key algorithm: dsa".to_string())
    );
    assert_eq!(parse_key_curve(Some("p521".to_string())), Err("Unknown key curve: p521".to_string()));
}

#[test]
fn domains_are_normalized_sorted_and_deduplicated() {
    let out = validate_and_normalize_domains(vec![
        " B.example.com ".to_string(),
        "".to_string(),
        "a.example.com".to_string(),
        "b.example.com.".to_string(),
        "testé.fr".to_string(),
    ])
    .unwrap();
    assert_eq!(out, vec!["a.example.com", "b.example.com", "xn--test-epa.fr"]);
}

#[test]
fn domain_errors() {
    assert_eq!(
        validate_and_normalize_domains(vec![]).unwrap_err(),
        "At least one domain is required"
    );
    assert_eq!(
        validate_and_normalize_domains(vec!["  ".to_string()]).unwrap_err(),
        "No valid domains provided"
    );
    let err = validate_and_normalize_domains(vec!["ok.com".to_string(), "bad\u{e000}.com".to_string()])
        .unwrap_err();
    assert!(err.starts_with("Invalid domain name \"bad\u{e000}.com\": "));
}

#[test]
fn root_of_hostnames() {
    assert_eq!(root_from_hostname("www.example.com"), "example.com");
    assert_eq!(root_from_hostname("example.com."), "example.com");
    assert_eq!(root_from_hostname("localhost"), "localhost");
}

fn provider(kind: &str, config: Option<&str>) -> DnsProvider {
    DnsProvider {
        id: "p1".to_string(),
        provider_type: kind.to_string(),
        label: "P".to_string(),
        domain_suffixes: vec!["example.com".to_string()],
        secret_refs: vec![],
        config_json: config.map(|c| c.to_string()),
        created_at: "2024-01-01T00:00:00Z".to_string(),
        updated_at: "2024-01-01T00:00:00Z".to_string(),
    }
}

#[test]
fn challenge_plans() {
    let none = DnsProviderResolution { provider: None, matched_suffix: None, ambiguous: vec![] };
    let plan = plan_challenge("www.example.com", "proof", &none);
    assert_eq!(plan.record.record_name, "_acme-challenge.www.example.com");
    assert_eq!(plan.record.zone, "example.com");
    assert!(plan.provider_type.is_none());
    assert!(!cleans_up_via_provider(&none));
    let (rec, cleanup) = finish_challenge("www.example.com", plan, Ok(())).unwrap();
    assert_eq!(rec.adapter, "manual");
    assert!(cleanup.is_none());

    let one = DnsProviderResolution {
        provider: Some(provider("cloudflare", Some("{\"zone\":\"zone.example.com\"}"))),
        matched_suffix: Some("example.com".to_string()),
        ambiguous: vec![provider("cloudflare", None)],
    };
    assert!(cleans_up_via_provider(&one));
    let plan = plan_challenge("www.example.com", "proof", &one);
    assert_eq!(plan.record.zone, "zone.example.com");
    assert_eq!(plan.provider_type.as_deref(), Some("cloudflare"));
    let (rec, cleanup) = finish_challenge("www.example.com", plan, Ok(())).unwrap();
    assert_eq!(rec.adapter, "cloudflare");
    assert_eq!(
        cleanup,
        Some(("www.example.com".to_string(), "_acme-challenge.www.example.com".to_string()))
    );
    let plan = plan_challenge("www.example.com", "proof", &one);
    assert_eq!(
        finish_challenge("www.example.com", plan, Err("denied".to_string())).unwrap_err(),
        "Failed to create TXT record via cloudflare: denied"
    );

    let two = DnsProviderResolution {
        provider: Some(provider("cloudflare", None)),
        matched_suffix: Some("example.com".to_string()),
        ambiguous: vec![provider("cloudflare", None), provider("route53", None)],
    };
    assert!(plan_challenge("www.example.com", "proof", &two).provider_type.is_none());
}

#[test]
fn authorization_states() {
    assert_eq!(authorization_needs_challenge(AuthorizationState::Pending, "a.com"), Ok(true));
    assert_eq!(authorization_needs_challenge(AuthorizationState::Valid, "a.com"), Ok(false));
    assert_eq!(
        authorization_needs_challenge(AuthorizationState::Other, "a.com"),
        Err("unexpected authorization status for a.com".to_string())
    );
}

fn reading(state: PropagationState, reason: Option<&str>, observed: Vec<&str>) -> DnsPropagationResult {
    DnsPropagationResult {
        state,
        reason: reason.map(|r| r.to_string()),
        observed_values: observed.into_iter().map(|s| s.to_string()).collect(),
    }
}

#[test]
fn propagation_verdicts() {
    assert_eq!(
        check_dns_propagation("a.com", "p", &reading(PropagationState::Found, None, vec!["p"]), 30),
        Ok(())
    );
    assert_eq!(
        check_dns_propagation("a.com", "p", &reading(PropagationState::NxDomain, None, vec![]), 30)
            .unwrap_err(),
        "No TXT record found at _acme-challenge.a.com after 30s. Please ensure the DNS record is created and propagated."
    );
    assert_eq!(
        check_dns_propagation("a.com", "p", &reading(PropagationState::Pending, None, vec![]), 30)
            .unwrap_err(),
        "TXT record not found at _acme-challenge.a.com after 30s. Please wait for DNS propagation and try again."
    );
    assert_eq!(
        check_dns_propagation("a.com", "p", &reading(PropagationState::WrongContent, None, vec!["q"]), 30)
            .unwrap_err(),
        "TXT record at _acme-challenge.a.com has wrong value. Expected: p. Observed: [\"q\"]"
    );
    assert_eq!(
        check_dns_propagation("a.com", "p", &reading(PropagationState::Error, None, vec![]), 30)
            .unwrap_err(),
        "Failed to check DNS propagation for _acme-challenge.a.com: Unknown error"
    );
}

#[test]
fn invalid_domains_report_the_idna_error() {
    let err = validate_and_normalize_domains(vec!["bad\u{e000}.com".to_string()]).unwrap_err();
    assert_eq!(err, "Invalid domain name \"bad\u{e000}.com\": invalid domain name: Errors");
}

#[test]
fn revocation_uses_the_first_certificate_of_the_chain() {
    let certified = rcgen::generate_simple_self_signed(vec!["example.com".to_string()]).unwrap();
    let chain = format!("{}{}", certified.cert.pem(), certified.cert.pem());
    assert_eq!(revocation_leaf_der(Some(chain)), Ok(certified.cert.der().to_vec()));
    assert_eq!(revocation_leaf_der(None), Err("Certificate chain PEM is missing".to_string()));
    assert_eq!(revocation_leaf_der(Some(String::new())), Err("certificate chain is empty".to_string()));
}
