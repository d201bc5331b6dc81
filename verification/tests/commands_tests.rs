use sslboard_desktop::commands::{
    environment_from_string, environment_to_string, issuer_record_to_dto, issuer_type_to_string,
    provider_record_to_dto, provider_type_from_string, provider_type_to_string,
    provider_zone_override, record_for_display, resolution_to_dto, validate_acme_requirements,
    validate_cloudflare_token, validate_digitalocean_token, validate_domain_suffixes,
    validate_label, IssuerConfigRecord, SuffixListError,
};
use sslboard_desktop::dns_config::{DnsProvider, DnsProviderResolution};
use sslboard_desktop::types::{
    CertificateRecord, CertificateSource, DnsProviderType, IssuerEnvironment, IssuerType,
};

#[test]
fn provider_type_names_round_trip() {
    for t in [
        DnsProviderType::Cloudflare,
        DnsProviderType::DigitalOcean,
        DnsProviderType::Route53,
        DnsProviderType::Manual,
    ] {
        assert_eq!(provider_type_from_string(&provider_type_to_string(&t)), t);
    }
    assert_eq!(provider_type_from_string("unknown"), DnsProviderType::Manual);
}

#[test]
fn environment_names_round_trip() {
    for e in [IssuerEnvironment::Staging, IssuerEnvironment::Production] {
        assert_eq!(environment_from_string(&environment_to_string(&e)), e);
    }
    assert_eq!(environment_from_string("other"), IssuerEnvironment::Staging);
    assert_eq!(issuer_type_to_string(&IssuerType::Acme), "acme");
}

#[test]
fn acme_requirements() {
    let email = "ops@example.com".to_string();
    let blank = "  ".to_string();
    assert_eq!(validate_acme_requirements(&IssuerType::Acme, Some(&email), true), Ok(()));
    assert_eq!(
        validate_acme_requirements(&IssuerType::Acme, None, true),
        Err("contact email is required for ACME issuers".to_string())
    );
    assert_eq!(
        validate_acme_requirements(&IssuerType::Acme, Some(&blank), true),
        Err("contact email is required for ACME issuers".to_string())
    );
    assert_eq!(
        validate_acme_requirements(&IssuerType::Acme, Some(&email), false),
        Err("Terms of Service acceptance is required for ACME issuers".to_string())
    );
}

#[test]
fn labels_and_suffix_lists() {
    assert_eq!(validate_label("Main"), Ok(()));
    assert_eq!(validate_label(" \t"), Err("provider label is required".to_string()));
    assert_eq!(validate_domain_suffixes("b.com a.com").unwrap(), vec!["a.com", "b.com"]);
    match validate_domain_suffixes(" , ") {
        Err(e @ SuffixListError::Empty) => {
            assert_eq!(e.message(), "at least one domain suffix is required")
        }
        other => panic!("unexpected {:?}", other),
    }
    assert!(matches!(validate_domain_suffixes("bad\u{e000}.com"), Err(SuffixListError::Invalid(_))));
}

#[test]
fn token_checks() {
    assert_eq!(validate_cloudflare_token(200, "200 OK", Some(true)), Ok(()));
    assert_eq!(
        validate_cloudflare_token(403, "403 Forbidden", None),
        Err("Cloudflare authentication failed: invalid API token".to_string())
    );
    assert_eq!(
        validate_cloudflare_token(429, "429 Too Many Requests", None),
        Err("Cloudflare rate limit exceeded".to_string())
    );
    assert_eq!(
        validate_cloudflare_token(500, "500 Internal Server Error", None),
        Err("Cloudflare API error: 500 Internal Server Error".to_string())
    );
    assert_eq!(
        validate_cloudflare_token(200, "200 OK", Some(false)),
        Err("Cloudflare API returned unsuccessful response".to_string())
    );
    assert_eq!(
        validate_cloudflare_token(200, "200 OK", None),
        Err("Failed to parse Cloudflare zone list response".to_string())
    );
    assert_eq!(validate_digitalocean_token(204, "204 No Content", String::new()), Ok(()));
    assert_eq!(
        validate_digitalocean_token(401, "401 Unauthorized", "nope".to_string()),
        Err("DigitalOcean authentication failed".to_string())
    );
    assert_eq!(
        validate_digitalocean_token(404, "404 Not Found", "missing".to_string()),
        Err("DigitalOcean API error: missing".to_string())
    );
}

fn provider(config: Option<&str>) -> DnsProvider {
    DnsProvider {
        id: "p".to_string(),
        provider_type: "digitalocean".to_string(),
        label: "DO".to_string(),
        domain_suffixes: vec!["example.com".to_string()],
        secret_refs: vec!["sec_1".to_string()],
        config_json: config.map(|c| c.to_string()),
        created_at: "2024-01-01T00:00:00Z".to_string(),
        updated_at: "2024-02-01T00:00:00Z".to_string(),
    }
}

#[test]
fn provider_dtos() {
    let dto = provider_record_to_dto(provider(Some("{\"zone\":\"z.example.com\"}")));
    assert_eq!(dto.provider_type, DnsProviderType::DigitalOcean);
    assert_eq!(dto.config.as_deref(), Some("{\"zone\":\"z.example.com\"}"));
    assert_eq!(dto.updated_at, "2024-02-01T00:00:00Z");
    assert!(provider_record_to_dto(provider(Some("{not json"))).config.is_none());
    assert_eq!(
        provider_zone_override(&provider(Some("{\"zone\":\"z.example.com\"}"))),
        Some("z.example.com".to_string())
    );
    assert_eq!(provider_zone_override(&provider(Some("{\"zone\":3}"))), None);
    assert_eq!(provider_zone_override(&provider(None)), None);
    let res = DnsProviderResolution {
        provider: Some(provider(None)),
        matched_suffix: Some("example.com".to_string()),
        ambiguous: vec![provider(None), provider(None)],
    };
    let dto = resolution_to_dto(res);
    assert_eq!(dto.ambiguous.len(), 2);
    assert_eq!(dto.matched_suffix.as_deref(), Some("example.com"));
}

#[test]
fn issuer_dtos() {
    let record = IssuerConfigRecord {
        issuer_id: "i".to_string(),
        label: "LE".to_string(),
        directory_url: "https://acme".to_string(),
        environment: "production".to_string(),
        issuer_type: "acme".to_string(),
        params_json: "{}".to_string(),
        contact_email: Some("a@b.c".to_string()),
        account_key_ref: None,
        tos_agreed: true,
        is_selected: false,
        created_at: "2024-01-01T00:00:00Z".to_string(),
        updated_at: "2024-01-01T00:00:00Z".to_string(),
    };
    let dto = issuer_record_to_dto(record.clone());
    assert_eq!(dto.environment, IssuerEnvironment::Production);
    assert_eq!(dto.issuer_type, IssuerType::Acme);
    assert!(dto.tos_agreed);
    let staging = issuer_record_to_dto(IssuerConfigRecord { environment: "weird".to_string(), ..record });
    assert_eq!(staging.environment, IssuerEnvironment::Staging);
}

#[test]
fn certificate_names_shown_in_unicode() {
    let record = CertificateRecord {
        id: "cert_1".to_string(),
        subjects: vec!["xn--test-epa.fr".to_string()],
        sans: vec!["XN--TEST-EPA.FR.".to_string()],
        issuer: "R3".to_string(),
        serial: "01".to_string(),
        not_before: "2024-01-01T00:00:00Z".to_string(),
        not_after: "2024-04-01T00:00:00Z".to_string(),
        fingerprint: "ab".to_string(),
        source: CertificateSource::Managed,
        domain_roots: vec!["example.com".to_string()],
        tags: vec![],
        managed_key_ref: None,
        chain_pem: None,
        key_algorithm: None,
        key_size: None,
        key_curve: None,
    };
    let shown = record_for_display(record);
    assert_eq!(shown.subjects, vec!["testé.fr"]);
    assert_eq!(shown.sans, vec!["testé.fr"]);
    assert_eq!(shown.domain_roots, vec!["example.com"]);
}
