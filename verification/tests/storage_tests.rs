use sslboard_desktop::dns_config::DnsProvider;
use sslboard_desktop::migration::{group_legacy_mappings, instant_to_rfc3339, migrated_label, LegacyMapping};
use sslboard_desktop::storage::{
    decode_secret_refs, encode_secret_refs, provider_from_row, provider_to_row, record_from_row,
    record_to_row, source_from_db, source_to_db, CertificateRow,
};
use sslboard_desktop::types::{CertificateRecord, CertificateSource, KeyAlgorithm, KeyCurve};

fn record() -> CertificateRecord {
    CertificateRecord {
        id: "cert_1".to_string(),
        subjects: vec!["a.example.com".to_string(), "b.example.com".to_string()],
        sans: vec!["a.example.com".to_string()],
        issuer: "R3".to_string(),
        serial: "0A".to_string(),
        not_before: "2024-01-01T00:00:00+00:00".to_string(),
        not_after: "2024-04-01T00:00:00+00:00".to_string(),
        fingerprint: "ff".to_string(),
        source: CertificateSource::Managed,
        domain_roots: vec!["example.com".to_string()],
        tags: vec!["prod".to_string()],
        managed_key_ref: Some("sec_k".to_string()),
        chain_pem: None,
        key_algorithm: Some(KeyAlgorithm::Ecdsa),
        key_size: None,
        key_curve: Some(KeyCurve::P256),
    }
}

#[test]
fn certificate_rows_round_trip() {
    let rec = record();
    let row = record_to_row(&rec).unwrap();
    assert_eq!(row.source, "Managed");
    assert_eq!(row.subjects, "[\"a.example.com\",\"b.example.com\"]");
    assert_eq!(row.key_algorithm.as_deref(), Some("ecdsa"));
    let back = record_from_row(row).unwrap();
    assert_eq!(back.subjects, rec.subjects);
    assert_eq!(back.tags, rec.tags);
    assert_eq!(back.key_curve, rec.key_curve);
    assert_eq!(back.source, rec.source);
}

fn row() -> CertificateRow {
    record_to_row(&record()).unwrap()
}

#[test]
fn certificate_row_errors() {
    let r = CertificateRow { source: "Other".to_string(), ..row() };
    assert_eq!(record_from_row(r).unwrap_err(), "Unknown certificate source: Other");
    let r = CertificateRow { not_before: "yesterday".to_string(), ..row() };
    assert_eq!(record_from_row(r).unwrap_err(), "failed to parse not_before timestamp");
    let r = CertificateRow { not_after: "".to_string(), ..row() };
    assert_eq!(record_from_row(r).unwrap_err(), "failed to parse not_after timestamp");
    let r = CertificateRow { sans: "{".to_string(), ..row() };
    assert_eq!(record_from_row(r).unwrap_err(), "failed to deserialize sans");
    let r = CertificateRow { key_curve: Some("p521".to_string()), ..row() };
    assert_eq!(record_from_row(r).unwrap_err(), "Unknown key curve: p521");
    assert_eq!(source_from_db(source_to_db(CertificateSource::External)), Ok(CertificateSource::External));
}

#[test]
fn secret_refs_round_trip() {
    let refs = vec!["sec_a".to_string(), "sec_b".to_string()];
    let stored = encode_secret_refs(&refs).unwrap();
    assert_eq!(stored.as_deref(), Some("[\"sec_a\",\"sec_b\"]"));
    assert_eq!(decode_secret_refs(stored), refs);
    assert_eq!(encode_secret_refs(&vec![]).unwrap(), None);
    assert_eq!(decode_secret_refs(None), Vec::<String>::new());
    assert_eq!(decode_secret_refs(Some("sec_legacy".to_string())), vec!["sec_legacy"]);
    assert_eq!(decode_secret_refs(Some("  [broken".to_string())), vec!["  [broken"]);
}

#[test]
fn provider_rows_round_trip() {
    let p = DnsProvider {
        id: "dns_prov_1".to_string(),
        provider_type: "cloudflare".to_string(),
        label: "CF".to_string(),
        domain_suffixes: vec!["example.com".to_string()],
        secret_refs: vec!["sec_1".to_string()],
        config_json: Some("{\"zone\":\"example.com\"}".to_string()),
        created_at: "2024-01-01T00:00:00Z".to_string(),
        updated_at: "2024-01-02T00:00:00Z".to_string(),
    };
    let row = provider_to_row(&p).unwrap();
    let back = provider_from_row(row.clone()).unwrap();
    assert_eq!(back.domain_suffixes, p.domain_suffixes);
    assert_eq!(back.secret_refs, p.secret_refs);
    let bad = provider_from_row(sslboard_desktop::storage::ProviderRow {
        domain_suffixes: "nope".to_string(),
        ..row
    })
    .unwrap_err();
    assert!(bad.starts_with("failed to parse domain_suffixes for provider dns_prov_1: "));
}

fn mapping(pattern: &str, adapter: &str, secret: Option<&str>, zone: Option<&str>, created: &str) -> LegacyMapping {
    LegacyMapping {
        hostname_pattern: pattern.to_string(),
        zone: zone.map(|z| z.to_string()),
        adapter_id: adapter.to_string(),
        secret_ref: secret.map(|s| s.to_string()),
        created_at: created.to_string(),
        updated_at: created.to_string(),
    }
}

#[test]
fn legacy_mappings_are_grouped() {
    let now = (2_000_000_000i64, 0u32);
    let rows = vec![
        mapping("*.b.com", "cloudflare", Some("sec_1"), None, "2024-01-02T00:00:00Z"),
        mapping("*", "cloudflare", Some("sec_1"), None, "2024-01-01T00:00:00Z"),
        mapping("a.com", "cloudflare", Some("sec_1"), Some("zone.a.com"), "2023-06-01T00:00:00Z"),
        mapping("b.com", "cloudflare", Some("sec_1"), Some("other"), "not a time"),
        mapping("c.org", "manual", None, None, "2024-01-03T00:00:00Z"),
    ];
    let groups = group_legacy_mappings(&rows, now);
    assert_eq!(groups.len(), 2);
    assert_eq!(groups[0].adapter_id, "cloudflare");
    assert_eq!(groups[0].domain_suffixes, vec!["a.com", "b.com"]);
    assert_eq!(groups[0].zone_override.as_deref(), Some("zone.a.com"));
    assert_eq!(instant_to_rfc3339(groups[0].created_at).unwrap(), "2023-06-01T00:00:00+00:00");
    assert_eq!(groups[0].updated_at, now);
    assert_eq!(groups[1].adapter_id, "manual");
    assert_eq!(migrated_label("cloudflare", 0), "Migrated cloudflare");
    assert_eq!(migrated_label("manual", 1), "Migrated manual (2)");
}
