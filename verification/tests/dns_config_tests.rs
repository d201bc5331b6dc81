use sslboard_desktop::dns_config::{
    matches_suffix, normalize_hostname, parse_domain_suffixes, resolve_provider_for_domain,
    DnsProvider,
};
use sslboard_desktop::providers::{adapter_for_provider, secrets_needed, ProviderAdapter};

#[test]
fn matches_idn_suffix_with_unicode_input() {
    let hostname = normalize_hostname("testé.fr").expect("normalize hostname");
    assert!(matches_suffix(&hostname, "testé.fr"));
    assert!(matches_suffix(&hostname, "xn--test-epa.fr"));
}

#[test]
fn matches_idn_suffix_for_subdomain() {
    let hostname = normalize_hostname("sub.testé.fr").expect("normalize hostname");
    assert!(matches_suffix(&hostname, "testé.fr"));
    assert!(matches_suffix(&hostname, "xn--test-epa.fr"));
}

#[test]
fn suffix_matching_edges() {
    assert!(!matches_suffix("example.com", ""));
    assert!(!matches_suffix("badexample.com", "example.com"));
    assert!(matches_suffix("a.example.com", "*.example.com"));
}

#[test]
fn suffix_lists_are_split_normalized_sorted_and_deduplicated() {
    let parsed = parse_domain_suffixes("b.com, a.com  *.B.com\n.a.com.,,").unwrap();
    assert_eq!(parsed, vec!["a.com".to_string(), "b.com".to_string()]);
    assert_eq!(parse_domain_suffixes("").unwrap(), Vec::<String>::new());
    assert!(parse_domain_suffixes("ok.com bad\u{e000}.com").is_err());
}

#[test]
fn parsed_suffix_lists_reparse_to_themselves() {
    let parsed = parse_domain_suffixes("z.org, testé.fr a.com").unwrap();
    let again = parse_domain_suffixes(&parsed.join(",")).unwrap();
    assert_eq!(parsed, again);
}

fn provider(id: &str, kind: &str, suffixes: &[&str], refs: &[&str]) -> DnsProvider {
    DnsProvider {
        id: id.to_string(),
        provider_type: kind.to_string(),
        label: id.to_string(),
        domain_suffixes: suffixes.iter().map(|s| s.to_string()).collect(),
        secret_refs: refs.iter().map(|s| s.to_string()).collect(),
        config_json: None,
        created_at: "2024-01-01T00:00:00Z".to_string(),
        updated_at: "2024-01-01T00:00:00Z".to_string(),
    }
}

#[test]
fn resolution_prefers_longest_suffix_then_smallest_id() {
    let providers = vec![
        provider("p3", "cloudflare", &["example.com"], &[]),
        provider("p2", "route53", &["sub.example.com"], &[]),
        provider("p1", "manual", &["sub.example.com", "other.org"], &[]),
    ];
    let res = resolve_provider_for_domain(&providers, "www.sub.example.com").unwrap();
    assert_eq!(res.provider.as_ref().unwrap().id, "p1");
    assert_eq!(res.matched_suffix.as_deref(), Some("sub.example.com"));
    let ids: Vec<&str> = res.ambiguous.iter().map(|p| p.id.as_str()).collect();
    assert_eq!(ids, vec!["p1", "p2"]);

    let none = resolve_provider_for_domain(&providers, "unrelated.net").unwrap();
    assert!(none.provider.is_none());
    assert!(none.matched_suffix.is_none());
    assert!(none.ambiguous.is_empty());

    assert!(resolve_provider_for_domain(&providers, " . ").is_err());
}

#[test]
fn adapters_follow_provider_type_and_secrets() {
    let cf = provider("c", "cloudflare", &["example.com"], &["sec_1"]);
    assert_eq!(secrets_needed(&cf), 1);
    match adapter_for_provider(&cf, &[Ok(b"token".to_vec())]) {
        ProviderAdapter::Cloudflare(a) => {
            assert_eq!(a.api_token, "token");
            assert_eq!(a.domain_suffix, "example.com");
        }
        other => panic!("unexpected adapter {:?}", other),
    }
    match adapter_for_provider(&cf, &[Ok(vec![0xff, 0xfe])]) {
        ProviderAdapter::Unsupported(a) => assert_eq!(a.reason, "Failed to decode Cloudflare API token"),
        other => panic!("unexpected adapter {:?}", other),
    }
    match adapter_for_provider(&cf, &[Err("secret vault is locked: x".to_string())]) {
        ProviderAdapter::Unsupported(a) => {
            assert_eq!(a.reason, "Failed to resolve Cloudflare API token: secret vault is locked: x")
        }
        other => panic!("unexpected adapter {:?}", other),
    }
    let r53 = provider("r", "route53", &[], &["sec_a", "sec_b"]);
    assert_eq!(secrets_needed(&r53), 2);
    match adapter_for_provider(&r53, &[Ok(b"AK".to_vec()), Ok(b"SK".to_vec())]) {
        ProviderAdapter::Route53(a) => {
            assert_eq!(a.access_key, "AK");
            assert_eq!(a.secret_key, "SK");
            assert_eq!(a.domain_suffix, "");
        }
        other => panic!("unexpected adapter {:?}", other),
    }
    let short = provider("r", "route53", &[], &["sec_a"]);
    assert_eq!(secrets_needed(&short), 0);
    match adapter_for_provider(&short, &[]) {
        ProviderAdapter::Unsupported(a) => {
            assert_eq!(a.reason, "Route 53 provider missing access key or secret key")
        }
        other => panic!("unexpected adapter {:?}", other),
    }
    match adapter_for_provider(&provider("m", "manual", &[], &[]), &[]) {
        ProviderAdapter::Unsupported(a) => assert_eq!(
            a.reason,
            "manual DNS providers do not support automated test connections"
        ),
        other => panic!("unexpected adapter {:?}", other),
    }
    match adapter_for_provider(&provider("x", "gandi", &[], &[]), &[]) {
        ProviderAdapter::Unsupported(a) => {
            assert_eq!(a.reason, "provider type 'gandi' does not have an adapter yet")
        }
        other => panic!("unexpected adapter {:?}", other),
    }
}
