use sslboard_desktop::commands::categorize_dns_error;
use sslboard_desktop::types::DnsProviderErrorCategory;

#[test]
fn dns_provider_validation_categorizes_auth_errors() {
    let err = "authentication failed";
    assert!(matches!(
        categorize_dns_error(err),
        DnsProviderErrorCategory::AuthError
    ));
}

#[test]
fn dns_provider_validation_categorizes_not_found_errors() {
    let err = "zone not found";
    assert!(matches!(
        categorize_dns_error(err),
        DnsProviderErrorCategory::NotFound
    ));
}

#[test]
fn dns_provider_validation_categorizes_rate_limit_errors() {
    let err = "429 too many requests";
    assert!(matches!(
        categorize_dns_error(err),
        DnsProviderErrorCategory::RateLimited
    ));
}

#[test]
fn dns_provider_validation_categorizes_network_errors() {
    let err = "network timeout";
    assert!(matches!(
        categorize_dns_error(err),
        DnsProviderErrorCategory::NetworkError
    ));
}

#[test]
fn dns_provider_validation_categorizes_unknown_errors() {
    let err = "unexpected issue";
    assert!(matches!(
        categorize_dns_error(err),
        DnsProviderErrorCategory::Unknown
    ));
}

#[test]
fn dns_providers_categorizes_auth_errors() {
    let err = "authentication failed";
    assert!(matches!(
        categorize_dns_error(err),
        DnsProviderErrorCategory::AuthError
    ));
}

#[test]
fn dns_providers_categorizes_not_found_errors() {
    let err = "zone not found";
    assert!(matches!(
        categorize_dns_error(err),
        DnsProviderErrorCategory::NotFound
    ));
}

#[test]
fn dns_providers_categorizes_rate_limit_errors() {
    let err = "429 too many requests";
    assert!(matches!(
        categorize_dns_error(err),
        DnsProviderErrorCategory::RateLimited
    ));
}

#[test]
fn dns_providers_categorizes_network_errors() {
    let err = "network timeout";
    assert!(matches!(
        categorize_dns_error(err),
        DnsProviderErrorCategory::NetworkError
    ));
}

#[test]
fn dns_providers_categorizes_unknown_errors() {
    let err = "unexpected issue";
    assert!(matches!(
        categorize_dns_error(err),
        DnsProviderErrorCategory::Unknown
    ));
}

#[test]
fn dns_validation_categorizes_auth_errors() {
    let err = "authentication failed";
    assert!(matches!(
        categorize_dns_error(err),
        DnsProviderErrorCategory::AuthError
    ));
}

#[test]
fn dns_validation_categorizes_not_found_errors() {
    let err = "zone not found";
    assert!(matches!(
        categorize_dns_error(err),
        DnsProviderErrorCategory::NotFound
    ));
}

#[test]
fn dns_validation_categorizes_rate_limit_errors() {
    let err = "429 too many requests";
    assert!(matches!(
        categorize_dns_error(err),
        DnsProviderErrorCategory::RateLimited
    ));
}

#[test]
fn dns_validation_categorizes_network_errors() {
    let err = "network timeout";
    assert!(matches!(
        categorize_dns_error(err),
        DnsProviderErrorCategory::NetworkError
    ));
}

#[test]
fn dns_validation_categorizes_unknown_errors() {
    let err = "unexpected issue";
    assert!(matches!(
        categorize_dns_error(err),
        DnsProviderErrorCategory::Unknown
    ));
}

#[test]
fn categorize_is_case_insensitive_and_ordered() {
    assert_eq!(categorize_dns_error("FORBIDDEN: 404"), DnsProviderErrorCategory::AuthError);
    assert_eq!(categorize_dns_error("No Such Zone"), DnsProviderErrorCategory::NotFound);
    assert_eq!(categorize_dns_error("Rate Limit reached"), DnsProviderErrorCategory::RateLimited);
    assert_eq!(categorize_dns_error("DNS lookup failed"), DnsProviderErrorCategory::NetworkError);
}
