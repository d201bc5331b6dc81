use sslboard_desktop::provider_commands::{token_check_plan, token_validation_result, TokenCheck};
use sslboard_desktop::text::to_lowercase;
use sslboard_desktop::types::{DnsProviderErrorCategory, DnsProviderType, ValidateDnsProviderTokenRequest};

fn request(
    provider_type: DnsProviderType,
    api_token: Option<&str>,
    access_key: Option<&str>,
    secret_key: Option<&str>,
) -> ValidateDnsProviderTokenRequest {
    ValidateDnsProviderTokenRequest {
        provider_type,
        api_token: api_token.map(|s| s.to_string()),
        route53_access_key: access_key.map(|s| s.to_string()),
        route53_secret_key: secret_key.map(|s| s.to_string()),
    }
}

#[test]
fn token_checks_need_the_credentials() {
    let err = token_check_plan(&request(DnsProviderType::Cloudflare, Some("   "), None, None)).unwrap_err();
    assert_eq!(err, "API token is required for Cloudflare");
    let err = token_check_plan(&request(DnsProviderType::DigitalOcean, None, None, None)).unwrap_err();
    assert_eq!(err, "API token is required for DigitalOcean");
    let err = token_check_plan(&request(DnsProviderType::Route53, None, None, Some("s"))).unwrap_err();
    assert_eq!(err, "Route 53 access key is required");
    let err = token_check_plan(&request(DnsProviderType::Route53, None, Some("a"), Some(" "))).unwrap_err();
    assert_eq!(err, "Route 53 secret key is required");
}

#[test]
fn token_checks_hand_on_the_credentials_as_given() {
    match token_check_plan(&request(DnsProviderType::Cloudflare, Some(" tok "), None, None)).unwrap() {
        TokenCheck::Cloudflare { token } => assert_eq!(token, " tok "),
        other => panic!("{other:?}"),
    }
    match token_check_plan(&request(DnsProviderType::DigitalOcean, Some("do"), None, None)).unwrap() {
        TokenCheck::DigitalOcean { token } => assert_eq!(token, "do"),
        other => panic!("{other:?}"),
    }
    match token_check_plan(&request(DnsProviderType::Route53, None, Some("a"), Some("s"))).unwrap() {
        TokenCheck::Route53 { access_key, secret_key } => assert_eq!((access_key, secret_key), ("a".to_string(), "s".to_string())),
        other => panic!("{other:?}"),
    }
    match token_check_plan(&request(DnsProviderType::Manual, Some("x"), None, None)).unwrap() {
        TokenCheck::NoCheck { error } => assert_eq!(error, "manual DNS providers do not require token validation"),
        other => panic!("{other:?}"),
    }
}

#[test]
fn token_validation_results_carry_the_category() {
    let ok = token_validation_result(Ok(()));
    assert!(ok.success && ok.error.is_none() && ok.error_category.is_none());
    let failed = token_validation_result(Err("Cloudflare authentication failed: invalid API token".to_string()));
    assert!(!failed.success);
    assert_eq!(failed.error.as_deref(), Some("Cloudflare authentication failed: invalid API token"));
    assert_eq!(failed.error_category, Some(DnsProviderErrorCategory::AuthError));
    let manual = token_validation_result(Err("manual DNS providers do not require token validation".to_string()));
    // "DNS" in the message reads as a network error.
    assert_eq!(manual.error_category, Some(DnsProviderErrorCategory::NetworkError));
    let other = token_validation_result(Err("Route 53 API client is not part of this build".to_string()));
    assert_eq!(other.error_category, Some(DnsProviderErrorCategory::Unknown));
    let limited = token_validation_result(Err("Cloudflare rate limit exceeded".to_string()));
    assert_eq!(limited.error_category, Some(DnsProviderErrorCategory::RateLimited));
}

#[test]
fn ascii_text_lowercases_letter_by_letter() {
    assert_eq!(to_lowercase("Zone NOT Found: 404 [A-Z]@"), "zone not found: 404 [a-z]@");
    assert_eq!(to_lowercase(""), "");
}
