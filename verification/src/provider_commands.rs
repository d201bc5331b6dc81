//! The decisions of the DNS provider commands: which credentials a provider
//! is saved with, how they are labelled, how an update treats them, and what
//! a provider test reports at each stage.
use vstd::prelude::*;

use crate::commands::{categorize_dns_error, spec_error_category};
use crate::dns_config::{normalized_suffixes, suffix_pieces, suffixes_valid, text_views};
use crate::text::strictly_sorted;
use crate::dns::DnsPropagationResult;
use crate::secrets::{SecretError, SecretKind};
use crate::text::{cat, cat3, chars_of, string_of, trim_ws, trim_ws_chars, unicode_lowercase};
use crate::types::{
    DnsProviderErrorCategory, DnsProviderTestResult, DnsProviderTokenValidationResult, DnsProviderType,
    ValidateDnsProviderTokenRequest,
};

verus! {

/// A text that is present and not blank.
pub open spec fn filled(o: Option<String>) -> bool {
    match o {
        Some(s) => trim_ws(s@).len() > 0,
        None => false,
    }
}

fn is_filled(o: &Option<String>) -> (b: bool)
    ensures
        b == filled(*o),
{
    match o {
        Some(s) => trim_ws_chars(&chars_of(s.as_str())).len() > 0,
        None => false,
    }
}

/// The credentials a new provider is saved with.
#[derive(Debug)]
pub enum CredentialPlan {
    /// A manual provider keeps no secret.
    Nothing,
    /// One API token.
    Token { token: String },
    /// A Route 53 access key pair.
    Route53 { access_key: String, secret_key: String },
}

/// Decides the credentials of a new provider: Route 53 needs both keys, the
/// other automated providers an API token, a manual provider none; blank
/// values count as missing.
pub fn plan_create_credentials(
    provider_type: DnsProviderType,
    api_token: Option<String>,
    access_key: Option<String>,
    secret_key: Option<String>,
) -> (r: Result<CredentialPlan, String>)
    ensures
        provider_type == DnsProviderType::Manual ==> r matches Ok(CredentialPlan::Nothing),
        provider_type == DnsProviderType::Route53 ==> {
            &&& (!filled(access_key) ==> (r matches Err(m) && m@ == "Route 53 access key is required"@))
            &&& (filled(access_key) && !filled(secret_key) ==> (r matches Err(m) && m@
                == "Route 53 secret key is required"@))
            &&& (filled(access_key) && filled(secret_key) ==> (r matches Ok(
                CredentialPlan::Route53 { access_key: a, secret_key: s },
            ) && Some(a) == access_key && Some(s) == secret_key))
        },
        provider_type == DnsProviderType::Cloudflare || provider_type == DnsProviderType::DigitalOcean
            ==> {
            &&& (!filled(api_token) ==> (r matches Err(m) && m@
                == "API token is required for this provider"@))
            &&& (filled(api_token) ==> (r matches Ok(CredentialPlan::Token { token: t }) && Some(t)
                == api_token))
        },
{
    match provider_type {
        DnsProviderType::Manual => Ok(CredentialPlan::Nothing),
        DnsProviderType::Route53 => {
            if !is_filled(&access_key) {
                return Err("Route 53 access key is required".to_string());
            }
            if !is_filled(&secret_key) {
                return Err("Route 53 secret key is required".to_string());
            }
            match (access_key, secret_key) {
                (Some(a), Some(s)) => Ok(CredentialPlan::Route53 { access_key: a, secret_key: s }),
                _ => Err("Route 53 access key is required".to_string()),
            }
        },
        _ => {
            if !is_filled(&api_token) {
                return Err("API token is required for this provider".to_string());
            }
            match api_token {
                Some(t) => Ok(CredentialPlan::Token { token: t }),
                None => Err("API token is required for this provider".to_string()),
            }
        },
    }
}

/// The label of a provider credential of the given kind.
pub open spec fn spec_credential_label(kind: SecretKind, label: Seq<char>) -> Seq<char> {
    match kind {
        SecretKind::DnsProviderAccessKey => "Route 53 access key: "@ + trim_ws(label),
        SecretKind::DnsProviderSecretKey => "Route 53 secret key: "@ + trim_ws(label),
        _ => "DNS provider token: "@ + trim_ws(label),
    }
}

/// The label under which a provider credential is stored.
pub fn credential_label(kind: SecretKind, label: &str) -> (r: String)
    ensures
        r@ == spec_credential_label(kind, label@),
{
    let t = string_of(&trim_ws_chars(&chars_of(label)));
    match kind {
        SecretKind::DnsProviderAccessKey => cat("Route 53 access key: ", t.as_str()),
        SecretKind::DnsProviderSecretKey => cat("Route 53 secret key: ", t.as_str()),
        _ => cat("DNS provider token: ", t.as_str()),
    }
}

/// The label and suffixes of a provider being saved: the label trimmed and
/// not blank, the suffixes parsed (see `validate_domain_suffixes`).
pub fn prepare_provider_input(label: &str, domain_suffixes: &str) -> (r: Result<
    (String, Vec<String>),
    String,
>)
    ensures
        trim_ws(label@).len() == 0 ==> (r matches Err(m) && m@ == "provider label is required"@),
        trim_ws(label@).len() > 0 ==> {
            let pieces = suffix_pieces(domain_suffixes@);
            let set = normalized_suffixes(pieces, pieces.len() as int);
            &&& (r is Ok <==> suffixes_valid(pieces, pieces.len() as int) && set.len() > 0)
            &&& (r matches Ok(x) ==> x.0@ == trim_ws(label@) && strictly_sorted(text_views(x.1@))
                && text_views(x.1@).to_set() == set)
        },
{
    let tv = trim_ws_chars(&chars_of(label));
    if tv.len() == 0 {
        return Err("provider label is required".to_string());
    }
    let trimmed = string_of(&tv);
    match crate::commands::validate_domain_suffixes(domain_suffixes) {
        Ok(v) => Ok((trimmed, v)),
        Err(e) => Err(e.message()),
    }
}

/// What an update does with a provider's credentials.
#[derive(Debug)]
pub enum CredentialUpdate {
    /// Nothing new was given: the credentials stay.
    Keep,
    /// A new Route 53 key pair replaces every stored credential.
    ReplaceRoute53 { delete: Vec<String>, access_key: String, secret_key: String },
    /// The stored token is overwritten.
    UpdateToken { secret_ref: String, token: String },
    /// A first token is created.
    CreateToken { token: String },
}

/// Decides what an update does with the credentials of a provider of the
/// given type: a Route 53 provider changes only when both keys are given,
/// other providers when a token is given (overwriting the first stored
/// credential, or creating one).
pub fn plan_update_credentials(
    provider_type: DnsProviderType,
    secret_refs: &Vec<String>,
    api_token: Option<String>,
    access_key: Option<String>,
    secret_key: Option<String>,
) -> (r: CredentialUpdate)
    ensures
        provider_type == DnsProviderType::Route53 ==> {
            &&& (filled(access_key) && filled(secret_key) ==> (r matches CredentialUpdate::ReplaceRoute53 {
                delete: d,
                access_key: a,
                secret_key: s,
            } && d@ == secret_refs@ && Some(a) == access_key && Some(s) == secret_key))
            &&& (!(filled(access_key) && filled(secret_key)) ==> r is Keep)
        },
        provider_type != DnsProviderType::Route53 ==> {
            &&& (!filled(api_token) ==> r is Keep)
            &&& (filled(api_token) && secret_refs@.len() > 0 ==> (r matches CredentialUpdate::UpdateToken {
                secret_ref: f,
                token: t,
            } && f == secret_refs@[0] && Some(t) == api_token))
            &&& (filled(api_token) && secret_refs@.len() == 0 ==> (r matches CredentialUpdate::CreateToken {
                token: t,
            } && Some(t) == api_token))
        },
{
    match provider_type {
        DnsProviderType::Route53 => {
            if is_filled(&access_key) && is_filled(&secret_key) {
                match (access_key, secret_key) {
                    (Some(a), Some(s)) => CredentialUpdate::ReplaceRoute53 {
                        delete: crate::dns_config::copy_strings(secret_refs),
                        access_key: a,
                        secret_key: s,
                    },
                    _ => CredentialUpdate::Keep,
                }
            } else {
                CredentialUpdate::Keep
            }
        },
        _ => {
            if !is_filled(&api_token) {
                return CredentialUpdate::Keep;
            }
            match api_token {
                Some(t) => if secret_refs.len() > 0 {
                    CredentialUpdate::UpdateToken { secret_ref: secret_refs[0].clone(), token: t }
                } else {
                    CredentialUpdate::CreateToken { token: t }
                },
                None => CredentialUpdate::Keep,
            }
        },
    }
}

/// Deleting a credential that is already gone is not an error; any other
/// failure is reported with its message.
pub fn tolerate_missing_secret(r: Result<(), SecretError>) -> (out: Result<(), String>)
    ensures
        r is Ok ==> out is Ok,
        r matches Err(SecretError::NotFound(_)) ==> out is Ok,
        r matches Err(e) ==> (!(e is NotFound) ==> (out matches Err(m) && m@
            == crate::secrets::spec_secret_error_message(e))),
{
    match r {
        Ok(()) => Ok(()),
        Err(SecretError::NotFound(_)) => Ok(()),
        Err(e) => Err(e.message()),
    }
}

// ---------------------------------------------------------------------------
// Provider tests
// ---------------------------------------------------------------------------

/// The first ten characters of the random text used in test records.
pub open spec fn test_tag(random: Seq<char>) -> Seq<char> {
    random.take(10)
}

/// The record a provider test creates: `_sslboard-test-<tag>.<first suffix>`
/// holding `sslboard-test-<tag>`, where the tag is the first ten characters
/// of a random text. A provider without suffixes cannot be tested.
pub fn test_record(domain_suffixes: &Vec<String>, random: &str) -> (r: Result<(String, String), String>)
    requires
        random@.len() >= 10,
    ensures
        domain_suffixes@.len() == 0 ==> (r matches Err(m) && m@ == "provider has no domain suffixes"@),
        domain_suffixes@.len() > 0 ==> (r matches Ok(x) && x.0@ == "_sslboard-test-"@ + test_tag(random@)
            + "."@ + domain_suffixes@[0]@ && x.1@ == "sslboard-test-"@ + test_tag(random@)),
{
    if domain_suffixes.len() == 0 {
        return Err("provider has no domain suffixes".to_string());
    }
    let chars = chars_of(random);
    let tag = string_of(&crate::text::slice_copy(&chars, 0, 10));
    assert(tag@ =~= random@.take(10));
    let head = cat3("_sslboard-test-", tag.as_str(), ".");
    let name = cat(head.as_str(), domain_suffixes[0].as_str());
    let value = cat("sslboard-test-", tag.as_str());
    Ok((name, value))
}

pub open spec fn some_text(o: Option<String>, t: Seq<char>) -> bool {
    o matches Some(s) && s@ == t
}

/// The result of a test whose record could not be created.
pub fn test_failed_at_create(
    record_name: String,
    value: String,
    error: String,
    elapsed_ms: u64,
    create_ms: u64,
) -> (r: DnsProviderTestResult)
    ensures
        !r.success,
        r.record_name == Some(record_name),
        r.value == Some(value),
        r.propagation is None,
        r.error == Some(error),
        r.error_category == Some(spec_error_category(unicode_lowercase(error@))),
        some_text(r.error_stage, "create"@),
        r.elapsed_ms == elapsed_ms,
        r.create_ms == Some(create_ms),
        r.propagation_ms is None,
        r.cleanup_ms is None,
{
    let category = categorize_dns_error(error.as_str());
    DnsProviderTestResult {
        success: false,
        record_name: Some(record_name),
        value: Some(value),
        propagation: None,
        error: Some(error),
        error_category: Some(category),
        error_stage: Some("create".to_string()),
        elapsed_ms,
        create_ms: Some(create_ms),
        propagation_ms: None,
        cleanup_ms: None,
    }
}

/// The result of a test whose propagation check failed: the record was then
/// removed, and a failed removal is what is reported.
pub fn test_failed_at_propagation(
    record_name: String,
    value: String,
    poll_error: String,
    cleanup: Result<(), String>,
    elapsed_ms: u64,
    create_ms: u64,
    propagation_ms: u64,
    cleanup_ms: u64,
) -> (r: DnsProviderTestResult)
    ensures
        !r.success,
        r.record_name == Some(record_name),
        r.value == Some(value),
        r.propagation is None,
        cleanup matches Err(c) ==> (r.error == Some(c) && r.error_category == Some(
            spec_error_category(unicode_lowercase(c@)),
        ) && some_text(r.error_stage, "cleanup"@)),
        cleanup is Ok ==> (r.error == Some(poll_error) && r.error_category == Some(
            spec_error_category(unicode_lowercase(poll_error@)),
        ) && some_text(r.error_stage, "propagation"@)),
        r.elapsed_ms == elapsed_ms,
        r.create_ms == Some(create_ms),
        r.propagation_ms == Some(propagation_ms),
        r.cleanup_ms == Some(cleanup_ms),
{
    let (error, stage) = match cleanup {
        Err(c) => (c, "cleanup".to_string()),
        Ok(()) => (poll_error, "propagation".to_string()),
    };
    let category = categorize_dns_error(error.as_str());
    DnsProviderTestResult {
        success: false,
        record_name: Some(record_name),
        value: Some(value),
        propagation: None,
        error: Some(error),
        error_category: Some(category),
        error_stage: Some(stage),
        elapsed_ms,
        create_ms: Some(create_ms),
        propagation_ms: Some(propagation_ms),
        cleanup_ms: Some(cleanup_ms),
    }
}

/// The result of a test whose propagation check ran to the end: it succeeded
/// exactly when the record was found. Cleanup runs in the background.
pub fn test_completed(
    record_name: String,
    value: String,
    propagation: DnsPropagationResult,
    elapsed_ms: u64,
    create_ms: u64,
    propagation_ms: u64,
) -> (r: DnsProviderTestResult)
    ensures
        r.success == (propagation.state == crate::dns::PropagationState::Found),
        r.record_name == Some(record_name),
        r.value == Some(value),
        r.propagation == Some(propagation),
        r.error is None,
        r.error_category is None,
        r.error_stage is None,
        r.elapsed_ms == elapsed_ms,
        r.create_ms == Some(create_ms),
        r.propagation_ms == Some(propagation_ms),
        r.cleanup_ms is None,
{
    let success = match propagation.state {
        crate::dns::PropagationState::Found => true,
        _ => false,
    };
    DnsProviderTestResult {
        success,
        record_name: Some(record_name),
        value: Some(value),
        propagation: Some(propagation),
        error: None,
        error_category: None,
        error_stage: None,
        elapsed_ms,
        create_ms: Some(create_ms),
        propagation_ms: Some(propagation_ms),
        cleanup_ms: None,
    }
}

/// What checking a provider's credentials without saving them asks of the
/// provider's API.
#[derive(Debug)]
pub enum TokenCheck {
    /// List the zones with the token.
    Cloudflare { token: String },
    /// List the domains with the token.
    DigitalOcean { token: String },
    /// List the hosted zones with the key pair.
    Route53 { access_key: String, secret_key: String },
    /// Nothing to ask: the check fails with this message.
    NoCheck { error: String },
}

/// The check for a token validation request: the credentials the provider
/// type needs must be present and not blank (they are handed on as given).
/// A manual provider has nothing to check.
pub fn token_check_plan(req: &ValidateDnsProviderTokenRequest) -> (r: Result<TokenCheck, String>)
    ensures
        req.provider_type == DnsProviderType::Cloudflare ==> {
            &&& (filled(req.api_token) ==> (r matches Ok(TokenCheck::Cloudflare { token }) && Some(token)
                == req.api_token))
            &&& (!filled(req.api_token) ==> (r matches Err(m) && m@ == "API token is required for Cloudflare"@))
        },
        req.provider_type == DnsProviderType::DigitalOcean ==> {
            &&& (filled(req.api_token) ==> (r matches Ok(TokenCheck::DigitalOcean { token }) && Some(token)
                == req.api_token))
            &&& (!filled(req.api_token) ==> (r matches Err(m) && m@ == "API token is required for DigitalOcean"@))
        },
        req.provider_type == DnsProviderType::Route53 ==> {
            &&& (!filled(req.route53_access_key) ==> (r matches Err(m) && m@
                == "Route 53 access key is required"@))
            &&& (filled(req.route53_access_key) && !filled(req.route53_secret_key) ==> (r matches Err(m) && m@
                == "Route 53 secret key is required"@))
            &&& (filled(req.route53_access_key) && filled(req.route53_secret_key) ==> (r matches Ok(
                TokenCheck::Route53 { access_key, secret_key },
            ) && Some(access_key) == req.route53_access_key && Some(secret_key) == req.route53_secret_key))
        },
        req.provider_type == DnsProviderType::Manual ==> (r matches Ok(TokenCheck::NoCheck { error }) && error@
            == "manual DNS providers do not require token validation"@),
{
    match req.provider_type {
        DnsProviderType::Cloudflare => match &req.api_token {
            Some(t) if is_filled(&req.api_token) => Ok(TokenCheck::Cloudflare { token: t.clone() }),
            _ => Err("API token is required for Cloudflare".to_string()),
        },
        DnsProviderType::DigitalOcean => match &req.api_token {
            Some(t) if is_filled(&req.api_token) => Ok(TokenCheck::DigitalOcean { token: t.clone() }),
            _ => Err("API token is required for DigitalOcean".to_string()),
        },
        DnsProviderType::Route53 => {
            let access_key = match &req.route53_access_key {
                Some(k) if is_filled(&req.route53_access_key) => k.clone(),
                _ => return Err("Route 53 access key is required".to_string()),
            };
            let secret_key = match &req.route53_secret_key {
                Some(k) if is_filled(&req.route53_secret_key) => k.clone(),
                _ => return Err("Route 53 secret key is required".to_string()),
            };
            Ok(TokenCheck::Route53 { access_key, secret_key })
        },
        DnsProviderType::Manual => Ok(
            TokenCheck::NoCheck { error: "manual DNS providers do not require token validation".to_string() },
        ),
    }
}

/// The answer to a token validation from the outcome of the check: success,
/// or the error with its category.
pub fn token_validation_result(outcome: Result<(), String>) -> (r: DnsProviderTokenValidationResult)
    ensures
        outcome is Ok ==> r.success && r.error is None && r.error_category is None,
        outcome matches Err(e) ==> !r.success && r.error == Some(e) && r.error_category == Some(
            spec_error_category(unicode_lowercase(e@)),
        ),
{
    match outcome {
        Ok(()) => DnsProviderTokenValidationResult { success: true, error: None, error_category: None },
        Err(e) => {
            let category = categorize_dns_error(e.as_str());
            DnsProviderTokenValidationResult { success: false, error: Some(e), error_category: Some(category) }
        },
    }
}

} // verus!
