//! The rules behind the user-facing commands: names of provider types,
//! environments and issuer types, validation of user input, the reading of
//! provider API answers when a token is checked, error categories, and the
//! records shown to the user.
use vstd::prelude::*;

use crate::dns_config::{
    parse_domain_suffixes, suffix_pieces, suffixes_valid, normalized_suffixes, text_views,
    DnsProvider, DnsProviderResolution, DnsProviderView,
};
use crate::domain::{display_form, normalize_domains_for_display, DomainError};
use crate::providers::{spec_status_error, status_error};
use crate::text::{
    cat, chars_of, contains, str_contains, str_eq, strictly_sorted, to_lowercase, trim_ws,
    trim_ws_chars, unicode_lowercase,
};
use crate::types::{
    CertificateRecord, DnsProviderDto, DnsProviderErrorCategory, DnsProviderResolutionDto,
    DnsProviderType, IssuerConfigDto, IssuerEnvironment, IssuerType,
};

verus! {

// ---------------------------------------------------------------------------
// Names
// ---------------------------------------------------------------------------

pub open spec fn spec_provider_type_name(t: DnsProviderType) -> Seq<char> {
    match t {
        DnsProviderType::Cloudflare => "cloudflare"@,
        DnsProviderType::DigitalOcean => "digitalocean"@,
        DnsProviderType::Route53 => "route53"@,
        DnsProviderType::Manual => "manual"@,
    }
}

/// A stored provider type; anything unknown is a manual provider.
pub open spec fn spec_provider_type_of(raw: Seq<char>) -> DnsProviderType {
    if raw == "cloudflare"@ {
        DnsProviderType::Cloudflare
    } else if raw == "digitalocean"@ {
        DnsProviderType::DigitalOcean
    } else if raw == "route53"@ {
        DnsProviderType::Route53
    } else {
        DnsProviderType::Manual
    }
}

/// The name under which a provider type is stored.
pub fn provider_type_to_string(provider_type: &DnsProviderType) -> (r: String)
    ensures
        r@ == spec_provider_type_name(*provider_type),
{
    match provider_type {
        DnsProviderType::Cloudflare => "cloudflare".to_string(),
        DnsProviderType::DigitalOcean => "digitalocean".to_string(),
        DnsProviderType::Route53 => "route53".to_string(),
        DnsProviderType::Manual => "manual".to_string(),
    }
}

/// The provider type stored under a name.
pub fn provider_type_from_string(raw: &str) -> (r: DnsProviderType)
    ensures
        r == spec_provider_type_of(raw@),
{
    if str_eq(raw, "cloudflare") {
        DnsProviderType::Cloudflare
    } else if str_eq(raw, "digitalocean") {
        DnsProviderType::DigitalOcean
    } else if str_eq(raw, "route53") {
        DnsProviderType::Route53
    } else {
        DnsProviderType::Manual
    }
}

/// Every provider type reads back from its stored name.
pub proof fn lemma_provider_type_round_trip(t: DnsProviderType)
    ensures
        spec_provider_type_of(spec_provider_type_name(t)) == t,
{
    reveal_strlit("cloudflare");
    reveal_strlit("digitalocean");
    reveal_strlit("route53");
    reveal_strlit("manual");
    let n = spec_provider_type_name(t);
    match t {
        DnsProviderType::Cloudflare => {},
        DnsProviderType::DigitalOcean => {
            assert(n[0] != "cloudflare"@[0]);
        },
        DnsProviderType::Route53 => {
            assert(n[0] != "cloudflare"@[0]);
            assert(n[0] != "digitalocean"@[0]);
        },
        DnsProviderType::Manual => {
            assert(n[0] != "cloudflare"@[0]);
            assert(n[0] != "digitalocean"@[0]);
            assert(n[0] != "route53"@[0]);
        },
    }
}

pub open spec fn spec_environment_name(e: IssuerEnvironment) -> Seq<char> {
    match e {
        IssuerEnvironment::Production => "production"@,
        IssuerEnvironment::Staging => "staging"@,
    }
}

/// A stored environment: "production", else staging.
pub open spec fn spec_environment_of(raw: Seq<char>) -> IssuerEnvironment {
    if raw == "production"@ {
        IssuerEnvironment::Production
    } else {
        IssuerEnvironment::Staging
    }
}

/// The name under which an issuer environment is stored.
pub fn environment_to_string(environment: &IssuerEnvironment) -> (r: String)
    ensures
        r@ == spec_environment_name(*environment),
{
    match environment {
        IssuerEnvironment::Production => "production".to_string(),
        IssuerEnvironment::Staging => "staging".to_string(),
    }
}

/// The issuer environment stored under a name.
pub fn environment_from_string(raw: &str) -> (r: IssuerEnvironment)
    ensures
        r == spec_environment_of(raw@),
{
    if str_eq(raw, "production") {
        IssuerEnvironment::Production
    } else {
        IssuerEnvironment::Staging
    }
}

/// Every environment reads back from its stored name.
pub proof fn lemma_environment_round_trip(e: IssuerEnvironment)
    ensures
        spec_environment_of(spec_environment_name(e)) == e,
{
    reveal_strlit("production");
    reveal_strlit("staging");
    if e is Staging {
        assert(spec_environment_name(e)[0] != "production"@[0]);
    }
}

/// The name under which an issuer type is stored.
pub fn issuer_type_to_string(issuer_type: &IssuerType) -> (r: String)
    ensures
        r@ == "acme"@,
{
    match issuer_type {
        IssuerType::Acme => "acme".to_string(),
    }
}

// ---------------------------------------------------------------------------
// Validation
// ---------------------------------------------------------------------------

/// ACME issuers need a contact email that is not blank, then acceptance of
/// the terms of service.
pub fn validate_acme_requirements(
    issuer_type: &IssuerType,
    contact_email: Option<&String>,
    tos_agreed: bool,
) -> (r: Result<(), String>)
    ensures
        (match contact_email {
            None => true,
            Some(e) => trim_ws(e@).len() == 0,
        }) ==> (r matches Err(m) && m@ == "contact email is required for ACME issuers"@),
        (match contact_email {
            None => false,
            Some(e) => trim_ws(e@).len() > 0,
        }) ==> (tos_agreed ==> r is Ok) && (!tos_agreed ==> (r matches Err(m) && m@
            == "Terms of Service acceptance is required for ACME issuers"@)),
{
    match issuer_type {
        IssuerType::Acme => {
            let blank = match contact_email {
                None => true,
                Some(e) => trim_ws_chars(&chars_of(e.as_str())).len() == 0,
            };
            if blank {
                return Err("contact email is required for ACME issuers".to_string());
            }
            if !tos_agreed {
                return Err("Terms of Service acceptance is required for ACME issuers".to_string());
            }
        },
    }
    Ok(())
}

/// A provider label must not be blank.
pub fn validate_label(label: &str) -> (r: Result<(), String>)
    ensures
        r is Ok <==> trim_ws(label@).len() > 0,
        r matches Err(m) ==> m@ == "provider label is required"@,
{
    if trim_ws_chars(&chars_of(label)).len() == 0 {
        return Err("provider label is required".to_string());
    }
    Ok(())
}

/// Why a list of domain suffixes was refused.
#[derive(Debug)]
pub enum SuffixListError {
    /// An entry has no storage form.
    Invalid(DomainError),
    /// Nothing is left once empty entries are dropped.
    Empty,
}

impl SuffixListError {
    /// The text that the error displays.
    pub fn message(&self) -> (m: String)
        ensures
            self is Empty ==> m@ == "at least one domain suffix is required"@,
    {
        match self {
            SuffixListError::Invalid(e) => e.message(),
            SuffixListError::Empty => "at least one domain suffix is required".to_string(),
        }
    }
}

/// Parses a provider's domain suffixes (see `parse_domain_suffixes`), which
/// must leave at least one.
pub fn validate_domain_suffixes(raw: &str) -> (r: Result<Vec<String>, SuffixListError>)
    ensures
        !suffixes_valid(suffix_pieces(raw@), suffix_pieces(raw@).len() as int) ==> r matches Err(
            SuffixListError::Invalid(_),
        ),
        suffixes_valid(suffix_pieces(raw@), suffix_pieces(raw@).len() as int) ==> {
            let set = normalized_suffixes(suffix_pieces(raw@), suffix_pieces(raw@).len() as int);
            &&& !(r matches Err(SuffixListError::Invalid(_)))
            &&& (set.len() == 0 <==> r matches Err(SuffixListError::Empty))
            &&& (r matches Ok(v) ==> strictly_sorted(text_views(v@)) && text_views(v@).to_set()
                == set)
        },
{
    match parse_domain_suffixes(raw) {
        Err(e) => Err(SuffixListError::Invalid(e)),
        Ok(v) => {
            proof {
                vstd::seq_lib::seq_to_set_is_finite(text_views(v@));
                vstd::set_lib::lemma_set_empty_equivalency_len(text_views(v@).to_set());
            }
            if v.len() == 0 {
                assert(text_views(v@).to_set() =~= Set::<Seq<char>>::empty());
                Err(SuffixListError::Empty)
            } else {
                assert(text_views(v@).to_set().contains(text_views(v@)[0]));
                Ok(v)
            }
        },
    }
}

// ---------------------------------------------------------------------------
// Error categories
// ---------------------------------------------------------------------------

/// The category of an error from its lower-cased message.
pub open spec fn spec_error_category(lower: Seq<char>) -> DnsProviderErrorCategory {
    if contains(lower, "auth"@) || contains(lower, "unauthorized"@) || contains(lower, "forbidden"@)
        || contains(lower, "invalid credentials"@) || contains(lower, "access denied"@) {
        DnsProviderErrorCategory::AuthError
    } else if contains(lower, "not found"@) || contains(lower, "404"@) || contains(lower, "no such"@) {
        DnsProviderErrorCategory::NotFound
    } else if contains(lower, "rate limit"@) || contains(lower, "429"@) || contains(
        lower,
        "too many requests"@,
    ) {
        DnsProviderErrorCategory::RateLimited
    } else if contains(lower, "network"@) || contains(lower, "timeout"@) || contains(
        lower,
        "connection"@,
    ) || contains(lower, "dns"@) {
        DnsProviderErrorCategory::NetworkError
    } else {
        DnsProviderErrorCategory::Unknown
    }
}

/// Sorts a DNS provider error message into a category by the words it holds,
/// case-insensitively.
pub fn categorize_dns_error(message: &str) -> (r: DnsProviderErrorCategory)
    ensures
        r == spec_error_category(unicode_lowercase(message@)),
{
    let lower = to_lowercase(message);
    let s = lower.as_str();
    if str_contains(s, "auth") || str_contains(s, "unauthorized") || str_contains(s, "forbidden")
        || str_contains(s, "invalid credentials") || str_contains(s, "access denied") {
        DnsProviderErrorCategory::AuthError
    } else if str_contains(s, "not found") || str_contains(s, "404") || str_contains(s, "no such") {
        DnsProviderErrorCategory::NotFound
    } else if str_contains(s, "rate limit") || str_contains(s, "429") || str_contains(
        s,
        "too many requests",
    ) {
        DnsProviderErrorCategory::RateLimited
    } else if str_contains(s, "network") || str_contains(s, "timeout") || str_contains(
        s,
        "connection",
    ) || str_contains(s, "dns") {
        DnsProviderErrorCategory::NetworkError
    } else {
        DnsProviderErrorCategory::Unknown
    }
}

// ---------------------------------------------------------------------------
// Token checks
// ---------------------------------------------------------------------------

/// The verdict on a Cloudflare token from the answer to listing zones:
/// `status` and how it displays, and the answer's `success` flag (`None`
/// where the body could not be read as a zone list).
pub fn validate_cloudflare_token(status: u16, status_text: &str, success: Option<bool>) -> (r:
    Result<(), String>)
    ensures
        (200 <= status < 300 && success == Some(true)) <==> r is Ok,
        (status == 401 || status == 403) ==> (r matches Err(m) && m@
            == "Cloudflare authentication failed: invalid API token"@),
        status == 429 ==> (r matches Err(m) && m@ == "Cloudflare rate limit exceeded"@),
        !(200 <= status < 300) && status != 401 && status != 403 && status != 429 ==> (r matches Err(
            m,
        ) && m@ == spec_status_error("Cloudflare"@, status, status_text@, None)),
        200 <= status < 300 && success is None ==> (r matches Err(m) && m@
            == "Failed to parse Cloudflare zone list response"@),
        200 <= status < 300 && success == Some(false) ==> (r matches Err(m) && m@
            == "Cloudflare API returned unsuccessful response"@),
{
    if !(200 <= status && status < 300) {
        if status == 401 || status == 403 {
            return Err("Cloudflare authentication failed: invalid API token".to_string());
        }
        if status == 429 {
            return Err("Cloudflare rate limit exceeded".to_string());
        }
        return Err(status_error("Cloudflare", status, status_text, None));
    }
    match success {
        None => Err("Failed to parse Cloudflare zone list response".to_string()),
        Some(false) => Err("Cloudflare API returned unsuccessful response".to_string()),
        Some(true) => Ok(()),
    }
}

/// The verdict on a DigitalOcean token from the answer to listing domains.
pub fn validate_digitalocean_token(status: u16, status_text: &str, body: String) -> (r: Result<
    (),
    String,
>)
    ensures
        (200 <= status < 300) <==> r is Ok,
        !(200 <= status < 300) ==> (r matches Err(m) && m@ == spec_status_error(
            "DigitalOcean"@,
            status,
            status_text@,
            Some(body@),
        )),
{
    if 200 <= status && status < 300 {
        Ok(())
    } else {
        Err(status_error("DigitalOcean", status, status_text, Some(body)))
    }
}

// ---------------------------------------------------------------------------
// Records shown to the user
// ---------------------------------------------------------------------------

/// Whether a text is a JSON document (`serde_json::from_str::<Value>`
/// succeeds).
pub uninterp spec fn is_json(raw: Seq<char>) -> bool;

/// The string member `key` of a JSON object text: `None` where the text is not
/// JSON, not an object, lacks the member, or the member is not a string.
pub uninterp spec fn json_string_member(raw: Seq<char>, key: Seq<char>) -> Option<Seq<char>>;

/// Calls `serde_json::from_str::<serde_json::Value>` and reports whether it
/// succeeded.
#[verifier::external_body]
fn json_parses(raw: &str) -> (r: bool)
    ensures
        r == is_json(raw@),
{
    serde_json::from_str::<serde_json::Value>(raw).is_ok()
}

/// Parses `raw` with `serde_json::from_str::<serde_json::Value>`, then takes
/// member `key` as a string.
#[verifier::external_body]
fn json_member_text(raw: &str, key: &str) -> (r: Option<String>)
    ensures
        opt_string(r) == json_string_member(raw@, key@),
{
    serde_json::from_str::<serde_json::Value>(raw).ok().and_then(
        |v| v.get(key).and_then(|m| m.as_str().map(|s| s.to_string())),
    )
}

pub open spec fn opt_string(o: Option<String>) -> Option<Seq<char>> {
    match o {
        Some(s) => Some(s@),
        None => None,
    }
}

/// A provider as shown: its stored type read back, its configuration kept
/// only where it is JSON.
pub open spec fn is_provider_dto(d: DnsProviderDto, p: DnsProviderView) -> bool {
    &&& d.id@ == p.id
    &&& d.provider_type == spec_provider_type_of(p.provider_type)
    &&& d.label@ == p.label
    &&& text_views(d.domain_suffixes@) == p.domain_suffixes
    &&& opt_string(d.config) == match p.config_json {
        Some(c) => if is_json(c) {
            Some(c)
        } else {
            None
        },
        None => None,
    }
    &&& d.created_at@ == p.created_at
    &&& d.updated_at@ == p.updated_at
}

/// The provider as shown to the user.
pub fn provider_record_to_dto(record: DnsProvider) -> (r: DnsProviderDto)
    ensures
        is_provider_dto(r, record@),
{
    let provider_type = provider_type_from_string(record.provider_type.as_str());
    let config = match record.config_json {
        Some(raw) => if json_parses(raw.as_str()) {
            Some(raw)
        } else {
            None
        },
        None => None,
    };
    DnsProviderDto {
        id: record.id,
        provider_type,
        label: record.label,
        domain_suffixes: record.domain_suffixes,
        config,
        created_at: record.created_at,
        updated_at: record.updated_at,
    }
}

/// The zone a provider's configuration names, if any.
pub fn provider_zone_override(provider: &DnsProvider) -> (r: Option<String>)
    ensures
        opt_string(r) == match provider.config_json {
            Some(c) => json_string_member(c@, "zone"@),
            None => None,
        },
{
    match &provider.config_json {
        Some(raw) => json_member_text(raw.as_str(), "zone"),
        None => None,
    }
}

/// A resolution as shown to the user: the matched suffix in display form.
pub fn resolution_to_dto(res: DnsProviderResolution) -> (r: DnsProviderResolutionDto)
    ensures
        res.provider is None <==> r.provider is None,
        res.provider matches Some(p) ==> (r.provider matches Some(d) && is_provider_dto(d, p@)),
        opt_string(r.matched_suffix) == match res.matched_suffix {
            Some(m) => Some(display_form(m@)),
            None => None,
        },
        r.ambiguous@.len() == res.ambiguous@.len(),
        forall|i: int|
            0 <= i < r.ambiguous@.len() ==> is_provider_dto(
                #[trigger] r.ambiguous@[i],
                res.ambiguous@[i]@,
            ),
{
    let provider = match res.provider {
        Some(p) => Some(provider_record_to_dto(p)),
        None => None,
    };
    let mut ambiguous: Vec<DnsProviderDto> = Vec::new();
    let mut i: usize = 0;
    while i < res.ambiguous.len()
        invariant
            i <= res.ambiguous@.len(),
            ambiguous@.len() == i,
            forall|k: int| 0 <= k < i ==> is_provider_dto(#[trigger] ambiguous@[k], res.ambiguous@[k]@),
        decreases res.ambiguous@.len() - i,
    {
        ambiguous.push(provider_record_to_dto(res.ambiguous[i].copy()));
        i = i + 1;
    }
    let matched_suffix = match &res.matched_suffix {
        Some(m) => Some(crate::domain::normalize_domain_for_display(m.as_str())),
        None => None,
    };
    DnsProviderResolutionDto { provider, matched_suffix, ambiguous }
}

/// An issuer as stored.
#[derive(Debug, Clone)]
pub struct IssuerConfigRecord {
    pub issuer_id: String,
    pub label: String,
    pub directory_url: String,
    pub environment: String,
    pub issuer_type: String,
    pub params_json: String,
    pub contact_email: Option<String>,
    pub account_key_ref: Option<String>,
    pub tos_agreed: bool,
    pub is_selected: bool,
    pub created_at: String,
    pub updated_at: String,
}

/// The issuer as shown: its stored environment read back (anything but
/// "production" is staging), ACME as the type.
pub fn issuer_record_to_dto(record: IssuerConfigRecord) -> (r: IssuerConfigDto)
    ensures
        r.issuer_id == record.issuer_id,
        r.label == record.label,
        r.directory_url == record.directory_url,
        r.environment == spec_environment_of(record.environment@),
        r.issuer_type == IssuerType::Acme,
        r.contact_email == record.contact_email,
        r.account_key_ref == record.account_key_ref,
        r.tos_agreed == record.tos_agreed,
        r.is_selected == record.is_selected,
{
    let environment = environment_from_string(record.environment.as_str());
    IssuerConfigDto {
        issuer_id: record.issuer_id,
        label: record.label,
        directory_url: record.directory_url,
        environment,
        issuer_type: IssuerType::Acme,
        contact_email: record.contact_email,
        account_key_ref: record.account_key_ref,
        tos_agreed: record.tos_agreed,
        is_selected: record.is_selected,
    }
}

pub open spec fn display_forms(v: Seq<String>) -> Seq<Seq<char>> {
    v.map_values(|s: String| display_form(s@))
}

/// A certificate record with its names in display form.
pub fn record_for_display(record: CertificateRecord) -> (r: CertificateRecord)
    ensures
        text_views(r.subjects@) == display_forms(record.subjects@),
        text_views(r.sans@) == display_forms(record.sans@),
        text_views(r.domain_roots@) == display_forms(record.domain_roots@),
        r.id == record.id,
        r.issuer == record.issuer,
        r.serial == record.serial,
        r.fingerprint == record.fingerprint,
{
    let subjects = normalize_domains_for_display(record.subjects.as_slice());
    let sans = normalize_domains_for_display(record.sans.as_slice());
    let domain_roots = normalize_domains_for_display(record.domain_roots.as_slice());
    assert(text_views(subjects@) =~= display_forms(record.subjects@));
    assert(text_views(sans@) =~= display_forms(record.sans@));
    assert(text_views(domain_roots@) =~= display_forms(record.domain_roots@));
    CertificateRecord { subjects, sans, domain_roots, ..record }
}

} // verus!
