//! The values exchanged with the user interface: requests, responses and
//! records. Times are RFC 3339 text; provider configuration is JSON text.
use vstd::prelude::*;

use crate::dns::{DnsPropagationResult, DnsRecordInstruction};
use crate::secrets::SecretKind;

verus! {

/// Represents the source of a certificate record, indicating whether it was
/// discovered externally or is managed by the application.
#[derive(Debug, Clone, Copy, PartialEq, Eq, Structural)]
pub enum CertificateSource {
    /// Certificate was discovered from external sources (e.g., system certificate stores)
    External,
    /// Certificate is managed and tracked by this application
    Managed,
}

#[derive(Debug, Clone, Copy, PartialEq, Eq, Structural)]
pub enum KeyAlgorithm {
    Rsa,
    Ecdsa,
}

#[derive(Debug, Clone, Copy, PartialEq, Eq, Structural)]
pub enum KeyCurve {
    P256,
    P384,
}

/// Represents a complete certificate record with all metadata and validation information.
/// This structure is used for storing, retrieving, and displaying SSL/TLS certificate data.
#[derive(Debug, Clone)]
pub struct CertificateRecord {
    /// Unique identifier for the certificate record
    pub id: String,
    /// Canonical subjects or SAN entries associated with the certificate.
    pub subjects: Vec<String>,
    /// Subject Alternative Names; for now mirrors `subjects` for clarity in the UI.
    pub sans: Vec<String>,
    /// Certificate issuer information (e.g., "Let's Encrypt Authority X3")
    pub issuer: String,
    /// Certificate serial number as a hex string
    pub serial: String,
    /// Certificate validity start date
    pub not_before: String,
    /// Certificate validity end date
    pub not_after: String,
    /// Certificate fingerprint (SHA-256 hash) for uniqueness verification
    pub fingerprint: String,
    /// Source of this certificate record
    pub source: CertificateSource,
    /// Root domains extracted from subjects/SANs (e.g., ["example.com"])
    pub domain_roots: Vec<String>,
    /// User-defined tags for organization and filtering
    pub tags: Vec<String>,
    /// Optional managed key reference if the private key is stored locally
    pub managed_key_ref: Option<String>,
    /// PEM-encoded certificate chain for export
    pub chain_pem: Option<String>,
    /// Key algorithm metadata for managed issuance (rsa/ecdsa)
    pub key_algorithm: Option<KeyAlgorithm>,
    /// RSA key size when applicable
    pub key_size: Option<u16>,
    /// ECDSA curve when applicable
    pub key_curve: Option<KeyCurve>,
}

#[derive(Debug, Clone, Copy, PartialEq, Eq, Structural)]
pub enum ExportBundle {
    Cert,
    Chain,
    Fullchain,
}


#[derive(Debug, Clone)]
pub struct ExportCertificateRequest {
    pub certificate_id: String,
    pub destination_dir: String,
    pub folder_name: String,
    pub include_private_key: bool,
    pub bundle: ExportBundle,
    pub overwrite: bool,
}

#[derive(Debug, Clone)]
pub struct ExportedFile {
    pub label: String,
    pub path: String,
}

#[derive(Debug, Clone)]
pub enum ExportCertificateResponse {
    Success {
        output_dir: String,
        files: Vec<ExportedFile>,
    },
    OverwriteRequired {
        output_dir: String,
        existing_files: Vec<String>,
    },
}

#[derive(Debug, Clone)]
pub struct PreferenceEntry {
    pub name: String,
    pub value: String,
}

#[derive(Debug, Clone)]
pub struct GetPreferenceRequest {
    pub name: String,
}

#[derive(Debug, Clone)]
pub struct SetPreferenceRequest {
    pub name: String,
    pub value: String,
}

#[derive(Debug, Clone)]
pub struct CreateSecretRequest {
    pub label: String,
    pub kind: SecretKind,
    pub secret_value: String,
}

#[derive(Debug, Clone)]
pub struct UpdateSecretRequest {
    pub id: String,
    pub secret_value: String,
    pub label: Option<String>,
}


#[derive(Debug, Clone, Copy, PartialEq, Eq, Structural)]
pub enum IssuerEnvironment {
    Staging,
    Production,
}

#[derive(Debug, Clone, Copy, PartialEq, Eq, Structural)]
pub enum IssuerType {
    Acme,
}

#[derive(Debug, Clone)]
pub struct IssuerConfigDto {
    pub issuer_id: String,
    pub label: String,
    pub directory_url: String,
    pub environment: IssuerEnvironment,
    pub issuer_type: IssuerType,
    pub contact_email: Option<String>,
    pub account_key_ref: Option<String>,
    pub tos_agreed: bool,
    pub is_selected: bool,
}

#[derive(Debug, Clone)]
pub struct SelectIssuerRequest {
    pub issuer_id: String,
}

#[derive(Debug, Clone)]
pub struct CreateIssuerRequest {
    pub label: String,
    pub issuer_type: IssuerType,
    pub environment: IssuerEnvironment,
    pub directory_url: String,
    pub contact_email: Option<String>,
    pub tos_agreed: bool,
}

#[derive(Debug, Clone)]
pub struct UpdateIssuerRequest {
    pub issuer_id: String,
    pub label: String,
    pub environment: IssuerEnvironment,
    pub directory_url: String,
    pub contact_email: Option<String>,
    pub tos_agreed: bool,
}

#[derive(Debug, Clone)]
pub struct DeleteIssuerRequest {
    pub issuer_id: String,
}

#[derive(Debug, Clone)]
pub struct PrepareDnsChallengeRequest {
    pub domain: String,
    pub txt_value: String,
}

#[derive(Debug, Clone)]
pub struct PreparedDnsChallenge {
    pub record: DnsRecordInstruction,
}

#[derive(Debug, Clone)]
pub struct CheckPropagationRequest {
    pub domain: String,
    pub txt_value: String,
}


#[derive(Debug, Clone, Copy, PartialEq, Eq, Structural)]
pub enum DnsProviderType {
    Cloudflare,
    DigitalOcean,
    Route53,
    Manual,
}

#[derive(Debug, Clone)]
pub struct DnsProviderDto {
    pub id: String,
    pub provider_type: DnsProviderType,
    pub label: String,
    pub domain_suffixes: Vec<String>,
    pub config: Option<String>,
    pub created_at: String,
    pub updated_at: String,
}

#[derive(Debug, Clone)]
pub struct CreateDnsProviderRequest {
    pub provider_type: DnsProviderType,
    pub label: String,
    pub domain_suffixes: String,
    pub api_token: Option<String>,
    pub route53_access_key: Option<String>,
    pub route53_secret_key: Option<String>,
    pub config: Option<String>,
}

#[derive(Debug, Clone)]
pub struct UpdateDnsProviderRequest {
    pub provider_id: String,
    pub label: String,
    pub domain_suffixes: String,
    pub api_token: Option<String>,
    pub route53_access_key: Option<String>,
    pub route53_secret_key: Option<String>,
    pub config: Option<String>,
}

#[derive(Debug, Clone)]
pub struct DeleteDnsProviderRequest {
    pub provider_id: String,
}

#[derive(Debug, Clone)]
pub struct ResolveDnsProviderRequest {
    pub hostname: String,
}

#[derive(Debug, Clone)]
pub struct DnsProviderResolutionDto {
    pub provider: Option<DnsProviderDto>,
    pub matched_suffix: Option<String>,
    pub ambiguous: Vec<DnsProviderDto>,
}

#[derive(Debug, Clone)]
pub struct TestDnsProviderRequest {
    pub provider_id: String,
}

#[derive(Debug, Clone)]
pub struct ValidateDnsProviderTokenRequest {
    pub provider_type: DnsProviderType,
    pub api_token: Option<String>,
    pub route53_access_key: Option<String>,
    pub route53_secret_key: Option<String>,
}

#[derive(Debug, Clone, Copy, PartialEq, Eq, Structural)]
pub enum DnsProviderErrorCategory {
    AuthError,
    NotFound,
    RateLimited,
    NetworkError,
    Unknown,
}

#[derive(Debug, Clone)]
pub struct DnsProviderTestResult {
    pub success: bool,
    pub record_name: Option<String>,
    pub value: Option<String>,
    pub propagation: Option<DnsPropagationResult>,
    pub error: Option<String>,
    pub error_category: Option<DnsProviderErrorCategory>,
    pub error_stage: Option<String>,
    pub elapsed_ms: u64,
    pub create_ms: Option<u64>,
    pub propagation_ms: Option<u64>,
    pub cleanup_ms: Option<u64>,
}

#[derive(Debug, Clone)]
pub struct DnsProviderTokenValidationResult {
    pub success: bool,
    pub error: Option<String>,
    pub error_category: Option<DnsProviderErrorCategory>,
}

#[derive(Debug, Clone)]
pub struct StartIssuanceRequest {
    pub domains: Vec<String>,
    pub issuer_id: String,
    pub key_algorithm: Option<KeyAlgorithm>,
    pub key_size: Option<u16>,
    pub key_curve: Option<KeyCurve>,
}

#[derive(Debug, Clone)]
pub struct StartIssuanceResponse {
    pub request_id: String,
    pub dns_records: Vec<DnsRecordInstruction>,
}

#[derive(Debug, Clone)]
pub struct CompleteIssuanceRequest {
    pub request_id: String,
}

} // verus!
