//! Certificate issuers: the operations an issuer offers, its orders and
//! challenges, its errors, and the choice of the ACME account key.
use vstd::prelude::*;

use crate::secrets::{spec_kind_name, SecretKind};
use crate::text::{cat, chars_of, string_of};

verus! {

/// Core operations that any certificate issuer offers.
pub trait Issuer {
    fn ensure_account(&self) -> Result<(), IssuerError>;

    fn begin_order(&self, domains: &[String]) -> Result<OrderHandle, IssuerError>;

    fn get_challenges(&self, order: &OrderHandle) -> Result<Vec<IssuanceChallenge>, IssuerError>;

    fn finalize(&self, order: &OrderHandle, csr_pem: &str) -> Result<(), IssuerError>;

    fn download_certificate(&self, order: &OrderHandle) -> Result<Vec<u8>, IssuerError>;
}

#[derive(Debug, Clone)]
pub struct OrderHandle {
    pub id: String,
}

#[derive(Debug, Clone, Copy, PartialEq, Eq, Structural)]
pub enum ChallengeKind {
    Dns01,
}

#[derive(Debug, Clone)]
pub struct IssuanceChallenge {
    pub domain: String,
    pub token: String,
    pub key_auth: String,
    pub kind: ChallengeKind,
}

/// Why an issuer operation failed.
#[derive(Debug, Clone)]
pub enum IssuerError {
    Unavailable(String),
    InvalidConfig(String),
    Operation(String),
}

impl IssuerError {
    /// The text that the error displays.
    pub fn message(&self) -> (m: String)
        ensures
            self matches IssuerError::Unavailable(x) ==> m@ == "issuer unavailable: "@ + x@,
            self matches IssuerError::InvalidConfig(x) ==> m@ == "issuer configuration invalid: "@ + x@,
            self matches IssuerError::Operation(x) ==> m@ == "issuer operation failed: "@ + x@,
    {
        match self {
            IssuerError::Unavailable(x) => cat("issuer unavailable: ", x.as_str()),
            IssuerError::InvalidConfig(x) => cat("issuer configuration invalid: ", x.as_str()),
            IssuerError::Operation(x) => cat("issuer operation failed: ", x.as_str()),
        }
    }
}

/// The ACME account an issuer acts with.
#[derive(Debug, Clone)]
pub struct AccountState {
    pub account_key_ref: String,
    pub contact_email: String,
}

/// Why the ACME account could not be settled.
#[derive(Debug, Clone)]
pub enum AcmeIssuerError {
    MissingEmail,
    Secret(String),
    WrongSecretKind { expected: String, found: String },
    KeyGeneration(String),
    Operation(String),
}

impl AcmeIssuerError {
    /// The text that the error displays.
    pub fn message(&self) -> (m: String)
        ensures
            self is MissingEmail ==> m@
                == "account email is required to create or update an ACME account"@,
            self matches AcmeIssuerError::Secret(x) ==> m@ == "secret error: "@ + x@,
            self matches AcmeIssuerError::WrongSecretKind { expected: e, found: f } ==> m@
                == "secret reference has wrong kind: expected "@ + e@ + ", found "@ + f@,
            self matches AcmeIssuerError::KeyGeneration(x) ==> m@ == "key generation failed: "@ + x@,
            self matches AcmeIssuerError::Operation(x) ==> m@ == "acme operation failed: "@ + x@,
    {
        match self {
            AcmeIssuerError::MissingEmail => "account email is required to create or update an ACME account".to_string(),
            AcmeIssuerError::Secret(x) => cat("secret error: ", x.as_str()),
            AcmeIssuerError::WrongSecretKind { expected, found } => {
                let a = cat("secret reference has wrong kind: expected ", expected.as_str());
                let b = cat(a.as_str(), ", found ");
                cat(b.as_str(), found.as_str())
            },
            AcmeIssuerError::KeyGeneration(x) => cat("key generation failed: ", x.as_str()),
            AcmeIssuerError::Operation(x) => cat("acme operation failed: ", x.as_str()),
        }
    }
}

/// How the account key is found.
#[derive(Debug)]
pub enum KeyStep {
    /// A reference was given: it must name an account key.
    CheckGiven(String),
    /// The issuer's stored reference: it is used where it names an account
    /// key.
    CheckStored(String),
    /// A new account key is generated.
    Generate,
}

/// The first step of settling an account: the contact email (the one given,
/// else the issuer's) and where the key comes from (the reference given, else
/// the issuer's, else a new key where that is allowed).
pub fn plan_account(
    contact_email: Option<String>,
    config_email: Option<String>,
    account_key_ref: Option<String>,
    config_key_ref: Option<String>,
    generate_new_account_key: bool,
) -> (r: Result<(String, KeyStep), AcmeIssuerError>)
    ensures
        contact_email is None && config_email is None ==> r matches Err(AcmeIssuerError::MissingEmail),
        contact_email is Some || config_email is Some ==> {
            &&& (r matches Ok(x) ==> Some(x.0) == (if contact_email is Some {
                contact_email
            } else {
                config_email
            }))
            &&& (account_key_ref matches Some(k) ==> (r matches Ok(x) && x.1 matches KeyStep::CheckGiven(g)
                && g == k))
            &&& (account_key_ref is None ==> (config_key_ref matches Some(k) ==> (r matches Ok(x)
                && x.1 matches KeyStep::CheckStored(g) && g == k)))
            &&& (account_key_ref is None && config_key_ref is None && generate_new_account_key ==> (
            r matches Ok(x) && x.1 is Generate))
            &&& (account_key_ref is None && config_key_ref is None && !generate_new_account_key ==> (
            r matches Err(AcmeIssuerError::KeyGeneration(m)) && m@
                == "no account key provided; set generate_new_account_key or provide a reference"@))
        },
{
    let email = match contact_email {
        Some(e) => e,
        None => match config_email {
            Some(e) => e,
            None => {
                return Err(AcmeIssuerError::MissingEmail);
            },
        },
    };
    let step = match account_key_ref {
        Some(k) => KeyStep::CheckGiven(k),
        None => match config_key_ref {
            Some(k) => KeyStep::CheckStored(k),
            None => {
                if generate_new_account_key {
                    KeyStep::Generate
                } else {
                    return Err(
                        AcmeIssuerError::KeyGeneration(
                            "no account key provided; set generate_new_account_key or provide a reference".to_string(),
                        ),
                    );
                }
            },
        },
    };
    Ok((email, step))
}

/// What is done with the key after its reference was looked up.
#[derive(Debug)]
pub enum KeyDecision {
    /// Use this reference once it resolves.
    Use(String),
    /// Generate and store a new account key.
    Generate,
}

/// The second step: `kind` is the kind stored under the reference looked up
/// (`None` where no secret is stored under it). A given reference must name
/// an account key; a stored one is used where it does, and otherwise
/// replaced by a new key where that is allowed.
pub fn decide_account_key(step: KeyStep, kind: Option<SecretKind>, generate_new_account_key: bool) -> (r:
    Result<KeyDecision, AcmeIssuerError>)
    ensures
        step is Generate ==> r matches Ok(KeyDecision::Generate),
        step matches KeyStep::CheckGiven(k) ==> {
            &&& (kind is None ==> (r matches Err(AcmeIssuerError::Secret(m)) && m@ == "secret not found"@))
            &&& (kind == Some(SecretKind::AcmeAccountKey) ==> (r matches Ok(KeyDecision::Use(u)) && u
                == k))
            &&& (kind matches Some(other) ==> (other != SecretKind::AcmeAccountKey ==> (r matches Err(
                AcmeIssuerError::WrongSecretKind { expected: e, found: f },
            ) && e@ == "acme_account_key"@ && f@ == spec_kind_name(other))))
        },
        step matches KeyStep::CheckStored(k) ==> {
            &&& (kind == Some(SecretKind::AcmeAccountKey) ==> (r matches Ok(KeyDecision::Use(u)) && u
                == k))
            &&& (kind != Some(SecretKind::AcmeAccountKey) && generate_new_account_key ==> r matches Ok(
                KeyDecision::Generate,
            ))
            &&& (kind != Some(SecretKind::AcmeAccountKey) && !generate_new_account_key ==> (r matches Err(
                AcmeIssuerError::WrongSecretKind { expected: e, found: f },
            ) && e@ == "acme_account_key"@ && f@ == "unknown"@))
        },
{
    match step {
        KeyStep::Generate => Ok(KeyDecision::Generate),
        KeyStep::CheckGiven(k) => match kind {
            None => Err(AcmeIssuerError::Secret("secret not found".to_string())),
            Some(SecretKind::AcmeAccountKey) => Ok(KeyDecision::Use(k)),
            Some(other) => Err(
                AcmeIssuerError::WrongSecretKind {
                    expected: "acme_account_key".to_string(),
                    found: other.as_str().to_string(),
                },
            ),
        },
        KeyStep::CheckStored(k) => match kind {
            Some(SecretKind::AcmeAccountKey) => Ok(KeyDecision::Use(k)),
            _ => {
                if generate_new_account_key {
                    Ok(KeyDecision::Generate)
                } else {
                    Err(
                        AcmeIssuerError::WrongSecretKind {
                            expected: "acme_account_key".to_string(),
                            found: "unknown".to_string(),
                        },
                    )
                }
            },
        },
    }
}

} // verus!
