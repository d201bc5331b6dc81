//! Private keys and certificate signing requests: generating a key for the
//! resolved parameters, and building a signed request for a key and names.
use vstd::prelude::*;

use crate::csr::{csr_names, csr_subject_names, names_valid};
use crate::domain::{domain_error_text, storage_form};
use crate::export::{pem_encode, pem_text_of};
use crate::issuance::{key_spec, spec_key_spec, KeySpec};
use crate::text::cat;
use crate::types::{KeyAlgorithm, KeyCurve};

verus! {

#[verifier::external_type_specification]
#[verifier::external_body]
pub struct ExKeyPair(rcgen::KeyPair);

/// Whether `rcgen::KeyPair::from_pem` reads a key from the text.
pub uninterp spec fn private_key_pem_ok(pem: Seq<char>) -> bool;

/// Calls `rcgen::KeyPair::from_pem`: it succeeds exactly on the texts it
/// reads a key from. The error is the crate's own message.
#[verifier::external_body]
fn rcgen_key_from_pem(key_pem: &str) -> (r: Result<rcgen::KeyPair, String>)
    ensures
        r is Ok <==> private_key_pem_ok(key_pem@),
{
    rcgen::KeyPair::from_pem(key_pem).map_err(|err| err.to_string())
}

/// Builds `rcgen::CertificateParams::new(params_names)` with `common_name` as
/// the subject's common name, replaces its alternative names by `sans` (as
/// DNS names) where given, and signs the request with `key` through
/// `serialize_request`, returning its DER. The signature is randomized, so
/// nothing is stated of the bytes or of which step may fail.
#[verifier::external_body]
fn rcgen_sign_request(key: &rcgen::KeyPair, params_names: Vec<String>, common_name: String, sans: Option<&Vec<String>>) -> (r: Result<Vec<u8>, String>)
{
    let mut params = rcgen::CertificateParams::new(params_names).map_err(|e| format!("failed to create CSR parameters: {e}"))?;
    params.distinguished_name.push(rcgen::DnType::CommonName, common_name);
    if let Some(list) = sans {
        params.subject_alt_names = list.iter().map(|n| rcgen::Ia5String::try_from(n.as_str()).map(rcgen::SanType::DnsName)
            .map_err(|e| format!("Invalid DNS name for SAN \"{n}\": {e}"))).collect::<Result<_, _>>()?;
    }
    let csr = params.serialize_request(key).map_err(|e| format!("failed to generate CSR: {e}"))?;
    Ok(csr.der().to_vec())
}

/// Calls `rcgen::KeyPair::generate_for` with the ECDSA algorithm of `spec`
/// and returns `serialize_pem` of the key: a PKCS#8 "PRIVATE KEY" block,
/// which `from_pem` reads back. The key is random.
#[verifier::external_body]
fn rcgen_generate_ecdsa(spec: KeySpec) -> (r: Result<String, String>)
    requires
        spec == KeySpec::EcdsaP256 || spec == KeySpec::EcdsaP384,
    ensures
        r matches Ok(t) ==> private_key_pem_ok(t@),
{
    let alg = match spec {
        KeySpec::EcdsaP256 => &rcgen::PKCS_ECDSA_P256_SHA256,
        _ => &rcgen::PKCS_ECDSA_P384_SHA384,
    };
    rcgen::KeyPair::generate_for(alg).map(|pair| pair.serialize_pem()).map_err(|e| format!("failed to generate ECDSA key: {e}"))
}

/// Calls `instant_acme::Key::generate_pkcs8` and returns the new key's
/// PKCS#8 DER. The key is random; the error is the crate's own message.
#[verifier::external_body]
fn account_key_pkcs8() -> (r: Result<Vec<u8>, String>)
{
    instant_acme::Key::generate_pkcs8().map(|(_, der)| der.secret_pkcs8_der().to_vec()).map_err(|e| e.to_string())
}

/// The message for a key text that `from_pem` does not read.
pub open spec fn key_pem_error(m: Seq<char>) -> bool {
    exists|t: Seq<char>| m == "failed to parse private key PEM: "@ + t
}

/// Builds a CSR (DER) for a key and the domains of an order: the first
/// domain is the common name, the others (in storage form, sorted, without
/// repeats) the alternative names. A key text that cannot be read is
/// reported before the names.
pub fn build_csr_der(private_key_pem: &str, sans: &Vec<String>) -> (r: Result<Vec<u8>, String>)
    ensures
        !private_key_pem_ok(private_key_pem@) ==> (r matches Err(m) && key_pem_error(m@)),
        private_key_pem_ok(private_key_pem@) ==> {
            &&& (sans@.len() == 0 ==> (r matches Err(m) && m@ == "At least one domain is required for CSR"@))
            &&& (sans@.len() > 0 && storage_form(sans@[0]@) is None ==> (r matches Err(m) && m@
                == "Invalid primary domain \""@ + sans@[0]@ + "\": "@ + domain_error_text(sans@[0]@)))
            &&& (sans@.len() > 0 && storage_form(sans@[0]@) is Some && !names_valid(sans@, sans@.len() as int)
                ==> (r matches Err(m) && exists|i: int|
                #![trigger sans@[i]]
                0 <= i < sans@.len() && names_valid(sans@, i) && storage_form(sans@[i]@) is None && m@
                    == "Invalid SAN entry \""@ + sans@[i]@ + "\": "@ + domain_error_text(sans@[i]@)))
        },
{
    let key = match rcgen_key_from_pem(private_key_pem) {
        Ok(k) => k,
        Err(e) => return Err(cat("failed to parse private key PEM: ", e.as_str())),
    };
    let (primary, others) = match csr_names(sans) {
        Ok(x) => x,
        Err(e) => return Err(e),
    };
    let names = vec![primary.clone()];
    if others.len() > 0 {
        rcgen_sign_request(&key, names, primary, Some(&others))
    } else {
        rcgen_sign_request(&key, names, primary, None)
    }
}

/// Builds a CSR (DER) for a key, a subject (the common name) and DNS names
/// (in storage form, sorted, without repeats). A key text that cannot be
/// read is reported before the names.
pub fn build_csr_der_with_subject(private_key_pem: &str, subject: &str, sans: &Vec<String>) -> (r: Result<Vec<u8>, String>)
    ensures
        !private_key_pem_ok(private_key_pem@) ==> (r matches Err(m) && key_pem_error(m@)),
        private_key_pem_ok(private_key_pem@) ==> {
            &&& (storage_form(subject@) is None ==> (r matches Err(m) && m@
                == "Invalid CSR subject \""@ + subject@ + "\": "@ + domain_error_text(subject@)))
            &&& (storage_form(subject@) is Some && !names_valid(sans@, sans@.len() as int) ==> (r matches Err(m)
                && exists|i: int|
                #![trigger sans@[i]]
                0 <= i < sans@.len() && names_valid(sans@, i) && storage_form(sans@[i]@) is None && m@
                    == "Invalid SAN entry \""@ + sans@[i]@ + "\": "@ + domain_error_text(sans@[i]@)))
        },
{
    let key = match rcgen_key_from_pem(private_key_pem) {
        Ok(k) => k,
        Err(e) => return Err(cat("failed to parse private key PEM: ", e.as_str())),
    };
    let (common_name, names) = match csr_subject_names(subject, sans) {
        Ok(x) => x,
        Err(e) => return Err(e),
    };
    if names.len() > 0 {
        rcgen_sign_request(&key, Vec::new(), common_name, Some(&names))
    } else {
        rcgen_sign_request(&key, Vec::new(), common_name, None)
    }
}

/// The curve behind an optional reference.
pub open spec fn curve_of(key_curve: Option<&KeyCurve>) -> Option<KeyCurve> {
    match key_curve {
        Some(c) => Some(*c),
        None => None,
    }
}

/// Whether a key spec is one of the RSA sizes.
pub open spec fn is_rsa(k: KeySpec) -> bool {
    k == KeySpec::Rsa2048 || k == KeySpec::Rsa3072 || k == KeySpec::Rsa4096
}

/// Generates a private key for the parameters, as PEM. Unsupported
/// parameters give `key_spec`'s error; RSA keys cannot be generated by the
/// signing backend of this build; an ECDSA key comes back as a text that
/// the CSR builder reads.
pub fn generate_private_key(key_algorithm: &KeyAlgorithm, key_size: Option<u16>, key_curve: Option<&KeyCurve>) -> (r: Result<String, String>)
    ensures
        spec_key_spec(*key_algorithm, key_size, curve_of(key_curve)) matches Err(m) ==> (r matches Err(e) && e@ == m),
        spec_key_spec(*key_algorithm, key_size, curve_of(key_curve)) matches Ok(k) && is_rsa(k) ==> (r matches Err(e)
            && e@ == "failed to generate RSA key: no RSA backend in this build"@),
        r matches Ok(t) ==> private_key_pem_ok(t@),
{
    let curve: Option<KeyCurve> = match key_curve {
        Some(c) => Some(*c),
        None => None,
    };
    let spec = match key_spec(*key_algorithm, key_size, curve) {
        Ok(k) => k,
        Err(e) => return Err(e),
    };
    match spec {
        KeySpec::EcdsaP256 | KeySpec::EcdsaP384 => rcgen_generate_ecdsa(spec),
        _ => Err("failed to generate RSA key: no RSA backend in this build".to_string()),
    }
}

/// Generates an ACME account key: a new PKCS#8 key, PEM-encoded as a
/// "PRIVATE KEY" block.
pub fn generate_account_key_pem() -> (r: Result<String, String>)
    ensures
        r matches Ok(t) ==> exists|d: Seq<u8>| t@ == pem_text_of("PRIVATE KEY"@, d),
{
    match account_key_pkcs8() {
        Ok(der) => {
            let text = pem_encode("PRIVATE KEY", der.as_slice());
            Ok(text)
        },
        Err(e) => Err(e),
    }
}

/// A CSR's DER as a PEM "CERTIFICATE REQUEST" block.
pub fn csr_pem(der: &Vec<u8>) -> (r: String)
    ensures
        r@ == pem_text_of("CERTIFICATE REQUEST"@, der@),
{
    pem_encode("CERTIFICATE REQUEST", der.as_slice())
}

} // verus!
