//! Certificate signing requests: reading the DER from a file's bytes, the
//! key parameters a request may use, and the names it is issued for.
use vstd::prelude::*;

use crate::commands::opt_string;
use crate::dns_config::text_views;
use crate::domain::{domain_error_text, normalize_domain_for_storage, storage_form};
use crate::providers::utf8_string;
use crate::text::{
    cat, cat3, contains, decimal, insert_sorted, seq_lt, spec_decimal, str_contains, strictly_sorted,
};
use crate::types::{KeyAlgorithm, KeyCurve};
use crate::dns_config::copy_strings;
use crate::issuance::derive_identifiers;
use crate::text::str_eq;
use x509_parser::certification_request::X509CertificationRequest;
use x509_parser::extensions::{GeneralName, ParsedExtension};
use x509_parser::prelude::FromDer;

verus! {

/// What a CSR says of itself.
#[derive(Debug, Clone)]
pub struct CsrMetadata {
    pub subject: String,
    pub sans: Vec<String>,
    pub key_algorithm: KeyAlgorithm,
    pub key_size: Option<u16>,
    pub key_curve: Option<KeyCurve>,
}

/// A CSR read and checked: its DER, what it says, the identifiers it is
/// issued for, and warnings for the user.
#[derive(Debug, Clone)]
pub struct ParsedCsr {
    pub der: Vec<u8>,
    pub metadata: CsrMetadata,
    pub identifiers: Vec<String>,
    pub warnings: Vec<String>,
}

/// What `pem::parse` returns for a text, as the block's tag and contents:
/// `None` where it reports an error.
pub uninterp spec fn pem_block_of(text: Seq<char>) -> Option<(Seq<char>, Seq<u8>)>;

/// Calls `pem::parse` and keeps the block's tag and contents.
#[verifier::external_body]
fn pem_parse_one(text: &str) -> (r: Option<(String, Vec<u8>)>)
    ensures
        match r {
            Some(b) => pem_block_of(text@) == Some((b.0@, b.1@)),
            None => pem_block_of(text@) is None,
        },
{
    pem::parse(text).ok().map(|p| (p.tag().to_string(), p.contents().to_vec()))
}

/// The DER of a CSR file: the contents of its PEM block where the bytes are
/// UTF-8 text holding one (whose tag must name a request), else the bytes.
pub open spec fn spec_csr_der(bytes: Seq<u8>) -> Result<Seq<u8>, Seq<char>> {
    if vstd::utf8::valid_utf8(bytes) {
        match pem_block_of(vstd::utf8::decode_utf8(bytes)) {
            Some(b) => if contains(b.0, "REQUEST"@) {
                Ok(b.1)
            } else {
                Err("CSR PEM must have CERTIFICATE REQUEST tag"@)
            },
            None => Ok(bytes),
        }
    } else {
        Ok(bytes)
    }
}

pub open spec fn bytes_result(r: Result<Vec<u8>, String>) -> Result<Seq<u8>, Seq<char>> {
    match r {
        Ok(b) => Ok(b@),
        Err(m) => Err(m@),
    }
}

/// Reads the DER of a CSR from a file's bytes (PEM or DER).
pub fn parse_csr_der(bytes: &[u8]) -> (r: Result<Vec<u8>, String>)
    ensures
        bytes_result(r) == spec_csr_der(bytes@),
{
    let owned = copy_bytes(bytes);
    match utf8_string(owned) {
        Some(text) => match pem_parse_one(text.as_str()) {
            Some((tag, contents)) => {
                if !str_contains(tag.as_str(), "REQUEST") {
                    return Err("CSR PEM must have CERTIFICATE REQUEST tag".to_string());
                }
                Ok(contents)
            },
            None => Ok(copy_bytes(bytes)),
        },
        None => Ok(copy_bytes(bytes)),
    }
}

fn copy_bytes(v: &[u8]) -> (r: Vec<u8>)
    ensures
        r@ == v@,
{
    let mut out: Vec<u8> = Vec::new();
    let mut i: usize = 0;
    while i < v.len()
        invariant
            i <= v.len(),
            out@ == v@.take(i as int),
        decreases v.len() - i,
    {
        out.push(v[i]);
        i = i + 1;
        assert(out@ =~= v@.take(i as int));
    }
    assert(v@.take(v.len() as int) =~= v@);
    out
}

/// The public key of a CSR as far as the key parameters go.
#[derive(Debug, Clone, Copy, PartialEq, Eq, Structural)]
pub enum CsrKey {
    /// An RSA key of that many bits; `None` where the key could not be read.
    Rsa { bits: Option<u64> },
    /// An EC key on that curve; `None` where the parameters name no curve.
    Ec { curve: Option<CsrCurve> },
    /// Any other algorithm.
    Other,
}

#[derive(Debug, Clone, Copy, PartialEq, Eq, Structural)]
pub enum CsrCurve {
    P256,
    P384,
    Other,
}

/// The key parameters of a CSR: RSA of 2048, 3072 or 4096 bits, or ECDSA on
/// P-256 or P-384.
pub open spec fn spec_csr_key_params(key: CsrKey) -> Result<(KeyAlgorithm, Option<u16>, Option<KeyCurve>), Seq<char>> {
    match key {
        CsrKey::Rsa { bits } => match bits {
            None => Err("Unable to parse RSA public key"@),
            Some(b) => if b > u16::MAX {
                Err("RSA key size is too large"@)
            } else if !(b == 2048 || b == 3072 || b == 4096) {
                Err("Unsupported RSA key size "@ + spec_decimal(b as nat) + ". Allowed: 2048, 3072, 4096"@)
            } else {
                Ok((KeyAlgorithm::Rsa, Some(b as u16), None))
            },
        },
        CsrKey::Ec { curve } => match curve {
            None => Err("ECDSA curve parameters missing"@),
            Some(CsrCurve::P256) => Ok((KeyAlgorithm::Ecdsa, None, Some(KeyCurve::P256))),
            Some(CsrCurve::P384) => Ok((KeyAlgorithm::Ecdsa, None, Some(KeyCurve::P384))),
            Some(CsrCurve::Other) => Err("Unsupported ECDSA curve in CSR"@),
        },
        CsrKey::Other => Err("Unsupported CSR key algorithm"@),
    }
}

/// The key parameters of a CSR's public key.
pub fn resolve_csr_key_params(key: CsrKey) -> (r: Result<(KeyAlgorithm, Option<u16>, Option<KeyCurve>), String>)
    ensures
        crate::issuance::params_view(r) == spec_csr_key_params(key),
{
    match key {
        CsrKey::Rsa { bits } => match bits {
            None => Err("Unable to parse RSA public key".to_string()),
            Some(b) => {
                if b > 65535 {
                    return Err("RSA key size is too large".to_string());
                }
                if !(b == 2048 || b == 3072 || b == 4096) {
                    let n = decimal(b);
                    return Err(cat3("Unsupported RSA key size ", n.as_str(), ". Allowed: 2048, 3072, 4096"));
                }
                Ok((KeyAlgorithm::Rsa, Some(b as u16), None))
            },
        },
        CsrKey::Ec { curve } => match curve {
            None => Err("ECDSA curve parameters missing".to_string()),
            Some(CsrCurve::P256) => Ok((KeyAlgorithm::Ecdsa, None, Some(KeyCurve::P256))),
            Some(CsrCurve::P384) => Ok((KeyAlgorithm::Ecdsa, None, Some(KeyCurve::P384))),
            Some(CsrCurve::Other) => Err("Unsupported ECDSA curve in CSR".to_string()),
        },
        CsrKey::Other => Err("Unsupported CSR key algorithm".to_string()),
    }
}

/// The non-empty storage forms of the first `k` names.
pub open spec fn name_set(names: Seq<String>, k: int) -> Set<Seq<char>> {
    Set::new(
        |x: Seq<char>|
            exists|i: int|
                0 <= i < k && storage_form((#[trigger] names[i])@) == Some(x) && x.len() > 0,
    )
}

pub open spec fn names_valid(names: Seq<String>, k: int) -> bool {
    forall|i: int| 0 <= i < k ==> storage_form((#[trigger] names[i])@) is Some
}

/// The DNS names of a CSR in storage form, sorted, without repeats or empty
/// entries; a name without a storage form is an error.
pub fn normalize_dns_sans(names: &Vec<String>) -> (r: Result<Vec<String>, String>)
    ensures
        r is Ok <==> names_valid(names@, names@.len() as int),
        r matches Ok(v) ==> strictly_sorted(text_views(v@)) && text_views(v@).to_set() == name_set(
            names@,
            names@.len() as int,
        ),
        r matches Err(m) ==> exists|i: int|
            #![trigger names@[i]]
            0 <= i < names@.len() && names_valid(names@, i) && storage_form(names@[i]@) is None && m@
                == "Invalid SAN entry \""@ + names@[i]@ + "\": "@ + domain_error_text(names@[i]@),
{
    let mut out: Vec<String> = Vec::new();
    let mut k: usize = 0;
    assert(text_views(out@).to_set() =~= name_set(names@, 0));
    while k < names.len()
        invariant
            k <= names@.len(),
            names_valid(names@, k as int),
            strictly_sorted(text_views(out@)),
            text_views(out@).to_set() == name_set(names@, k as int),
        decreases names@.len() - k,
    {
        let ghost before = text_views(out@).to_set();
        match normalize_domain_for_storage(names[k].as_str()) {
            Err(e) => {
                let head = cat3("Invalid SAN entry \"", names[k].as_str(), "\": ");
                let msg = e.message();
                let m = cat(head.as_str(), msg.as_str());
                return Err(m);
            },
            Ok(ascii) => {
                let ghost av = ascii@;
                if !ascii.as_str().is_empty() {
                    insert_sorted(&mut out, ascii);
                    assert(name_set(names@, k as int + 1) =~= before.insert(av)) by {
                        assert forall|x: Seq<char>| name_set(names@, k as int + 1).contains(x) implies before.insert(av).contains(x) by {
                            let i = choose|i: int|
                                0 <= i < k + 1 && storage_form((#[trigger] names@[i])@) == Some(x) && x.len() > 0;
                            if i < k {
                                assert(name_set(names@, k as int).contains(x));
                            }
                        }
                        assert forall|x: Seq<char>| before.insert(av).contains(x) implies name_set(names@, k as int + 1).contains(x) by {
                            if x != av {
                                let i = choose|i: int|
                                    0 <= i < k && storage_form((#[trigger] names@[i])@) == Some(x) && x.len() > 0;
                                assert(0 <= i < k + 1);
                            } else {
                                assert(storage_form(names@[k as int]@) == Some(av));
                            }
                        }
                    }
                } else {
                    assert(name_set(names@, k as int + 1) =~= before) by {
                        assert forall|x: Seq<char>| name_set(names@, k as int + 1).contains(x) implies before.contains(x) by {
                            let i = choose|i: int|
                                0 <= i < k + 1 && storage_form((#[trigger] names@[i])@) == Some(x) && x.len() > 0;
                            assert(i != k);
                        }
                        assert forall|x: Seq<char>| before.contains(x) implies name_set(names@, k as int + 1).contains(x) by {
                            let i = choose|i: int|
                                0 <= i < k && storage_form((#[trigger] names@[i])@) == Some(x) && x.len() > 0;
                            assert(0 <= i < k + 1);
                        }
                    }
                }
            },
        }
        k = k + 1;
    }
    Ok(out)
}


/// The names of `v` other than `p`, in their order.
fn without_name(v: Vec<String>, p: &String) -> (r: Vec<String>)
    requires
        strictly_sorted(text_views(v@)),
    ensures
        strictly_sorted(text_views(r@)),
        text_views(r@).to_set() == text_views(v@).to_set().remove(p@),
{
    let mut out: Vec<String> = Vec::new();
    let mut k: usize = 0;
    while k < v.len()
        invariant
            k <= v@.len(),
            strictly_sorted(text_views(v@)),
            strictly_sorted(text_views(out@)),
            forall|a: int|
                0 <= a < out@.len() ==> exists|j: int|
                    0 <= j < k && #[trigger] text_views(out@)[a] == text_views(v@)[j],
            text_views(out@).to_set() == text_views(v@).take(k as int).to_set().remove(p@),
        decreases v@.len() - k,
    {
        let ghost before = text_views(out@);
        let ghost x = text_views(v@)[k as int];
        let ghost t0 = text_views(v@).take(k as int);
        let ghost t1 = text_views(v@).take(k as int + 1);
        assert(t1 =~= t0.push(x));
        if v[k] != *p {
            let item = v[k].clone();
            out.push(item);
            assert(text_views(out@) =~= before.push(x));
            assert forall|a: int, b: int|
                0 <= a < b < text_views(out@).len() implies seq_lt(
                #[trigger] text_views(out@)[a],
                #[trigger] text_views(out@)[b],
            ) by {
                if b == before.len() {
                    let j = choose|j: int| #![auto] 0 <= j < k && before[a] == text_views(v@)[j];
                    assert(seq_lt(text_views(v@)[j], text_views(v@)[k as int]));
                } else {
                    assert(seq_lt(before[a], before[b]));
                }
            }
            assert forall|a: int| 0 <= a < out@.len() implies exists|j: int|
                0 <= j < k + 1 && #[trigger] text_views(out@)[a] == text_views(v@)[j] by {
                if a < before.len() {
                    let j = choose|j: int| #![auto] 0 <= j < k && before[a] == text_views(v@)[j];
                    assert(0 <= j < k + 1 && text_views(out@)[a] == text_views(v@)[j]);
                } else {
                    assert(text_views(out@)[a] == text_views(v@)[k as int]);
                }
            }
            assert(text_views(out@).to_set() =~= t1.to_set().remove(p@)) by {
                assert forall|y: Seq<char>| text_views(out@).to_set().contains(y) implies t1.to_set().remove(p@).contains(y) by {
                    if y != x {
                        assert(before.to_set().contains(y)) by {
                            let i = choose|i: int| #![auto] 0 <= i < text_views(out@).len() && text_views(out@)[i] == y;
                            assert(i < before.len());
                            assert(before[i] == y);
                        }
                        assert(t0.to_set().contains(y));
                        let i = choose|i: int| #![auto] 0 <= i < k && t0[i] == y;
                        assert(t1[i] == y);
                    } else {
                        assert(t1[k as int] == x);
                    }
                }
                assert forall|y: Seq<char>| t1.to_set().remove(p@).contains(y) implies text_views(out@).to_set().contains(y) by {
                    let i = choose|i: int| #![auto] 0 <= i < k + 1 && t1[i] == y;
                    if i < k {
                        assert(t0[i] == y);
                        assert(t0.to_set().remove(p@).contains(y));
                        assert(before.to_set().contains(y));
                        let t = choose|t: int| #![auto] 0 <= t < before.len() && before[t] == y;
                        assert(text_views(out@)[t] == y);
                    } else {
                        assert(text_views(out@)[before.len() as int] == y);
                    }
                }
            }
        } else {
            assert(x == p@);
            assert(text_views(out@).to_set() =~= t1.to_set().remove(p@)) by {
                assert forall|y: Seq<char>| t1.to_set().remove(p@).contains(y) implies text_views(out@).to_set().contains(y) by {
                    let i = choose|i: int| #![auto] 0 <= i < k + 1 && t1[i] == y;
                    assert(i < k);
                    assert(t0[i] == y);
                    assert(t0.to_set().remove(p@).contains(y));
                }
                assert forall|y: Seq<char>| text_views(out@).to_set().contains(y) implies t1.to_set().remove(p@).contains(y) by {
                    assert(t0.to_set().remove(p@).contains(y));
                    let i = choose|i: int| #![auto] 0 <= i < k && t0[i] == y;
                    assert(t1[i] == y);
                }
            }
        }
        k = k + 1;
    }
    assert(text_views(v@).take(v@.len() as int) =~= text_views(v@));
    out
}

/// The common name and the further DNS names of a CSR built for `sans`: the
/// first entry, in storage form, names the subject; the other entries, in
/// storage form, sorted, without repeats, empty entries or the subject, are
/// its alternative names.
pub fn csr_names(sans: &Vec<String>) -> (r: Result<(String, Vec<String>), String>)
    ensures
        sans@.len() == 0 ==> (r matches Err(m) && m@ == "At least one domain is required for CSR"@),
        sans@.len() > 0 && storage_form(sans@[0]@) is None ==> (r matches Err(m) && m@
            == "Invalid primary domain \""@ + sans@[0]@ + "\": "@ + domain_error_text(sans@[0]@)),
        sans@.len() > 0 && storage_form(sans@[0]@) is Some ==> {
            &&& (r is Ok <==> names_valid(sans@, sans@.len() as int))
            &&& (r matches Ok(x) ==> x.0@ == storage_form(sans@[0]@)->0 && strictly_sorted(
                text_views(x.1@),
            ) && text_views(x.1@).to_set() == name_set(sans@, sans@.len() as int).remove(x.0@))
            &&& (r matches Err(m) ==> exists|i: int|
                #![trigger sans@[i]]
                0 <= i < sans@.len() && names_valid(sans@, i) && storage_form(sans@[i]@) is None && m@
                    == "Invalid SAN entry \""@ + sans@[i]@ + "\": "@ + domain_error_text(sans@[i]@))
        },
{
    if sans.len() == 0 {
        return Err("At least one domain is required for CSR".to_string());
    }
    let primary = match normalize_domain_for_storage(sans[0].as_str()) {
        Ok(p) => p,
        Err(e) => {
            let head = cat3("Invalid primary domain \"", sans[0].as_str(), "\": ");
            let msg = e.message();
            return Err(cat(head.as_str(), msg.as_str()));
        },
    };
    let names = normalize_dns_sans(sans)?;
    let others = without_name(names, &primary);
    Ok((primary, others))
}

/// The common name and the DNS names of a CSR built for a subject and
/// `sans`: the subject in storage form, and every entry in storage form,
/// sorted, without repeats or empty entries.
pub fn csr_subject_names(subject: &str, sans: &Vec<String>) -> (r: Result<(String, Vec<String>), String>)
    ensures
        storage_form(subject@) is None ==> (r matches Err(m) && m@
            == "Invalid CSR subject \""@ + subject@ + "\": "@ + domain_error_text(subject@)),
        storage_form(subject@) is Some ==> {
            &&& (r is Ok <==> names_valid(sans@, sans@.len() as int))
            &&& (r matches Ok(x) ==> x.0@ == storage_form(subject@)->0 && strictly_sorted(
                text_views(x.1@),
            ) && text_views(x.1@).to_set() == name_set(sans@, sans@.len() as int))
            &&& (r matches Err(m) ==> exists|i: int|
                #![trigger sans@[i]]
                0 <= i < sans@.len() && names_valid(sans@, i) && storage_form(sans@[i]@) is None && m@
                    == "Invalid SAN entry \""@ + sans@[i]@ + "\": "@ + domain_error_text(sans@[i]@))
        },
{
    let subject_normalized = match normalize_domain_for_storage(subject) {
        Ok(p) => p,
        Err(e) => {
            let head = cat3("Invalid CSR subject \"", subject, "\": ");
            let msg = e.message();
            return Err(cat(head.as_str(), msg.as_str()));
        },
    };
    let names = normalize_dns_sans(sans)?;
    Ok((subject_normalized, names))
}

// ---------------------------------------------------------------------------
// Reading a CSR
// ---------------------------------------------------------------------------

/// Whether `X509CertificationRequest::from_der` reads the bytes.
pub uninterp spec fn csr_der_parses(der: Seq<u8>) -> bool;

/// Whether the request's `verify_signature` succeeds.
pub uninterp spec fn csr_signature_ok(der: Seq<u8>) -> bool;

/// The request's subject as it displays, and the text of its first common
/// name where it has one that reads as a string.
pub uninterp spec fn csr_subject_of(der: Seq<u8>) -> (Seq<char>, Option<Seq<char>>);

/// The DNS names of the subject-alternative-name extensions the request
/// asks for, in order.
pub uninterp spec fn csr_dns_names_of(der: Seq<u8>) -> Seq<Seq<char>>;

/// The request's public key as dotted OIDs: its algorithm, the curve its
/// parameters name, and the key size in bits where the key parses.
pub uninterp spec fn csr_key_fields_of(der: Seq<u8>) -> (Seq<char>, Option<Seq<char>>, Option<u64>);

/// Calls `X509CertificationRequest::from_der` and then `verify_signature`;
/// `None` where the bytes do not read. The error text is the crate's own.
#[verifier::external_body]
fn x509_csr_signature(der: &[u8]) -> (r: Option<Result<(), String>>)
    ensures
        r is Some <==> csr_der_parses(der@),
        r matches Some(v) ==> (v is Ok <==> csr_signature_ok(der@)),
{
    let (_, csr) = X509CertificationRequest::from_der(der).ok()?;
    Some(csr.verify_signature().map_err(|err| err.to_string()))
}

/// Calls `X509CertificationRequest::from_der` and reads the subject (as it
/// displays) and its first common name.
#[verifier::external_body]
fn x509_csr_subject(der: &[u8]) -> (r: Option<(String, Option<String>)>)
    ensures
        r is Some <==> csr_der_parses(der@),
        r matches Some(v) ==> csr_subject_of(der@) == (v.0@, opt_string(v.1)),
{
    let (_, csr) = X509CertificationRequest::from_der(der).ok()?;
    let subject = &csr.certification_request_info.subject;
    let cn = subject.iter_common_name().next().and_then(|c| c.as_str().ok()).map(|c| c.to_string());
    Some((subject.to_string(), cn))
}

/// Calls `X509CertificationRequest::from_der` and `requested_extensions`,
/// and lists the DNS names of the subject-alternative-name extensions.
#[verifier::external_body]
fn x509_csr_dns_names(der: &[u8]) -> (r: Option<Vec<String>>)
    ensures
        r is Some <==> csr_der_parses(der@),
        r matches Some(v) ==> text_views(v@) == csr_dns_names_of(der@),
{
    let (_, csr) = X509CertificationRequest::from_der(der).ok()?;
    let sans = csr.requested_extensions().into_iter().flatten().filter_map(|ext| match ext {
        ParsedExtension::SubjectAlternativeName(san) => Some(san),
        _ => None,
    });
    Some(sans.flat_map(|san| san.general_names.iter().filter_map(|name| match name {
        GeneralName::DNSName(dns) => Some(dns.to_string()),
        _ => None,
    })).collect())
}

/// Calls `X509CertificationRequest::from_der` and reads the public key's
/// algorithm and curve OIDs (`to_id_string`) and `parsed().key_size()`.
#[verifier::external_body]
fn x509_csr_key_fields(der: &[u8]) -> (r: Option<(String, Option<String>, Option<u64>)>)
    ensures
        r is Some <==> csr_der_parses(der@),
        r matches Some(v) ==> csr_key_fields_of(der@) == (v.0@, opt_string(v.1), v.2),
{
    let (_, csr) = X509CertificationRequest::from_der(der).ok()?;
    let spki = &csr.certification_request_info.subject_pki;
    let curve = spki.algorithm.parameters.as_ref().and_then(|p| p.as_oid().ok()).map(|o| o.to_id_string());
    let bits = spki.parsed().ok().map(|key| key.key_size() as u64);
    Some((spki.algorithm.algorithm.to_id_string(), curve, bits))
}

pub open spec fn rsa_oid() -> Seq<char> {
    "1.2.840.113549.1.1.1"@
}

pub open spec fn ec_oid() -> Seq<char> {
    "1.2.840.10045.2.1"@
}

pub open spec fn p256_oid() -> Seq<char> {
    "1.2.840.10045.3.1.7"@
}

pub open spec fn p384_oid() -> Seq<char> {
    "1.3.132.0.34"@
}

/// The key of a request from its OIDs: RSA (with its size), EC (with its
/// curve, P-256 or P-384 by OID), or another algorithm.
pub open spec fn spec_csr_key(fields: (Seq<char>, Option<Seq<char>>, Option<u64>)) -> CsrKey {
    if fields.0 == rsa_oid() {
        CsrKey::Rsa { bits: fields.2 }
    } else if fields.0 == ec_oid() {
        CsrKey::Ec {
            curve: match fields.1 {
                None => None,
                Some(c) => Some(
                    if c == p256_oid() {
                        CsrCurve::P256
                    } else if c == p384_oid() {
                        CsrCurve::P384
                    } else {
                        CsrCurve::Other
                    },
                ),
            },
        }
    } else {
        CsrKey::Other
    }
}

/// What a CSR's DER says, where it reads: whether its signature checks,
/// its subject, its first common name, its DNS names and its key.
pub open spec fn csr_request_of(der: Seq<u8>) -> Option<(bool, Seq<char>, Option<Seq<char>>, Seq<Seq<char>>, CsrKey)> {
    if csr_der_parses(der) {
        Some((
            csr_signature_ok(der),
            csr_subject_of(der).0,
            csr_subject_of(der).1,
            csr_dns_names_of(der),
            spec_csr_key(csr_key_fields_of(der)),
        ))
    } else {
        None
    }
}

fn csr_key(fields: (String, Option<String>, Option<u64>)) -> (k: CsrKey)
    ensures
        k == spec_csr_key((fields.0@, opt_string(fields.1), fields.2)),
{
    proof {
        reveal_strlit("1.2.840.113549.1.1.1");
        reveal_strlit("1.2.840.10045.2.1");
    }
    let (alg, curve, bits) = fields;
    if str_eq(alg.as_str(), "1.2.840.113549.1.1.1") {
        CsrKey::Rsa { bits }
    } else if str_eq(alg.as_str(), "1.2.840.10045.2.1") {
        let c = match curve {
            None => None,
            Some(oid) => Some(
                if str_eq(oid.as_str(), "1.2.840.10045.3.1.7") {
                    CsrCurve::P256
                } else if str_eq(oid.as_str(), "1.3.132.0.34") {
                    CsrCurve::P384
                } else {
                    CsrCurve::Other
                },
            ),
        };
        CsrKey::Ec { curve: c }
    } else {
        CsrKey::Other
    }
}

/// Every DNS name has a storage form.
pub open spec fn dns_names_valid(ns: Seq<Seq<char>>) -> bool {
    forall|i: int| 0 <= i < ns.len() ==> storage_form(#[trigger] ns[i]) is Some
}

/// The non-empty storage forms of the DNS names.
pub open spec fn dns_name_set(ns: Seq<Seq<char>>) -> Set<Seq<char>> {
    Set::new(|x: Seq<char>| exists|i: int| 0 <= i < ns.len() && storage_form(#[trigger] ns[i]) == Some(x) && x.len() > 0)
}

pub open spec fn cn_only_warning() -> Seq<char> {
    "CSR has no SAN entries; falling back to CN-only issuance."@
}

/// `p` holds the DER, subject and key parameters read.
pub open spec fn csr_fields(p: ParsedCsr, der: Seq<u8>, subject: Seq<char>, kp: (KeyAlgorithm, Option<u16>, Option<KeyCurve>)) -> bool {
    &&& p.der@ == der
    &&& p.metadata.subject@ == subject
    &&& p.metadata.key_algorithm == kp.0
    &&& p.metadata.key_size == kp.1
    &&& p.metadata.key_curve == kp.2
}

/// What reading and checking a CSR's DER gives, step by step: it must read,
/// its signature must check, its key must be supported, its DNS names must
/// have storage forms; the identifiers are those names (sorted, without
/// repeats), or else the common name with a warning.
pub open spec fn csr_outcome(der: Seq<u8>, r: Result<ParsedCsr, String>) -> bool {
    match csr_request_of(der) {
        None => r matches Err(m) && m@ == "CSR is not valid DER data"@,
        Some(q) => if !q.0 {
            r matches Err(m) && exists|t: Seq<char>| m@ == "CSR signature validation failed: "@ + t
        } else {
            match spec_csr_key_params(q.4) {
                Err(m) => r matches Err(e) && e@ == m,
                Ok(kp) => if !dns_names_valid(q.3) {
                    r matches Err(m) && exists|i: int|
                        #![trigger q.3[i]]
                        0 <= i < q.3.len() && dns_names_valid(q.3.take(i)) && storage_form(q.3[i]) is None
                            && m@ == "Invalid SAN entry \""@ + q.3[i] + "\": "@ + domain_error_text(q.3[i])
                } else if dns_name_set(q.3) != Set::<Seq<char>>::empty() {
                    r matches Ok(p) && csr_fields(p, der, q.1, kp) && strictly_sorted(
                        text_views(p.metadata.sans@),
                    ) && text_views(p.metadata.sans@).to_set() == dns_name_set(q.3)
                        && p.identifiers@ == p.metadata.sans@ && p.warnings@.len() == 0
                } else {
                    match q.2 {
                        None => r matches Err(m) && m@
                            == "CSR must include at least one DNS SAN or a Common Name"@,
                        Some(c) => match storage_form(c) {
                            Some(n) => r matches Ok(p) && csr_fields(p, der, q.1, kp)
                                && p.metadata.sans@.len() == 0 && text_views(p.identifiers@) == seq![n]
                                && text_views(p.warnings@) == seq![cn_only_warning()],
                            None => r matches Err(m) && m@
                                == "Invalid CSR common name \""@ + c + "\": "@ + domain_error_text(c),
                        },
                    }
                },
            }
        },
    }
}

/// Reads a CSR from a file's bytes and checks it: the DER (from PEM or as
/// given), its signature, its key, and its DNS names or common name.
pub fn parse_and_validate_csr_bytes(bytes: &[u8]) -> (r: Result<ParsedCsr, String>)
    ensures
        spec_csr_der(bytes@) matches Err(m) ==> (r matches Err(e) && e@ == m),
        spec_csr_der(bytes@) matches Ok(der) ==> csr_outcome(der, r),
{
    let der = parse_csr_der(bytes)?;
    let sig = match x509_csr_signature(der.as_slice()) {
        Some(s) => s,
        None => {
            return Err("CSR is not valid DER data".to_string());
        },
    };
    if let Err(e) = sig {
        return Err(cat("CSR signature validation failed: ", e.as_str()));
    }
    let fields = match x509_csr_key_fields(der.as_slice()) {
        Some(f) => f,
        None => {
            return Err("CSR is not valid DER data".to_string());
        },
    };
    let key = csr_key(fields);
    let (key_algorithm, key_size, key_curve) = resolve_csr_key_params(key)?;
    let (subject, common_name) = match x509_csr_subject(der.as_slice()) {
        Some(v) => v,
        None => {
            return Err("CSR is not valid DER data".to_string());
        },
    };
    let raw = match x509_csr_dns_names(der.as_slice()) {
        Some(v) => v,
        None => {
            return Err("CSR is not valid DER data".to_string());
        },
    };
    let ghost ns = text_views(raw@);
    proof {
        lemma_names_views(raw@);
    }
    let sans = match normalize_dns_sans(&raw) {
        Ok(v) => v,
        Err(m) => {
            proof {
                let i = choose|i: int|
                    #![trigger raw@[i]]
                    0 <= i < raw@.len() && names_valid(raw@, i) && storage_form(raw@[i]@) is None && m@
                        == "Invalid SAN entry \""@ + raw@[i]@ + "\": "@ + domain_error_text(raw@[i]@);
                assert(ns[i] == raw@[i]@);
                assert forall|j: int| 0 <= j < ns.take(i).len() implies storage_form(#[trigger] ns.take(i)[j]) is Some by {
                    assert(ns.take(i)[j] == raw@[j]@);
                    assert(storage_form(raw@[j]@) is Some);
                }
            }
            return Err(m);
        },
    };
    proof {
        if sans@.len() > 0 {
            assert(text_views(sans@).to_set().contains(text_views(sans@)[0]));
            assert(dns_name_set(ns).contains(text_views(sans@)[0]));
        } else {
            assert(text_views(sans@).to_set() =~= Set::<Seq<char>>::empty());
        }
    }
    let cn: Option<&str> = match &common_name {
        Some(c) => Some(c.as_str()),
        None => None,
    };
    let (identifiers, warnings) = derive_identifiers(copy_strings(&sans), cn)?;
    Ok(ParsedCsr {
        der,
        metadata: CsrMetadata { subject, sans, key_algorithm, key_size, key_curve },
        identifiers,
        warnings,
    })
}

/// The names of a list and their texts agree on validity and on their
/// storage forms.
proof fn lemma_names_views(v: Seq<String>)
    ensures
        names_valid(v, v.len() as int) <==> dns_names_valid(text_views(v)),
        name_set(v, v.len() as int) == dns_name_set(text_views(v)),
{
    let ns = text_views(v);
    assert(ns.len() == v.len());
    assert forall|i: int| 0 <= i < v.len() implies #[trigger] ns[i] == v[i]@ by {}
    if names_valid(v, v.len() as int) {
        assert forall|i: int| 0 <= i < ns.len() implies storage_form(#[trigger] ns[i]) is Some by {
            assert(storage_form(v[i]@) is Some);
        }
    }
    if dns_names_valid(ns) {
        assert forall|i: int| 0 <= i < v.len() implies storage_form((#[trigger] v[i])@) is Some by {
            assert(storage_form(ns[i]) is Some);
        }
    }
    assert(name_set(v, v.len() as int) =~= dns_name_set(ns)) by {
        assert forall|x: Seq<char>| name_set(v, v.len() as int).contains(x) implies dns_name_set(ns).contains(x) by {
            let i = choose|i: int| 0 <= i < v.len() && storage_form((#[trigger] v[i])@) == Some(x) && x.len() > 0;
            assert(storage_form(ns[i]) == Some(x));
        }
        assert forall|x: Seq<char>| dns_name_set(ns).contains(x) implies name_set(v, v.len() as int).contains(x) by {
            let i = choose|i: int| 0 <= i < ns.len() && storage_form(#[trigger] ns[i]) == Some(x) && x.len() > 0;
            assert(storage_form(v[i]@) == Some(x));
        }
    }
}

} // verus!
