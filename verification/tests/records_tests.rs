use sha2::Digest;
use sslboard_desktop::csr::{
    csr_names, csr_subject_names, normalize_dns_sans, parse_and_validate_csr_bytes, parse_csr_der, resolve_csr_key_params, CsrCurve, CsrKey};
use sslboard_desktop::keygen::{build_csr_der, build_csr_der_with_subject, generate_private_key};
use sslboard_desktop::records::{build_record, NewRecord};
use sslboard_desktop::types::{CertificateSource, KeyAlgorithm, KeyCurve};

#[test]
fn issued_chains_become_records() {
    let certified = rcgen::generate_simple_self_signed(vec!["example.com".to_string()]).unwrap();
    let pem = certified.cert.pem();
    let der = certified.cert.der().to_vec();
    let record = build_record(
        NewRecord {
            chain_pem: pem.clone(),
            domains: vec!["www.example.com".to_string(), "example.com".to_string()],
            managed_key_ref: Some("sec_k".to_string()),
            key_algorithm: Some(KeyAlgorithm::Ecdsa),
            key_size: None,
            key_curve: Some(KeyCurve::P256),
        },
        "abc",
        "2024-01-01T00:00:00+00:00",
    )
    .unwrap();
    assert_eq!(record.id, "cert_abc");
    assert_eq!(record.sans, vec!["www.example.com", "example.com"]);
    assert_eq!(record.domain_roots, vec!["example.com", "example.com"]);
    assert_eq!(record.source, CertificateSource::Managed);
    assert_eq!(record.fingerprint, hex::encode(sha2::Sha256::digest(&der)));
    assert!(!record.issuer.is_empty());
    assert!(record.not_before.ends_with("+00:00"));
    assert_eq!(record.chain_pem.as_deref(), Some(pem.as_str()));
    let empty = NewRecord {
        chain_pem: String::new(),
        domains: vec![],
        managed_key_ref: None,
        key_algorithm: None,
        key_size: None,
        key_curve: None,
    };
    assert_eq!(build_record(empty, "x", "now").unwrap_err(), "issued certificate chain is empty");
}

#[test]
fn csr_bytes_give_der() {
    let key = rcgen::KeyPair::generate().unwrap();
    let params = rcgen::CertificateParams::new(vec!["example.com".to_string()]).unwrap();
    let csr = params.serialize_request(&key).unwrap();
    let der = csr.der().to_vec();
    let pem = csr.pem().unwrap();
    assert_eq!(parse_csr_der(pem.as_bytes()).unwrap(), der);
    assert_eq!(parse_csr_der(&der).unwrap(), der);
    let wrong = "-----BEGIN CERTIFICATE-----\nAQID\n-----END CERTIFICATE-----\n";
    assert_eq!(
        parse_csr_der(wrong.as_bytes()).unwrap_err(),
        "CSR PEM must have CERTIFICATE REQUEST tag"
    );
}

#[test]
fn csr_key_parameters() {
    assert_eq!(
        resolve_csr_key_params(CsrKey::Rsa { bits: Some(3072) }),
        Ok((KeyAlgorithm::Rsa, Some(3072), None))
    );
    assert_eq!(
        resolve_csr_key_params(CsrKey::Rsa { bits: Some(1024) }).unwrap_err(),
        "Unsupported RSA key size 1024. Allowed: 2048, 3072, 4096"
    );
    assert_eq!(
        resolve_csr_key_params(CsrKey::Rsa { bits: Some(70000) }).unwrap_err(),
        "RSA key size is too large"
    );
    assert_eq!(
        resolve_csr_key_params(CsrKey::Ec { curve: Some(CsrCurve::P384) }),
        Ok((KeyAlgorithm::Ecdsa, None, Some(KeyCurve::P384)))
    );
    assert_eq!(
        resolve_csr_key_params(CsrKey::Ec { curve: Some(CsrCurve::Other) }).unwrap_err(),
        "Unsupported ECDSA curve in CSR"
    );
    assert_eq!(resolve_csr_key_params(CsrKey::Other).unwrap_err(), "Unsupported CSR key algorithm");
}

#[test]
fn csr_names_are_normalized() {
    let names = vec!["WWW.Example.com".to_string(), "testé.fr".to_string(), "www.example.com".to_string()];
    assert_eq!(
        normalize_dns_sans(&names).unwrap(),
        vec!["www.example.com".to_string(), "xn--test-epa.fr".to_string()]
    );
    let bad = vec!["bad\u{e000}.com".to_string()];
    assert!(normalize_dns_sans(&bad).unwrap_err().starts_with("Invalid SAN entry \"bad\u{e000}.com\": "));
}

fn strings(v: &[&str]) -> Vec<String> {
    v.iter().map(|s| s.to_string()).collect()
}

#[test]
fn csr_names_split_primary_from_the_rest() {
    let (cn, rest) = csr_names(&strings(&["Example.COM", "www.example.com", "api.example.com", "example.com"])).unwrap();
    assert_eq!(cn, "example.com");
    assert_eq!(rest, strings(&["api.example.com", "www.example.com"]));
}

#[test]
fn csr_names_need_a_domain() {
    assert_eq!(csr_names(&Vec::new()).unwrap_err(), "At least one domain is required for CSR");
}

#[test]
fn csr_names_reject_bad_primary_and_bad_san() {
    let err = csr_names(&strings(&["bad\u{e000}.com"])).unwrap_err();
    assert!(err.starts_with("Invalid primary domain \"bad\u{e000}.com\": "));
    let err = csr_names(&strings(&["example.com", "bad\u{e000}.com"])).unwrap_err();
    assert!(err.starts_with("Invalid SAN entry \"bad\u{e000}.com\": "));
}

#[test]
fn csr_subject_names_keep_every_san() {
    let (cn, sans) = csr_subject_names("Host.Example.com", &strings(&["b.example.com", "a.example.com", "b.example.com"])).unwrap();
    assert_eq!(cn, "host.example.com");
    assert_eq!(sans, strings(&["a.example.com", "b.example.com"]));
    let err = csr_subject_names("bad\u{e000}.com", &Vec::new()).unwrap_err();
    assert!(err.starts_with("Invalid CSR subject \"bad\u{e000}.com\": "));
}

fn ecdsa_csr(common_name: &str, sans: &[&str]) -> Vec<u8> {
    let key = rcgen::KeyPair::generate_for(&rcgen::PKCS_ECDSA_P256_SHA256).unwrap();
    let mut params = rcgen::CertificateParams::new(Vec::<String>::new()).unwrap();
    params.distinguished_name.push(rcgen::DnType::CommonName, common_name.to_string());
    params.subject_alt_names = sans
        .iter()
        .map(|s| rcgen::SanType::DnsName(rcgen::Ia5String::try_from(*s).unwrap()))
        .collect();
    params.serialize_request(&key).unwrap().der().to_vec()
}

#[test]
fn parses_generated_csr_with_sans() {
    // RSA keys cannot be generated by this build's signing backend: the key is ECDSA P-256.
    let key = generate_private_key(&KeyAlgorithm::Ecdsa, None, Some(&KeyCurve::P256)).expect("key");
    let csr_der = build_csr_der(&key, &strings(&["example.com", "www.example.com"])).expect("csr");
    let parsed = parse_and_validate_csr_bytes(&csr_der).expect("parsed");
    assert_eq!(parsed.identifiers.len(), 1);
    assert_eq!(parsed.identifiers[0], "www.example.com");
    assert!(parsed.warnings.is_empty());
    assert_eq!(parsed.metadata.subject, "CN=example.com");
    assert_eq!(parsed.metadata.key_algorithm, KeyAlgorithm::Ecdsa);
    assert_eq!(parsed.metadata.key_curve, Some(KeyCurve::P256));
    assert_eq!(parsed.der, csr_der);
}

#[test]
fn warns_on_cn_only_csr() {
    let key = generate_private_key(&KeyAlgorithm::Ecdsa, None, Some(&KeyCurve::P256)).expect("key");
    let csr_der = build_csr_der_with_subject(&key, "example.com", &vec![]).expect("csr");
    let parsed = parse_and_validate_csr_bytes(&csr_der).expect("parsed");
    assert_eq!(parsed.identifiers, vec!["example.com".to_string()]);
    assert_eq!(parsed.warnings.len(), 1);
}

#[test]
fn rejects_unreadable_and_tampered_csrs() {
    assert_eq!(parse_and_validate_csr_bytes(&[1, 2, 3]).err(), Some("CSR is not valid DER data".to_string()));
    let mut csr_der = ecdsa_csr("example.com", &["www.example.com"]);
    let at = csr_der.windows(3).position(|w| w == b"www").unwrap();
    csr_der[at] = b'x';
    let err = parse_and_validate_csr_bytes(&csr_der).err().unwrap();
    assert!(err.starts_with("CSR signature validation failed: "), "{err}");
}

#[test]
fn records_keep_the_certificate_validity() {
    let key = rcgen::KeyPair::generate_for(&rcgen::PKCS_ECDSA_P256_SHA256).unwrap();
    let mut params = rcgen::CertificateParams::new(vec!["example.com".to_string()]).unwrap();
    params.not_before = rcgen::date_time_ymd(2021, 5, 1);
    params.not_after = rcgen::date_time_ymd(4096, 1, 1);
    let cert = params.self_signed(&key).unwrap();
    let record = build_record(
        NewRecord {
            chain_pem: cert.pem(),
            domains: vec!["example.com".to_string()],
            managed_key_ref: None,
            key_algorithm: None,
            key_size: None,
            key_curve: None,
        },
        "v",
        "2000-01-01T00:00:00+00:00",
    )
    .unwrap();
    assert_eq!(record.not_before, "2021-05-01T00:00:00+00:00");
    assert_eq!(record.not_after, "4096-01-01T00:00:00+00:00");
}
