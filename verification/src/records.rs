//! The inventory record of a newly issued certificate, read from the chain
//! that the issuer returned.
use vstd::prelude::*;

use sha2::Digest;

use crate::dns::spec_last_two_labels;
use crate::dns_config::text_views;
use crate::export::{blocks_view, pem_blocks_of, pem_parse_many};
use crate::issuance::root_from_hostname;
use crate::migration::{instant_to_rfc3339, rfc3339_text};
use crate::text::{cat, string_of, chars_of};
use crate::types::{CertificateRecord, CertificateSource, KeyAlgorithm, KeyCurve};

verus! {

/// What `x509_parser::parse_x509_certificate` reads from DER, as plain
/// values: the validity bounds (Unix seconds), the serial as
/// `raw_serial_as_string` writes it, the issuer name as it displays, and the
/// number of bytes left after the certificate's encoding; `None` where it
/// reports an error.
pub uninterp spec fn x509_fields_of(der: Seq<u8>) -> Option<(i64, i64, Seq<char>, Seq<char>, nat)>;

/// What `sha2::Sha256` computes for some bytes.
pub uninterp spec fn sha256_of(bytes: Seq<u8>) -> Seq<u8>;

/// Calls `x509_parser::parse_x509_certificate` and reads the fields the
/// inventory keeps, and the length of the input the parser left unread. The
/// validity bounds are `time::OffsetDateTime` values, whose year lies within
/// -9999..=9999 (the `time` crate is built without `large-dates`) and whose
/// offset is under a day, so their Unix seconds lie within ±4 * 10^11.
#[verifier::external_body]
fn x509_fields(der: &[u8]) -> (r: Result<(i64, i64, String, String, usize), String>)
    ensures
        r is Ok <==> x509_fields_of(der@) is Some,
        r matches Ok(f) ==> x509_fields_of(der@) == Some((f.0, f.1, f.2@, f.3@, f.4 as nat)),
        r matches Ok(f) ==> f.4 <= der@.len(),
        r matches Ok(f) ==> -400_000_000_000 <= f.0 <= 400_000_000_000,
        r matches Ok(f) ==> -400_000_000_000 <= f.1 <= 400_000_000_000,
{
    match x509_parser::parse_x509_certificate(der) {
        Ok((rest, cert)) => Ok((
            cert.validity().not_before.timestamp(),
            cert.validity().not_after.timestamp(),
            cert.raw_serial_as_string(),
            cert.issuer().to_string(),
            rest.len(),
        )),
        Err(err) => Err(err.to_string()),
    }
}

/// Computes the SHA-256 digest of some bytes with `sha2::Sha256`; it is 32
/// bytes long.
#[verifier::external_body]
fn sha256_digest(bytes: &[u8]) -> (r: Vec<u8>)
    ensures
        r@ == sha256_of(bytes@),
        r@.len() == 32,
{
    sha2::Sha256::digest(bytes).to_vec()
}

/// The lower-case hex digit of a value below 16.
pub open spec fn hex_digit(d: int) -> char {
    if d < 10 {
        crate::text::digit_char(d)
    } else if d == 10 {
        'a'
    } else if d == 11 {
        'b'
    } else if d == 12 {
        'c'
    } else if d == 13 {
        'd'
    } else if d == 14 {
        'e'
    } else {
        'f'
    }
}

/// Bytes as lower-case hex, two digits per byte.
pub open spec fn spec_hex(bytes: Seq<u8>) -> Seq<char>
    decreases bytes.len(),
{
    if bytes.len() == 0 {
        Seq::empty()
    } else {
        spec_hex(bytes.drop_last()) + seq![
            hex_digit((bytes.last() / 16) as int),
            hex_digit((bytes.last() % 16) as int),
        ]
    }
}

/// The lower-case hex digit of a value below 16.
fn hex_char(d: u8) -> (c: char)
    requires
        d < 16,
    ensures
        c == hex_digit(d as int),
{
    match d {
        0 => '0',
        1 => '1',
        2 => '2',
        3 => '3',
        4 => '4',
        5 => '5',
        6 => '6',
        7 => '7',
        8 => '8',
        9 => '9',
        10 => 'a',
        11 => 'b',
        12 => 'c',
        13 => 'd',
        14 => 'e',
        _ => 'f',
    }
}

/// Writes each byte as two lower-case hex digits (what `hex::encode` does).
fn hex_encode(bytes: &[u8]) -> (r: String)
    ensures
        r@ == spec_hex(bytes@),
{
    let mut out: Vec<char> = Vec::new();
    let mut i: usize = 0;
    while i < bytes.len()
        invariant
            i <= bytes@.len(),
            out@ == spec_hex(bytes@.take(i as int)),
        decreases bytes@.len() - i,
    {
        let b = bytes[i];
        assert(bytes@.take(i as int + 1).drop_last() =~= bytes@.take(i as int));
        assert(bytes@.take(i as int + 1).last() == b);
        out.push(hex_char(b / 16));
        out.push(hex_char(b % 16));
        assert(out@ =~= spec_hex(bytes@.take(i as int + 1)));
        i = i + 1;
    }
    assert(bytes@.take(bytes@.len() as int) =~= bytes@);
    crate::text::string_of(&out)
}

/// The issuer name shown for a certificate: its issuer, or "ACME Issuer"
/// where that is empty.
pub open spec fn shown_issuer(name: Seq<char>) -> Seq<char> {
    if name.len() == 0 {
        "ACME Issuer"@
    } else {
        name
    }
}

/// The parameters of a new inventory record.
pub struct NewRecord {
    pub chain_pem: String,
    pub domains: Vec<String>,
    pub managed_key_ref: Option<String>,
    pub key_algorithm: Option<KeyAlgorithm>,
    pub key_size: Option<u16>,
    pub key_curve: Option<KeyCurve>,
}

/// The inventory record of an issued certificate: read from the first PEM
/// block of the chain, named "cert_" followed by `unique`, for the requested
/// domains, with the validity bounds as RFC 3339 text and the SHA-256
/// fingerprint of the certificate in hex. (`now` would stand for a bound
/// chrono cannot represent; x509 bounds always can be.)
pub fn build_record(params: NewRecord, unique: &str, now: &str) -> (r: Result<CertificateRecord, String>)
    ensures
        pem_blocks_of(params.chain_pem@) is None ==> (r matches Err(m) && exists|t: Seq<char>| m@
            == "failed to parse certificate chain: "@ + t),
        pem_blocks_of(params.chain_pem@) matches Some(b) ==> {
            &&& (b.len() == 0 ==> (r matches Err(m) && m@ == "issued certificate chain is empty"@))
            &&& (b.len() > 0 && x509_fields_of(b[0].1) is None ==> (r matches Err(m) && exists|t: Seq<char>| m@
                == "failed to parse issued certificate DER: "@ + t))
            &&& (b.len() > 0 ==> (x509_fields_of(b[0].1) matches Some(f) ==> (r matches Ok(rec) && {
                &&& rec.id@ == "cert_"@ + unique@
                &&& text_views(rec.subjects@) == text_views(params.domains@)
                &&& text_views(rec.sans@) == text_views(params.domains@)
                &&& rec.issuer@ == shown_issuer(f.3)
                &&& rec.serial@ == f.2
                &&& rec.not_before@ == rfc3339_text((f.0, 0u32))
                &&& rec.not_after@ == rfc3339_text((f.1, 0u32))
                &&& rec.fingerprint@ == spec_hex(sha256_of(b[0].1.take(b[0].1.len() - f.4)))
                &&& rec.source == CertificateSource::Managed
                &&& text_views(rec.domain_roots@) == params.domains@.map_values(
                    |d: String| spec_last_two_labels(d@),
                )
                &&& rec.tags@.len() == 0
                &&& rec.chain_pem == Some(params.chain_pem)
                &&& rec.managed_key_ref == params.managed_key_ref
                &&& rec.key_algorithm == params.key_algorithm
                &&& rec.key_size == params.key_size
                &&& rec.key_curve == params.key_curve
            })))
        },
{
    let blocks = match pem_parse_many(params.chain_pem.as_str()) {
        Ok(b) => b,
        Err(e) => {
            return Err(cat("failed to parse certificate chain: ", e.as_str()));
        },
    };
    proof {
        assert(blocks_view(blocks@).len() == blocks@.len());
    }
    if blocks.len() == 0 {
        return Err("issued certificate chain is empty".to_string());
    }
    let der = &blocks[0].1;
    assert(blocks_view(blocks@)[0].1 == der@);
    let fields = match x509_fields(der.as_slice()) {
        Ok(f) => f,
        Err(e) => {
            return Err(cat("failed to parse issued certificate DER: ", e.as_str()));
        },
    };
    let (not_before_secs, not_after_secs, serial, issuer_name, rest_len) = fields;
    let raw_len = der.len() - rest_len;
    let raw = crate::text::slice_copy_bytes(der.as_slice(), 0, raw_len);
    assert(raw@ =~= der@.take(raw_len as int));
    let fingerprint = hex_encode(sha256_digest(raw.as_slice()).as_slice());
    let not_before = match instant_to_rfc3339((not_before_secs, 0)) {
        Some(t) => t,
        None => string_of(&chars_of(now)),
    };
    let not_after = match instant_to_rfc3339((not_after_secs, 0)) {
        Some(t) => t,
        None => string_of(&chars_of(now)),
    };
    let issuer = if issuer_name.as_str().is_empty() {
        "ACME Issuer".to_string()
    } else {
        issuer_name
    };
    let mut roots: Vec<String> = Vec::new();
    let mut i: usize = 0;
    while i < params.domains.len()
        invariant
            i <= params.domains@.len(),
            roots@.len() == i,
            forall|k: int| 0 <= k < i ==> (#[trigger] roots@[k])@ == spec_last_two_labels(params.domains@[k]@),
        decreases params.domains@.len() - i,
    {
        roots.push(root_from_hostname(params.domains[i].as_str()));
        i = i + 1;
    }
    assert(text_views(roots@) =~= params.domains@.map_values(|d: String| spec_last_two_labels(d@)));
    let subjects = crate::dns_config::copy_strings(&params.domains);
    let NewRecord { chain_pem, domains, managed_key_ref, key_algorithm, key_size, key_curve } = params;
    Ok(
        CertificateRecord {
            id: cat("cert_", unique),
            subjects,
            sans: domains,
            issuer,
            serial,
            not_before,
            not_after,
            fingerprint,
            source: CertificateSource::Managed,
            domain_roots: roots,
            tags: Vec::new(),
            managed_key_ref,
            chain_pem: Some(chain_pem),
            key_algorithm,
            key_size,
            key_curve,
        },
    )
}

} // verus!
