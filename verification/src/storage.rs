//! The stored form of records: certificate rows, provider rows and their
//! lists of secret references, each with the reading that gives the record
//! back.
use vstd::prelude::*;

use crate::commands::opt_string;
use crate::dns_config::{text_views, DnsProvider};
use crate::issuance::{
    key_algorithm_to_db, key_curve_to_db, parse_key_algorithm, parse_key_curve, result_view,
    spec_algorithm_name, spec_curve_name, spec_parse_algorithm, spec_parse_curve,
};
use crate::text::{cat, cat3, chars_of, str_eq, trim_start_by, ws_pred};
use crate::types::{CertificateRecord, CertificateSource, KeyAlgorithm, KeyCurve};

verus! {

// ---------------------------------------------------------------------------
// JSON lists and timestamps
// ---------------------------------------------------------------------------

/// What `serde_json::from_str::<Vec<String>>` returns for a text: `None`
/// where it reports an error.
pub uninterp spec fn json_strings_of(raw: Seq<char>) -> Option<Seq<Seq<char>>>;

/// What `serde_json::to_string` writes for a list of strings.
pub uninterp spec fn json_text_of(v: Seq<Seq<char>>) -> Seq<char>;

/// Whether `chrono::DateTime::parse_from_rfc3339` accepts a text.
pub uninterp spec fn is_rfc3339(raw: Seq<char>) -> bool;

/// Calls `serde_json::from_str::<Vec<String>>`; the error message is the
/// crate's own.
#[verifier::external_body]
fn json_string_list(raw: &str) -> (r: Result<Vec<String>, String>)
    ensures
        r is Ok <==> json_strings_of(raw@) is Some,
        r matches Ok(v) ==> text_views(v@) == json_strings_of(raw@)->0,
{
    serde_json::from_str::<Vec<String>>(raw).map_err(|err| err.to_string())
}

/// Calls `serde_json::to_string` on a list of strings. Its documentation
/// names two causes of failure, a `Serialize` impl that fails and a map with
/// non-string keys; a list of strings has neither, so the call succeeds. The
/// text is a JSON array, so it starts with '[' and reads back as the same
/// list.
#[verifier::external_body]
fn json_list_text(v: &Vec<String>) -> (r: Result<String, String>)
    ensures
        r is Ok,
        r matches Ok(t) ==> t@ == json_text_of(text_views(v@)),
        r matches Ok(t) ==> json_strings_of(t@) == Some(text_views(v@)),
        r matches Ok(t) ==> t@.len() > 0 && t@[0] == '[',
{
    serde_json::to_string(v).map_err(|err| err.to_string())
}

/// Calls `chrono::DateTime::parse_from_rfc3339` and keeps whether it
/// succeeded; the error message is the crate's own.
#[verifier::external_body]
fn rfc3339_check(raw: &str) -> (r: Result<(), String>)
    ensures
        r is Ok <==> is_rfc3339(raw@),
{
    chrono::DateTime::parse_from_rfc3339(raw).map(|_| ()).map_err(|err| err.to_string())
}

// ---------------------------------------------------------------------------
// Secret references of a provider
// ---------------------------------------------------------------------------

/// A provider's stored secret references: none, a JSON list, or (as older
/// rows hold) a single reference; a text that starts like a list but does not
/// read as one is kept as a single reference.
pub open spec fn spec_decode_secret_refs(raw: Option<Seq<char>>) -> Seq<Seq<char>> {
    match raw {
        None => Seq::empty(),
        Some(r) => {
            let t = trim_start_by(r, ws_pred());
            if t.len() > 0 && t[0] == '[' {
                match json_strings_of(r) {
                    Some(v) => v,
                    None => seq![r],
                }
            } else {
                seq![r]
            }
        },
    }
}

/// Reads the secret references stored for a provider.
pub fn decode_secret_refs(raw: Option<String>) -> (r: Vec<String>)
    ensures
        text_views(r@) == spec_decode_secret_refs(opt_string(raw)),
{
    match raw {
        None => {
            let v: Vec<String> = Vec::new();
            assert(text_views(v@) =~= Seq::<Seq<char>>::empty());
            v
        },
        Some(r) => {
            let cs = chars_of(r.as_str());
            let t = crate::text::trim_ws_start_chars(&cs);
            if t.len() > 0 && t[0] == '[' {
                match json_string_list(r.as_str()) {
                    Ok(v) => v,
                    Err(_) => {
                        let mut v: Vec<String> = Vec::new();
                        v.push(r);
                        assert(text_views(v@) =~= seq![v@[0]@]);
                        v
                    },
                }
            } else {
                let mut v: Vec<String> = Vec::new();
                v.push(r);
                assert(text_views(v@) =~= seq![v@[0]@]);
                v
            }
        },
    }
}

/// The stored form of a provider's secret references: nothing for none,
/// else a JSON list.
pub fn encode_secret_refs(refs: &Vec<String>) -> (r: Result<Option<String>, String>)
    ensures
        refs@.len() == 0 ==> r matches Ok(None),
        refs@.len() > 0 ==> (r matches Ok(Some(t)) && t@ == json_text_of(text_views(refs@))),
        r is Ok,
        r matches Ok(o) ==> spec_decode_secret_refs(opt_string(o)) == text_views(refs@),
{
    if refs.len() == 0 {
        assert(text_views(refs@) =~= Seq::<Seq<char>>::empty());
        return Ok(None);
    }
    match json_list_text(refs) {
        Ok(t) => {
            proof {
                lemma_first_not_ws(t@);
            }
            Ok(Some(t))
        },
        Err(_) => Err("failed to serialize secret refs".to_string()),
    }
}

/// A text that starts with '[' keeps it after leading whitespace is trimmed.
proof fn lemma_first_not_ws(t: Seq<char>)
    requires
        t.len() > 0,
        t[0] == '[',
    ensures
        trim_start_by(t, ws_pred()) == t,
{
    assert(!crate::text::is_ws('['));
    crate::text::lemma_trim_start_by(t, ws_pred(), 0);
    assert(t.subrange(0, t.len() as int) =~= t);
}

// ---------------------------------------------------------------------------
// Certificate rows
// ---------------------------------------------------------------------------

/// A certificate as stored: lists as JSON text, the source and key
/// parameters by name.
#[derive(Debug, Clone)]
pub struct CertificateRow {
    pub id: String,
    pub subjects: String,
    pub sans: String,
    pub issuer: String,
    pub serial: String,
    pub not_before: String,
    pub not_after: String,
    pub fingerprint: String,
    pub source: String,
    pub domain_roots: String,
    pub tags: String,
    pub managed_key_ref: Option<String>,
    pub chain_pem: Option<String>,
    pub key_algorithm: Option<String>,
    pub key_size: Option<u16>,
    pub key_curve: Option<String>,
}

pub open spec fn spec_source_name(s: CertificateSource) -> Seq<char> {
    match s {
        CertificateSource::External => "External"@,
        CertificateSource::Managed => "Managed"@,
    }
}

/// The name under which a certificate source is stored.
pub fn source_to_db(source: CertificateSource) -> (r: &'static str)
    ensures
        r@ == spec_source_name(source),
{
    match source {
        CertificateSource::External => "External",
        CertificateSource::Managed => "Managed",
    }
}

pub open spec fn spec_source_of(raw: Seq<char>) -> Option<CertificateSource> {
    if raw == "External"@ {
        Some(CertificateSource::External)
    } else if raw == "Managed"@ {
        Some(CertificateSource::Managed)
    } else {
        None
    }
}

/// The certificate source stored under a name.
pub fn source_from_db(raw: &str) -> (r: Result<CertificateSource, String>)
    ensures
        spec_source_of(raw@) matches Some(s) ==> r == Ok::<CertificateSource, String>(s),
        spec_source_of(raw@) is None ==> (r matches Err(m) && m@ == "Unknown certificate source: "@
            + raw@),
{
    if str_eq(raw, "External") {
        Ok(CertificateSource::External)
    } else if str_eq(raw, "Managed") {
        Ok(CertificateSource::Managed)
    } else {
        Err(cat("Unknown certificate source: ", raw))
    }
}

/// `row` stores `record`.
pub open spec fn is_row_of(row: CertificateRow, record: CertificateRecord) -> bool {
    &&& row.id == record.id
    &&& json_strings_of(row.subjects@) == Some(text_views(record.subjects@))
    &&& json_strings_of(row.sans@) == Some(text_views(record.sans@))
    &&& json_strings_of(row.domain_roots@) == Some(text_views(record.domain_roots@))
    &&& json_strings_of(row.tags@) == Some(text_views(record.tags@))
    &&& row.issuer == record.issuer
    &&& row.serial == record.serial
    &&& row.not_before == record.not_before
    &&& row.not_after == record.not_after
    &&& row.fingerprint == record.fingerprint
    &&& row.source@ == spec_source_name(record.source)
    &&& row.managed_key_ref == record.managed_key_ref
    &&& row.chain_pem == record.chain_pem
    &&& opt_string(row.key_algorithm) == match record.key_algorithm {
        Some(a) => Some(spec_algorithm_name(a)),
        None => None,
    }
    &&& row.key_size == record.key_size
    &&& opt_string(row.key_curve) == match record.key_curve {
        Some(c) => Some(spec_curve_name(c)),
        None => None,
    }
}

/// `record` is what `row` reads as.
pub open spec fn is_record_of(rec: CertificateRecord, row: CertificateRow) -> bool {
    &&& rec.id == row.id
    &&& Some(text_views(rec.subjects@)) == json_strings_of(row.subjects@)
    &&& Some(text_views(rec.sans@)) == json_strings_of(row.sans@)
    &&& Some(text_views(rec.domain_roots@)) == json_strings_of(row.domain_roots@)
    &&& Some(text_views(rec.tags@)) == json_strings_of(row.tags@)
    &&& rec.issuer == row.issuer
    &&& rec.serial == row.serial
    &&& rec.not_before == row.not_before
    &&& rec.not_after == row.not_after
    &&& rec.fingerprint == row.fingerprint
    &&& spec_source_of(row.source@) == Some(rec.source)
    &&& rec.managed_key_ref == row.managed_key_ref
    &&& rec.chain_pem == row.chain_pem
    &&& spec_parse_algorithm(opt_string(row.key_algorithm)) == Ok::<Option<KeyAlgorithm>, Seq<char>>(
        rec.key_algorithm,
    )
    &&& rec.key_size == row.key_size
    &&& spec_parse_curve(opt_string(row.key_curve)) == Ok::<Option<KeyCurve>, Seq<char>>(rec.key_curve)
}

/// Two records hold the same values.
pub open spec fn same_record(a: CertificateRecord, b: CertificateRecord) -> bool {
    &&& a.id == b.id
    &&& text_views(a.subjects@) == text_views(b.subjects@)
    &&& text_views(a.sans@) == text_views(b.sans@)
    &&& text_views(a.domain_roots@) == text_views(b.domain_roots@)
    &&& text_views(a.tags@) == text_views(b.tags@)
    &&& a.issuer == b.issuer
    &&& a.serial == b.serial
    &&& a.not_before == b.not_before
    &&& a.not_after == b.not_after
    &&& a.fingerprint == b.fingerprint
    &&& a.source == b.source
    &&& a.managed_key_ref == b.managed_key_ref
    &&& a.chain_pem == b.chain_pem
    &&& a.key_algorithm == b.key_algorithm
    &&& a.key_size == b.key_size
    &&& a.key_curve == b.key_curve
}

/// What is stored reads back: the row that stores a record with RFC 3339
/// times reads, and reads as that record.
pub proof fn lemma_certificate_row_round_trip(record: CertificateRecord, row: CertificateRow, back: CertificateRecord)
    requires
        is_row_of(row, record),
        is_rfc3339(record.not_before@),
        is_rfc3339(record.not_after@),
    ensures
        row_reads(row),
        is_record_of(back, row) ==> same_record(back, record),
{
    reveal_strlit("External");
    reveal_strlit("Managed");
    match record.source {
        CertificateSource::External => {},
        CertificateSource::Managed => {
            assert("Managed"@[0] != "External"@[0]);
        },
    }
    match record.key_algorithm {
        Some(a) => crate::issuance::lemma_key_names_round_trip(a, KeyCurve::P256),
        None => {},
    }
    match record.key_curve {
        Some(c) => crate::issuance::lemma_key_names_round_trip(KeyAlgorithm::Rsa, c),
        None => {},
    }
}

/// The row that stores a certificate record; building it always succeeds.
pub fn record_to_row(record: &CertificateRecord) -> (r: Result<CertificateRow, String>)
    ensures
        r matches Ok(row) && is_row_of(row, *record),
{
    let subjects = json_list_text(&record.subjects)?;
    let sans = json_list_text(&record.sans)?;
    let domain_roots = json_list_text(&record.domain_roots)?;
    let tags = json_list_text(&record.tags)?;
    Ok(
        CertificateRow {
            id: record.id.clone(),
            subjects,
            sans,
            issuer: record.issuer.clone(),
            serial: record.serial.clone(),
            not_before: record.not_before.clone(),
            not_after: record.not_after.clone(),
            fingerprint: record.fingerprint.clone(),
            source: source_to_db(record.source).to_string(),
            domain_roots,
            tags,
            managed_key_ref: match &record.managed_key_ref {
                Some(k) => Some(k.clone()),
                None => None,
            },
            chain_pem: match &record.chain_pem {
                Some(c) => Some(c.clone()),
                None => None,
            },
            key_algorithm: key_algorithm_to_db(&record.key_algorithm),
            key_size: record.key_size,
            key_curve: key_curve_to_db(&record.key_curve),
        },
    )
}

/// Reads a stored list, with the context message used when it fails.
fn read_list(raw: &str, context: &str) -> (r: Result<Vec<String>, String>)
    ensures
        r is Ok <==> json_strings_of(raw@) is Some,
        r matches Ok(v) ==> text_views(v@) == json_strings_of(raw@)->0,
        r matches Err(m) ==> m@ == context@,
{
    match json_string_list(raw) {
        Ok(v) => Ok(v),
        Err(_) => Err(context.to_string()),
    }
}

/// Everything in a row reads: the source and key names are known, the
/// times are RFC 3339 and the lists are JSON lists of strings.
pub open spec fn row_reads(row: CertificateRow) -> bool {
    &&& spec_source_of(row.source@) is Some
    &&& is_rfc3339(row.not_before@)
    &&& is_rfc3339(row.not_after@)
    &&& json_strings_of(row.subjects@) is Some
    &&& json_strings_of(row.sans@) is Some
    &&& json_strings_of(row.domain_roots@) is Some
    &&& json_strings_of(row.tags@) is Some
    &&& spec_parse_algorithm(opt_string(row.key_algorithm)) is Ok
    &&& spec_parse_curve(opt_string(row.key_curve)) is Ok
}

/// The certificate record stored in a row. The checks run in order: source,
/// times, lists, key algorithm, key curve; the first that fails is reported.
pub fn record_from_row(row: CertificateRow) -> (r: Result<CertificateRecord, String>)
    ensures
        r is Ok <==> row_reads(row),
        r matches Ok(rec) ==> is_record_of(rec, row),
        spec_source_of(row.source@) is None ==> (r matches Err(m) && m@
            == "Unknown certificate source: "@ + row.source@),
        spec_source_of(row.source@) is Some && !is_rfc3339(row.not_before@) ==> (r matches Err(m)
            && m@ == "failed to parse not_before timestamp"@),
{
    let source = source_from_db(row.source.as_str())?;
    if rfc3339_check(row.not_before.as_str()).is_err() {
        return Err("failed to parse not_before timestamp".to_string());
    }
    if rfc3339_check(row.not_after.as_str()).is_err() {
        return Err("failed to parse not_after timestamp".to_string());
    }
    let subjects = read_list(row.subjects.as_str(), "failed to deserialize subjects")?;
    let sans = read_list(row.sans.as_str(), "failed to deserialize sans")?;
    let domain_roots = read_list(row.domain_roots.as_str(), "failed to deserialize domain_roots")?;
    let tags = read_list(row.tags.as_str(), "failed to deserialize tags")?;
    let key_algorithm = parse_key_algorithm(row.key_algorithm)?;
    let key_curve = parse_key_curve(row.key_curve)?;
    Ok(
        CertificateRecord {
            id: row.id,
            subjects,
            sans,
            issuer: row.issuer,
            serial: row.serial,
            not_before: row.not_before,
            not_after: row.not_after,
            fingerprint: row.fingerprint,
            source,
            domain_roots,
            tags,
            managed_key_ref: row.managed_key_ref,
            chain_pem: row.chain_pem,
            key_algorithm,
            key_size: row.key_size,
            key_curve,
        },
    )
}


// ---------------------------------------------------------------------------
// Provider rows
// ---------------------------------------------------------------------------

/// A DNS provider as stored: suffixes as a JSON list, secret references as
/// written by `encode_secret_refs`.
#[derive(Debug, Clone)]
pub struct ProviderRow {
    pub id: String,
    pub provider_type: String,
    pub label: String,
    pub domain_suffixes: String,
    pub secret_ref: Option<String>,
    pub config_json: Option<String>,
    pub created_at: String,
    pub updated_at: String,
}

/// `row` stores `p`.
pub open spec fn is_provider_row_of(row: ProviderRow, p: DnsProvider) -> bool {
    &&& row.id == p.id
    &&& row.provider_type == p.provider_type
    &&& row.label == p.label
    &&& json_strings_of(row.domain_suffixes@) == Some(text_views(p.domain_suffixes@))
    &&& spec_decode_secret_refs(opt_string(row.secret_ref)) == text_views(p.secret_refs@)
    &&& row.config_json == p.config_json
    &&& row.created_at == p.created_at
    &&& row.updated_at == p.updated_at
}

/// `p` is what `row` reads as.
pub open spec fn is_provider_of(p: DnsProvider, row: ProviderRow) -> bool {
    &&& p.id == row.id
    &&& p.provider_type == row.provider_type
    &&& p.label == row.label
    &&& Some(text_views(p.domain_suffixes@)) == json_strings_of(row.domain_suffixes@)
    &&& text_views(p.secret_refs@) == spec_decode_secret_refs(opt_string(row.secret_ref))
    &&& p.config_json == row.config_json
    &&& p.created_at == row.created_at
    &&& p.updated_at == row.updated_at
}

/// The row that stores a provider; building it always succeeds.
pub fn provider_to_row(p: &DnsProvider) -> (r: Result<ProviderRow, String>)
    ensures
        r matches Ok(row) && is_provider_row_of(row, *p),
{
    let domain_suffixes = match json_list_text(&p.domain_suffixes) {
        Ok(t) => t,
        Err(_) => {
            return Err("failed to serialize suffixes".to_string());
        },
    };
    let secret_ref = encode_secret_refs(&p.secret_refs)?;
    Ok(
        ProviderRow {
            id: p.id.clone(),
            provider_type: p.provider_type.clone(),
            label: p.label.clone(),
            domain_suffixes,
            secret_ref,
            config_json: match &p.config_json {
                Some(c) => Some(c.clone()),
                None => None,
            },
            created_at: p.created_at.clone(),
            updated_at: p.updated_at.clone(),
        },
    )
}

/// The provider stored in a row: its suffixes must read as a JSON list and
/// its times as RFC 3339, checked in that order.
pub fn provider_from_row(row: ProviderRow) -> (r: Result<DnsProvider, String>)
    ensures
        r is Ok <==> json_strings_of(row.domain_suffixes@) is Some && is_rfc3339(row.created_at@)
            && is_rfc3339(row.updated_at@),
        r matches Ok(p) ==> is_provider_of(p, row),
        json_strings_of(row.domain_suffixes@) is None ==> (r matches Err(m) && exists|tail: Seq<char>|
            m@ == "failed to parse domain_suffixes for provider "@ + row.id@ + ": "@ + tail),
{
    let domain_suffixes = match json_string_list(row.domain_suffixes.as_str()) {
        Ok(v) => v,
        Err(e) => {
            let head = cat3("failed to parse domain_suffixes for provider ", row.id.as_str(), ": ");
            return Err(cat(head.as_str(), e.as_str()));
        },
    };
    match rfc3339_check(row.created_at.as_str()) {
        Ok(()) => {},
        Err(e) => {
            let head = cat3("failed to parse created_at for provider ", row.id.as_str(), ": ");
            return Err(cat(head.as_str(), e.as_str()));
        },
    }
    match rfc3339_check(row.updated_at.as_str()) {
        Ok(()) => {},
        Err(e) => {
            let head = cat3("failed to parse updated_at for provider ", row.id.as_str(), ": ");
            return Err(cat(head.as_str(), e.as_str()));
        },
    }
    let secret_refs = decode_secret_refs(row.secret_ref);
    Ok(
        DnsProvider {
            id: row.id,
            provider_type: row.provider_type,
            label: row.label,
            domain_suffixes,
            secret_refs,
            config_json: row.config_json,
            created_at: row.created_at,
            updated_at: row.updated_at,
        },
    )
}

/// What is stored reads back: a provider row with RFC 3339 times reads as the
/// provider it stores.
pub proof fn lemma_provider_row_round_trip(p: DnsProvider, row: ProviderRow, back: DnsProvider)
    requires
        is_provider_row_of(row, p),
        is_rfc3339(p.created_at@),
        is_rfc3339(p.updated_at@),
    ensures
        json_strings_of(row.domain_suffixes@) is Some && is_rfc3339(row.created_at@) && is_rfc3339(
            row.updated_at@,
        ),
        is_provider_of(back, row) ==> back@ == p@,
{
}

} // verus!
