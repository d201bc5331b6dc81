//! The decisions of certificate issuance: which domains are requested, which
//! key is made, how DNS-01 challenges are presented and checked, and the
//! names under which key parameters are stored.
use vstd::prelude::*;

use crate::commands::{opt_string, provider_zone_override};
use crate::dns::{
    record_name, spec_last_two_labels, spec_record_name, derive_zone, is_instruction, views,
    DnsAdapter, DnsChallengeRequest, DnsPropagationResult, DnsRecordInstruction, ManualDnsAdapter,
    PropagationState,
};
use crate::dns_config::{text_views, DnsProviderResolution};
use crate::domain::{domain_error_text, normalize_domain_for_storage, storage_form};
use crate::text::{
    cat, cat3, chars_of, decimal, insert_sorted, spec_decimal, str_eq, string_of, strictly_sorted,
    trim_ws, trim_ws_chars,
};
use crate::types::{KeyAlgorithm, KeyCurve};
use crate::export::{blocks_view, pem_blocks_of, pem_parse_many};

verus! {

// ---------------------------------------------------------------------------
// Domains
// ---------------------------------------------------------------------------

/// The non-empty storage forms of the non-blank entries among the first `k`.
pub open spec fn requested_domains(domains: Seq<String>, k: int) -> Set<Seq<char>> {
    Set::new(
        |x: Seq<char>|
            exists|i: int|
                0 <= i < k && trim_ws((#[trigger] domains[i])@).len() > 0 && storage_form(
                    trim_ws(domains[i]@),
                ) == Some(x) && x.len() > 0,
    )
}

/// Every non-blank entry among the first `k` has a storage form.
pub open spec fn domains_valid(domains: Seq<String>, k: int) -> bool {
    forall|i: int|
        0 <= i < k && trim_ws((#[trigger] domains[i])@).len() > 0 ==> storage_form(
            trim_ws(domains[i]@),
        ) is Some
}

/// Normalizes the domains of an issuance request: blank entries are
/// skipped, the others put into storage form, sorted, without repeats.
/// Fails on an empty request, on the first entry without a storage form, and
/// when nothing is left.
pub fn validate_and_normalize_domains(domains: Vec<String>) -> (r: Result<Vec<String>, String>)
    ensures
        domains@.len() == 0 ==> (r matches Err(m) && m@ == "At least one domain is required"@),
        domains@.len() > 0 && !domains_valid(domains@, domains@.len() as int) ==> (r matches Err(m)
            && exists|i: int|
            #![trigger domains@[i]]
            0 <= i < domains@.len() && domains_valid(domains@, i) && storage_form(
                trim_ws(domains@[i]@),
            ) is None && trim_ws(domains@[i]@).len() > 0 && m@ == "Invalid domain name \""@
                + trim_ws(domains@[i]@) + "\": "@ + domain_error_text(trim_ws(domains@[i]@))),
        domains@.len() > 0 && domains_valid(domains@, domains@.len() as int) ==> {
            let set = requested_domains(domains@, domains@.len() as int);
            &&& (r is Ok <==> set.len() > 0)
            &&& (r matches Err(m) ==> m@ == "No valid domains provided"@)
            &&& (r matches Ok(v) ==> strictly_sorted(text_views(v@)) && text_views(v@).to_set()
                == set)
        },
{
    if domains.len() == 0 {
        return Err("At least one domain is required".to_string());
    }
    let mut out: Vec<String> = Vec::new();
    let mut k: usize = 0;
    assert(text_views(out@).to_set() =~= requested_domains(domains@, 0));
    while k < domains.len()
        invariant
            k <= domains@.len(),
            domains_valid(domains@, k as int),
            strictly_sorted(text_views(out@)),
            text_views(out@).to_set() == requested_domains(domains@, k as int),
        decreases domains@.len() - k,
    {
        let ghost before = text_views(out@).to_set();
        let ghost d = domains@[k as int];
        let trimmed = string_of(&trim_ws_chars(&chars_of(domains[k].as_str())));
        if trimmed.as_str().is_empty() {
            assert(requested_domains(domains@, k as int + 1) =~= before) by {
                assert forall|x: Seq<char>|
                    requested_domains(domains@, k as int + 1).contains(x) implies before.contains(
                    x,
                ) by {
                    let i = choose|i: int|
                        0 <= i < k + 1 && trim_ws((#[trigger] domains@[i])@).len() > 0
                            && storage_form(trim_ws(domains@[i]@)) == Some(x) && x.len() > 0;
                    assert(i != k);
                }
                assert forall|x: Seq<char>|
                    before.contains(x) implies requested_domains(domains@, k as int + 1).contains(
                    x,
                ) by {
                    let i = choose|i: int|
                        0 <= i < k && trim_ws((#[trigger] domains@[i])@).len() > 0
                            && storage_form(trim_ws(domains@[i]@)) == Some(x) && x.len() > 0;
                    assert(0 <= i < k + 1);
                }
            }
        } else {
            match normalize_domain_for_storage(trimmed.as_str()) {
                Err(e) => {
                    let head = cat3("Invalid domain name \"", trimmed.as_str(), "\": ");
                    let msg = e.message();
                    let m = cat(head.as_str(), msg.as_str());
                    proof {
                        assert(m@ == "Invalid domain name \""@ + trim_ws(domains@[k as int]@)
                            + "\": "@ + msg@);
                    }
                    return Err(m);
                },
                Ok(ascii) => {
                    let ghost av = ascii@;
                    if !ascii.as_str().is_empty() {
                        insert_sorted(&mut out, ascii);
                        assert(requested_domains(domains@, k as int + 1) =~= before.insert(av)) by {
                            assert forall|x: Seq<char>|
                                requested_domains(domains@, k as int + 1).contains(
                                x,
                            ) implies before.insert(av).contains(x) by {
                                let i = choose|i: int|
                                    0 <= i < k + 1 && trim_ws((#[trigger] domains@[i])@).len() > 0
                                        && storage_form(trim_ws(domains@[i]@)) == Some(x) && x.len()
                                        > 0;
                                if i < k {
                                    assert(requested_domains(domains@, k as int).contains(x));
                                }
                            }
                            assert forall|x: Seq<char>|
                                before.insert(av).contains(x) implies requested_domains(
                                domains@,
                                k as int + 1,
                            ).contains(x) by {
                                if x != av {
                                    assert(requested_domains(domains@, k as int).contains(x));
                                    let i = choose|i: int|
                                        0 <= i < k && trim_ws((#[trigger] domains@[i])@).len() > 0
                                            && storage_form(trim_ws(domains@[i]@)) == Some(x)
                                            && x.len() > 0;
                                    assert(0 <= i < k + 1);
                                } else {
                                    assert(trim_ws(domains@[k as int]@).len() > 0);
                                }
                            }
                        }
                    } else {
                        assert(requested_domains(domains@, k as int + 1) =~= before) by {
                            assert forall|x: Seq<char>|
                                requested_domains(domains@, k as int + 1).contains(
                                x,
                            ) implies before.contains(x) by {
                                let i = choose|i: int|
                                    0 <= i < k + 1 && trim_ws((#[trigger] domains@[i])@).len() > 0
                                        && storage_form(trim_ws(domains@[i]@)) == Some(x) && x.len()
                                        > 0;
                                assert(i != k);
                            }
                            assert forall|x: Seq<char>|
                                before.contains(x) implies requested_domains(
                                domains@,
                                k as int + 1,
                            ).contains(x) by {
                                let i = choose|i: int|
                                    0 <= i < k && trim_ws((#[trigger] domains@[i])@).len() > 0
                                        && storage_form(trim_ws(domains@[i]@)) == Some(x) && x.len()
                                        > 0;
                                assert(0 <= i < k + 1);
                            }
                        }
                    }
                },
            }
        }
        k = k + 1;
    }
    proof {
        vstd::seq_lib::seq_to_set_is_finite(text_views(out@));
        vstd::set_lib::lemma_set_empty_equivalency_len(text_views(out@).to_set());
    }
    if out.len() == 0 {
        assert(text_views(out@).to_set() =~= Set::<Seq<char>>::empty());
        return Err("No valid domains provided".to_string());
    }
    assert(text_views(out@).to_set().contains(text_views(out@)[0]));
    Ok(out)
}

// ---------------------------------------------------------------------------
// Keys
// ---------------------------------------------------------------------------

/// The key parameters an issuance uses: without an algorithm, RSA 2048 (and
/// no size or curve may be given); RSA needs a size of 2048, 3072 or 4096 and
/// no curve; ECDSA needs a curve and no size.
pub open spec fn spec_key_params(
    key_algorithm: Option<KeyAlgorithm>,
    key_size: Option<u16>,
    key_curve: Option<KeyCurve>,
) -> Result<(KeyAlgorithm, Option<u16>, Option<KeyCurve>), Seq<char>> {
    match key_algorithm {
        None => if key_size is Some || key_curve is Some {
            Err("Key parameters must include key_algorithm when size/curve is provided"@)
        } else {
            Ok((KeyAlgorithm::Rsa, Some(2048u16), None))
        },
        Some(KeyAlgorithm::Rsa) => match key_size {
            None => Err("RSA key_size is required"@),
            Some(size) => if !(size == 2048 || size == 3072 || size == 4096) {
                Err("Unsupported RSA key size "@ + spec_decimal(size as nat)
                    + ". Allowed: 2048, 3072, 4096"@)
            } else if key_curve is Some {
                Err("RSA issuance does not accept key_curve"@)
            } else {
                Ok((KeyAlgorithm::Rsa, Some(size), None))
            },
        },
        Some(KeyAlgorithm::Ecdsa) => if key_size is Some {
            Err("ECDSA issuance does not accept key_size"@)
        } else {
            match key_curve {
                None => Err("ECDSA key_curve is required"@),
                Some(c) => Ok((KeyAlgorithm::Ecdsa, None, Some(c))),
            }
        },
    }
}

pub open spec fn params_view(r: Result<(KeyAlgorithm, Option<u16>, Option<KeyCurve>), String>) -> Result<
    (KeyAlgorithm, Option<u16>, Option<KeyCurve>),
    Seq<char>,
> {
    match r {
        Ok(p) => Ok(p),
        Err(m) => Err(m@),
    }
}

/// Checks and completes the key parameters of an issuance request.
pub fn resolve_key_params(
    key_algorithm: Option<KeyAlgorithm>,
    key_size: Option<u16>,
    key_curve: Option<KeyCurve>,
) -> (r: Result<(KeyAlgorithm, Option<u16>, Option<KeyCurve>), String>)
    ensures
        params_view(r) == spec_key_params(key_algorithm, key_size, key_curve),
{
    match key_algorithm {
        None => {
            if key_size.is_some() || key_curve.is_some() {
                return Err(
                    "Key parameters must include key_algorithm when size/curve is provided".to_string(),
                );
            }
            Ok((KeyAlgorithm::Rsa, Some(2048), None))
        },
        Some(KeyAlgorithm::Rsa) => {
            let size = match key_size {
                Some(s) => s,
                None => {
                    return Err("RSA key_size is required".to_string());
                },
            };
            if !(size == 2048 || size == 3072 || size == 4096) {
                let n = decimal(size as u64);
                return Err(cat3("Unsupported RSA key size ", n.as_str(), ". Allowed: 2048, 3072, 4096"));
            }
            if key_curve.is_some() {
                return Err("RSA issuance does not accept key_curve".to_string());
            }
            Ok((KeyAlgorithm::Rsa, Some(size), None))
        },
        Some(KeyAlgorithm::Ecdsa) => {
            if key_size.is_some() {
                return Err("ECDSA issuance does not accept key_size".to_string());
            }
            match key_curve {
                None => Err("ECDSA key_curve is required".to_string()),
                Some(c) => Ok((KeyAlgorithm::Ecdsa, None, Some(c))),
            }
        },
    }
}

/// Resolving never replaces what a request gives: an algorithm, a size or a
/// curve that was given comes back unchanged. ECDSA with a curve and no size,
/// and RSA with an allowed size and no curve, are accepted as asked; a request
/// with nothing given is RSA 2048; every other request is refused. What comes
/// back is always usable: RSA with an allowed size and no curve, or ECDSA with
/// a curve and no size.
pub proof fn lemma_key_params_keep_request(
    key_algorithm: Option<KeyAlgorithm>,
    key_size: Option<u16>,
    key_curve: Option<KeyCurve>,
)
    ensures
        spec_key_params(key_algorithm, key_size, key_curve) matches Ok(p) ==> {
            &&& (key_algorithm matches Some(a) ==> p.0 == a)
            &&& (key_size is Some ==> p.1 == key_size)
            &&& (key_curve is Some ==> p.2 == key_curve)
        },
        key_algorithm == Some(KeyAlgorithm::Ecdsa) && key_size is None && key_curve is Some ==> spec_key_params(
            key_algorithm,
            key_size,
            key_curve,
        ) == Ok::<(KeyAlgorithm, Option<u16>, Option<KeyCurve>), Seq<char>>((KeyAlgorithm::Ecdsa, None, key_curve)),
        key_algorithm == Some(KeyAlgorithm::Rsa) && (key_size == Some(2048u16) || key_size == Some(3072u16)
            || key_size == Some(4096u16)) && key_curve is None ==> spec_key_params(key_algorithm, key_size, key_curve)
            == Ok::<(KeyAlgorithm, Option<u16>, Option<KeyCurve>), Seq<char>>((KeyAlgorithm::Rsa, key_size, None)),
        key_algorithm is None && key_size is None && key_curve is None ==> spec_key_params(key_algorithm, key_size, key_curve)
            == Ok::<(KeyAlgorithm, Option<u16>, Option<KeyCurve>), Seq<char>>((KeyAlgorithm::Rsa, Some(2048u16), None)),
        spec_key_params(key_algorithm, key_size, key_curve) is Ok <==> {
            ||| (key_algorithm is None && key_size is None && key_curve is None)
            ||| (key_algorithm == Some(KeyAlgorithm::Rsa) && (key_size == Some(2048u16) || key_size == Some(3072u16)
                || key_size == Some(4096u16)) && key_curve is None)
            ||| (key_algorithm == Some(KeyAlgorithm::Ecdsa) && key_size is None && key_curve is Some)
        },
        spec_key_params(key_algorithm, key_size, key_curve) matches Ok(p) ==> {
            ||| (p.0 == KeyAlgorithm::Rsa && (p.1 == Some(2048u16) || p.1 == Some(3072u16) || p.1 == Some(4096u16))
                && p.2 is None)
            ||| (p.0 == KeyAlgorithm::Ecdsa && p.1 is None && p.2 is Some)
        },
{
}

/// Resolved key parameters resolve to themselves.
pub proof fn lemma_key_params_idempotent(
    key_algorithm: Option<KeyAlgorithm>,
    key_size: Option<u16>,
    key_curve: Option<KeyCurve>,
)
    requires
        spec_key_params(key_algorithm, key_size, key_curve) is Ok,
    ensures
        ({
            let p = spec_key_params(key_algorithm, key_size, key_curve)->Ok_0;
            spec_key_params(Some(p.0), p.1, p.2) == Ok::<
                (KeyAlgorithm, Option<u16>, Option<KeyCurve>),
                Seq<char>,
            >(p)
        }),
{
}

/// How a key is named in labels.
pub open spec fn spec_key_label(
    key_algorithm: KeyAlgorithm,
    key_size: Option<u16>,
    key_curve: Option<KeyCurve>,
) -> Seq<char> {
    match key_algorithm {
        KeyAlgorithm::Rsa => "RSA "@ + spec_decimal(
            (match key_size {
                Some(s) => s,
                None => 2048u16,
            }) as nat,
        ),
        KeyAlgorithm::Ecdsa => match key_curve {
            Some(KeyCurve::P256) => "ECDSA P-256"@,
            Some(KeyCurve::P384) => "ECDSA P-384"@,
            None => "ECDSA"@,
        },
    }
}

/// The label of a key: "RSA <size>" (2048 by default) or the ECDSA curve.
pub fn format_key_label(key_algorithm: &KeyAlgorithm, key_size: Option<u16>, key_curve: Option<
    &KeyCurve,
>) -> (r: String)
    ensures
        r@ == spec_key_label(
            *key_algorithm,
            key_size,
            match key_curve {
                Some(c) => Some(*c),
                None => None,
            },
        ),
{
    match key_algorithm {
        KeyAlgorithm::Rsa => {
            let size: u16 = match key_size {
                Some(s) => s,
                None => 2048,
            };
            let n = decimal(size as u64);
            cat("RSA ", n.as_str())
        },
        KeyAlgorithm::Ecdsa => match key_curve {
            Some(KeyCurve::P256) => "ECDSA P-256".to_string(),
            Some(KeyCurve::P384) => "ECDSA P-384".to_string(),
            None => "ECDSA".to_string(),
        },
    }
}

/// The label of a managed key made for an issuance.
pub fn managed_key_label(
    key_algorithm: &KeyAlgorithm,
    key_size: Option<u16>,
    key_curve: Option<&KeyCurve>,
    primary: &str,
) -> (r: String)
    ensures
        r@ == "Managed "@ + spec_key_label(
            *key_algorithm,
            key_size,
            match key_curve {
                Some(c) => Some(*c),
                None => None,
            },
        ) + " key for "@ + primary@,
{
    let label = format_key_label(key_algorithm, key_size, key_curve);
    let head = cat("Managed ", label.as_str());
    cat3(head.as_str(), " key for ", primary)
}

pub open spec fn spec_algorithm_name(a: KeyAlgorithm) -> Seq<char> {
    match a {
        KeyAlgorithm::Rsa => "rsa"@,
        KeyAlgorithm::Ecdsa => "ecdsa"@,
    }
}

pub open spec fn spec_curve_name(c: KeyCurve) -> Seq<char> {
    match c {
        KeyCurve::P256 => "p256"@,
        KeyCurve::P384 => "p384"@,
    }
}

/// The stored name of a key algorithm.
pub fn key_algorithm_to_db(value: &Option<KeyAlgorithm>) -> (r: Option<String>)
    ensures
        opt_string(r) == match *value {
            Some(a) => Some(spec_algorithm_name(a)),
            None => None,
        },
{
    match value {
        Some(KeyAlgorithm::Rsa) => Some("rsa".to_string()),
        Some(KeyAlgorithm::Ecdsa) => Some("ecdsa".to_string()),
        None => None,
    }
}

/// The stored name of a key curve.
pub fn key_curve_to_db(value: &Option<KeyCurve>) -> (r: Option<String>)
    ensures
        opt_string(r) == match *value {
            Some(c) => Some(spec_curve_name(c)),
            None => None,
        },
{
    match value {
        Some(KeyCurve::P256) => Some("p256".to_string()),
        Some(KeyCurve::P384) => Some("p384".to_string()),
        None => None,
    }
}

/// A stored key algorithm: "rsa" or "ecdsa"; any other name is an error.
pub open spec fn spec_parse_algorithm(raw: Option<Seq<char>>) -> Result<Option<KeyAlgorithm>, Seq<char>> {
    match raw {
        None => Ok(None),
        Some(v) => if v == "rsa"@ {
            Ok(Some(KeyAlgorithm::Rsa))
        } else if v == "ecdsa"@ {
            Ok(Some(KeyAlgorithm::Ecdsa))
        } else {
            Err("Unknown key algorithm: "@ + v)
        },
    }
}

/// A stored key curve: "p256" or "p384"; any other name is an error.
pub open spec fn spec_parse_curve(raw: Option<Seq<char>>) -> Result<Option<KeyCurve>, Seq<char>> {
    match raw {
        None => Ok(None),
        Some(v) => if v == "p256"@ {
            Ok(Some(KeyCurve::P256))
        } else if v == "p384"@ {
            Ok(Some(KeyCurve::P384))
        } else {
            Err("Unknown key curve: "@ + v)
        },
    }
}

pub open spec fn result_view<T>(r: Result<T, String>) -> Result<T, Seq<char>> {
    match r {
        Ok(x) => Ok(x),
        Err(m) => Err(m@),
    }
}

/// A stored key algorithm; an unknown name is an error.
pub fn parse_key_algorithm(raw: Option<String>) -> (r: Result<Option<KeyAlgorithm>, String>)
    ensures
        result_view(r) == spec_parse_algorithm(opt_string(raw)),
{
    match raw {
        None => Ok(None),
        Some(v) => {
            if str_eq(v.as_str(), "rsa") {
                Ok(Some(KeyAlgorithm::Rsa))
            } else if str_eq(v.as_str(), "ecdsa") {
                Ok(Some(KeyAlgorithm::Ecdsa))
            } else {
                Err(cat("Unknown key algorithm: ", v.as_str()))
            }
        },
    }
}

/// A stored key curve; an unknown name is an error.
pub fn parse_key_curve(raw: Option<String>) -> (r: Result<Option<KeyCurve>, String>)
    ensures
        result_view(r) == spec_parse_curve(opt_string(raw)),
{
    match raw {
        None => Ok(None),
        Some(v) => {
            if str_eq(v.as_str(), "p256") {
                Ok(Some(KeyCurve::P256))
            } else if str_eq(v.as_str(), "p384") {
                Ok(Some(KeyCurve::P384))
            } else {
                Err(cat("Unknown key curve: ", v.as_str()))
            }
        },
    }
}

/// Every algorithm and curve reads back from its stored name.
pub proof fn lemma_key_names_round_trip(a: KeyAlgorithm, c: KeyCurve)
    ensures
        spec_parse_algorithm(Some(spec_algorithm_name(a))) == Ok::<Option<KeyAlgorithm>, Seq<char>>(
            Some(a),
        ),
        spec_parse_curve(Some(spec_curve_name(c))) == Ok::<Option<KeyCurve>, Seq<char>>(Some(c)),
{
    reveal_strlit("rsa");
    reveal_strlit("ecdsa");
    reveal_strlit("p256");
    reveal_strlit("p384");
    assert("rsa"@[0] != "ecdsa"@[0]);
    assert("p256"@[1] != "p384"@[1]);
}

// ---------------------------------------------------------------------------
// Challenges
// ---------------------------------------------------------------------------

/// The root of a host: its last two labels.
pub fn root_from_hostname(hostname: &str) -> (r: String)
    ensures
        r@ == spec_last_two_labels(hostname@),
{
    derive_zone(hostname)
}

/// A provider creates the record only where the resolution names one and is
/// not ambiguous between several.
pub open spec fn uses_provider(res: DnsProviderResolution) -> bool {
    res.provider is Some && res.ambiguous@.len() <= 1
}

/// How a challenge is answered: the record to create, and the provider type
/// that creates it (none where the user does).
pub struct ChallengePlan {
    pub record: DnsRecordInstruction,
    pub provider_type: Option<String>,
}

/// Plans the answer to a DNS-01 challenge for `domain` with TXT value
/// `proof`: the record is presented in the zone that the provider's
/// configuration names, if any.
pub fn plan_challenge(domain: &str, proof: &str, resolution: &DnsProviderResolution) -> (r:
    ChallengePlan)
    ensures
        r.record.adapter@ == "manual"@,
        r.record.record_name@ == spec_record_name(domain@),
        r.record.value@ == proof@,
        r.record.zone@ == match planned_zone(*resolution) {
            Some(z) => z,
            None => spec_last_two_labels(domain@),
        },
        uses_provider(*resolution) ==> (r.provider_type matches Some(t)
            && t@ == resolution.provider->0.provider_type@),
        !uses_provider(*resolution) ==> r.provider_type is None,
{
    let zone = match &resolution.provider {
        Some(p) => provider_zone_override(p),
        None => None,
    };
    let req = DnsChallengeRequest { domain: string_of(&chars_of(domain)), value: string_of(&chars_of(proof)), zone };
    let adapter = ManualDnsAdapter::new();
    let record = match adapter.present_txt(&req) {
        Ok(r) => r,
        Err(_) => {
            proof {
                assert(false);
            }
            DnsRecordInstruction {
                adapter: String::new(),
                record_name: String::new(),
                value: String::new(),
                zone: String::new(),
            }
        },
    };
    let provider_type = match &resolution.provider {
        Some(p) => if resolution.ambiguous.len() <= 1 {
            Some(p.provider_type.clone())
        } else {
            None
        },
        None => None,
    };
    ChallengePlan { record, provider_type }
}

/// The zone that the chosen provider's configuration names, if any.
pub open spec fn planned_zone(resolution: DnsProviderResolution) -> Option<Seq<char>> {
    match resolution.provider {
        Some(p) => match p.config_json {
            Some(c) => crate::commands::json_string_member(c@, "zone"@),
            None => None,
        },
        None => None,
    }
}

/// The record after the provider was asked to create it: on success the
/// record names the provider type and is remembered for cleanup as
/// (domain, record name); a failure is reported with the provider type.
pub fn finish_challenge(domain: &str, plan: ChallengePlan, created: Result<(), String>) -> (r: Result<
    (DnsRecordInstruction, Option<(String, String)>),
    String,
>)
    ensures
        plan.provider_type is None ==> (r matches Ok(x) && x.0 == plan.record && x.1 is None),
        plan.provider_type matches Some(t) ==> (created is Ok ==> (r matches Ok(x) && x.0.adapter
            == t && x.0.record_name == plan.record.record_name && x.0.value == plan.record.value
            && x.0.zone == plan.record.zone && (x.1 matches Some(c) && c.0@ == domain@ && c.1
            == plan.record.record_name))),
        plan.provider_type matches Some(t) ==> (created matches Err(e) ==> (r matches Err(m) && m@
            == "Failed to create TXT record via "@ + t@ + ": "@ + e@)),
{
    match plan.provider_type {
        None => Ok((plan.record, None)),
        Some(t) => match created {
            Ok(()) => {
                let name = plan.record.record_name.clone();
                let record = DnsRecordInstruction {
                    adapter: t,
                    record_name: plan.record.record_name,
                    value: plan.record.value,
                    zone: plan.record.zone,
                };
                Ok((record, Some((string_of(&chars_of(domain)), name))))
            },
            Err(e) => {
                let head = cat3("Failed to create TXT record via ", t.as_str(), ": ");
                Err(cat(head.as_str(), e.as_str()))
            },
        },
    }
}

/// Whether the record of a challenge is cleaned up through the provider.
pub fn cleans_up_via_provider(resolution: &DnsProviderResolution) -> (b: bool)
    ensures
        b == uses_provider(*resolution),
{
    resolution.provider.is_some() && resolution.ambiguous.len() <= 1
}

/// The state of an ACME authorization.
#[derive(Debug, Clone, Copy, PartialEq, Eq, Structural)]
pub enum AuthorizationState {
    Pending,
    Valid,
    Other,
}

/// Whether an authorization still needs its challenge answered: pending ones
/// do, valid ones do not, any other state is an error.
pub fn authorization_needs_challenge(state: AuthorizationState, identifier: &str) -> (r: Result<
    bool,
    String,
>)
    ensures
        state == AuthorizationState::Pending ==> r == Ok::<bool, String>(true),
        state == AuthorizationState::Valid ==> r == Ok::<bool, String>(false),
        state == AuthorizationState::Other ==> (r matches Err(m) && m@
            == "unexpected authorization status for "@ + identifier@),
{
    match state {
        AuthorizationState::Pending => Ok(true),
        AuthorizationState::Valid => Ok(false),
        AuthorizationState::Other => Err(cat("unexpected authorization status for ", identifier)),
    }
}

/// How a list of observed values is written in messages (Rust's `Debug` form
/// of a `Vec<String>`).
pub uninterp spec fn debug_list(values: Seq<Seq<char>>) -> Seq<char>;

/// Formats the values with `{:?}`.
#[verifier::external_body]
fn debug_values(values: &Vec<String>) -> (r: String)
    ensures
        r@ == debug_list(views(values@)),
{
    format!("{:?}", values)
}

/// The verdict on a challenge's record after polling for `timeout_secs`.
pub open spec fn spec_propagation_verdict(
    record_name: Seq<char>,
    proof: Seq<char>,
    state: PropagationState,
    reason: Option<Seq<char>>,
    observed: Seq<Seq<char>>,
    timeout_secs: u64,
) -> Result<(), Seq<char>> {
    match state {
        PropagationState::Found => Ok(()),
        PropagationState::NxDomain => Err(
            "No TXT record found at "@ + record_name + " after "@ + spec_decimal(timeout_secs as nat)
                + "s. Please ensure the DNS record is created and propagated."@,
        ),
        PropagationState::Pending => Err(
            "TXT record not found at "@ + record_name + " after "@ + spec_decimal(timeout_secs as nat)
                + "s. Please wait for DNS propagation and try again."@,
        ),
        PropagationState::WrongContent => Err(
            "TXT record at "@ + record_name + " has wrong value. Expected: "@ + proof
                + ". Observed: "@ + debug_list(observed),
        ),
        PropagationState::Error => Err(
            "Failed to check DNS propagation for "@ + record_name + ": "@ + match reason {
                Some(r) => r,
                None => "Unknown error"@,
            },
        ),
    }
}

pub open spec fn unit_view(r: Result<(), String>) -> Result<(), Seq<char>> {
    match r {
        Ok(()) => Ok(()),
        Err(m) => Err(m@),
    }
}

/// The outcome of checking a challenge's record for `domain`, given the
/// last reading of a poll that lasted up to `timeout_secs`.
pub fn check_dns_propagation(domain: &str, proof: &str, result: &DnsPropagationResult, timeout_secs: u64) -> (r:
    Result<(), String>)
    ensures
        unit_view(r) == spec_propagation_verdict(
            spec_record_name(domain@),
            proof@,
            result.state,
            crate::dns::opt_view(result.reason),
            views(result.observed_values@),
            timeout_secs,
        ),
{
    let name = record_name(domain);
    let secs = decimal(timeout_secs);
    match result.state {
        PropagationState::Found => Ok(()),
        PropagationState::NxDomain => {
            let a = cat3("No TXT record found at ", name.as_str(), " after ");
            let b = cat3(a.as_str(), secs.as_str(), "s. Please ensure the DNS record is created and propagated.");
            Err(b)
        },
        PropagationState::Pending => {
            let a = cat3("TXT record not found at ", name.as_str(), " after ");
            let b = cat3(a.as_str(), secs.as_str(), "s. Please wait for DNS propagation and try again.");
            Err(b)
        },
        PropagationState::WrongContent => {
            let a = cat3("TXT record at ", name.as_str(), " has wrong value. Expected: ");
            let observed = debug_values(&result.observed_values);
            let b = cat3(a.as_str(), proof, ". Observed: ");
            Err(cat(b.as_str(), observed.as_str()))
        },
        PropagationState::Error => {
            let a = cat3("Failed to check DNS propagation for ", name.as_str(), ": ");
            match &result.reason {
                Some(reason) => Err(cat(a.as_str(), reason.as_str())),
                None => Err(cat(a.as_str(), "Unknown error")),
            }
        },
    }
}


// ---------------------------------------------------------------------------
// Issuers, keys and revocation
// ---------------------------------------------------------------------------

/// An issuer can issue once its terms are accepted and it has a contact email
/// and an account key; the email and the key reference are returned.
pub fn issuer_ready(
    tos_agreed: bool,
    contact_email: Option<String>,
    account_key_ref: Option<String>,
) -> (r: Result<(String, String), String>)
    ensures
        !tos_agreed ==> (r matches Err(m) && m@
            == "Issuer requires Terms of Service acceptance before issuance"@),
        tos_agreed && contact_email is None ==> (r matches Err(m) && m@
            == "Issuer contact email is required"@),
        tos_agreed && contact_email is Some && account_key_ref is None ==> (r matches Err(m) && m@
            == "Issuer account key ref is missing"@),
        tos_agreed && contact_email is Some && account_key_ref is Some ==> (r matches Ok(x) && Some(
            x.0,
        ) == contact_email && Some(x.1) == account_key_ref),
{
    if !tos_agreed {
        return Err("Issuer requires Terms of Service acceptance before issuance".to_string());
    }
    let email = match contact_email {
        Some(e) => e,
        None => {
            return Err("Issuer contact email is required".to_string());
        },
    };
    let key = match account_key_ref {
        Some(k) => k,
        None => {
            return Err("Issuer account key ref is missing".to_string());
        },
    };
    Ok((email, key))
}

/// A key reference to reuse: the given text trimmed, unless blank.
pub fn reuse_key_choice(reuse_key_ref: Option<String>) -> (r: Option<String>)
    ensures
        opt_string(r) == match reuse_key_ref {
            Some(k) => if trim_ws(k@).len() > 0 {
                Some(trim_ws(k@))
            } else {
                None
            },
            None => None,
        },
{
    match reuse_key_ref {
        Some(k) => {
            let t = trim_ws_chars(&chars_of(k.as_str()));
            if t.len() > 0 {
                Some(string_of(&t))
            } else {
                None
            }
        },
        None => None,
    }
}

/// A reused key must be a managed private key.
pub fn check_reused_key_kind(kind: crate::secrets::SecretKind) -> (r: Result<(), String>)
    ensures
        kind == crate::secrets::SecretKind::ManagedPrivateKey <==> r is Ok,
        r matches Err(m) ==> m@ == "Key reference is not a managed private key"@,
{
    match kind {
        crate::secrets::SecretKind::ManagedPrivateKey => Ok(()),
        _ => Err("Key reference is not a managed private key".to_string()),
    }
}

/// The kinds of key that can be generated.
#[derive(Debug, Clone, Copy, PartialEq, Eq, Structural)]
pub enum KeySpec {
    Rsa2048,
    Rsa3072,
    Rsa4096,
    EcdsaP256,
    EcdsaP384,
}

/// The key to generate for resolved parameters: RSA of the size (2048 by
/// default), or ECDSA on the curve.
pub open spec fn spec_key_spec(key_algorithm: KeyAlgorithm, key_size: Option<u16>, key_curve: Option<KeyCurve>) -> Result<
    KeySpec,
    Seq<char>,
> {
    match key_algorithm {
        KeyAlgorithm::Rsa => {
            let size = match key_size {
                Some(s) => s,
                None => 2048u16,
            };
            if size == 2048 {
                Ok(KeySpec::Rsa2048)
            } else if size == 3072 {
                Ok(KeySpec::Rsa3072)
            } else if size == 4096 {
                Ok(KeySpec::Rsa4096)
            } else {
                Err("Unsupported RSA key size "@ + spec_decimal(size as nat) + ". Allowed: 2048, 3072, 4096"@)
            }
        },
        KeyAlgorithm::Ecdsa => match key_curve {
            Some(KeyCurve::P256) => Ok(KeySpec::EcdsaP256),
            Some(KeyCurve::P384) => Ok(KeySpec::EcdsaP384),
            None => Err("ECDSA key_curve is required"@),
        },
    }
}

pub open spec fn key_spec_view(r: Result<KeySpec, String>) -> Result<KeySpec, Seq<char>> {
    match r {
        Ok(k) => Ok(k),
        Err(m) => Err(m@),
    }
}

/// The key to generate for resolved parameters.
pub fn key_spec(key_algorithm: KeyAlgorithm, key_size: Option<u16>, key_curve: Option<KeyCurve>) -> (r:
    Result<KeySpec, String>)
    ensures
        key_spec_view(r) == spec_key_spec(key_algorithm, key_size, key_curve),
{
    match key_algorithm {
        KeyAlgorithm::Rsa => {
            let size: u16 = match key_size {
                Some(s) => s,
                None => 2048,
            };
            if size == 2048 {
                Ok(KeySpec::Rsa2048)
            } else if size == 3072 {
                Ok(KeySpec::Rsa3072)
            } else if size == 4096 {
                Ok(KeySpec::Rsa4096)
            } else {
                let n = decimal(size as u64);
                Err(cat3("Unsupported RSA key size ", n.as_str(), ". Allowed: 2048, 3072, 4096"))
            }
        },
        KeyAlgorithm::Ecdsa => match key_curve {
            Some(KeyCurve::P256) => Ok(KeySpec::EcdsaP256),
            Some(KeyCurve::P384) => Ok(KeySpec::EcdsaP384),
            None => Err("ECDSA key_curve is required".to_string()),
        },
    }
}

/// The reasons a certificate can be revoked for.
#[derive(Debug, Clone, Copy, PartialEq, Eq, Structural)]
pub enum RevocationReasonKind {
    Unspecified,
    KeyCompromise,
    Superseded,
    CessationOfOperation,
}

pub open spec fn spec_revocation_reason(name: Seq<char>) -> Option<RevocationReasonKind> {
    if name == "keyCompromise"@ {
        Some(RevocationReasonKind::KeyCompromise)
    } else if name == "superseded"@ {
        Some(RevocationReasonKind::Superseded)
    } else if name == "cessationOfOperation"@ {
        Some(RevocationReasonKind::CessationOfOperation)
    } else if name == "unspecified"@ {
        Some(RevocationReasonKind::Unspecified)
    } else {
        None
    }
}

/// The revocation reason of a request: its name ("unspecified" where none
/// is given) and its kind; an unknown name is an error.
pub fn parse_revocation_reason(reason: Option<String>) -> (r: Result<(String, RevocationReasonKind), String>)
    ensures
        ({
            let name = match reason {
                Some(s) => s@,
                None => "unspecified"@,
            };
            &&& (spec_revocation_reason(name) matches Some(k) ==> (r matches Ok(x) && x.0@ == name
                && x.1 == k))
            &&& (spec_revocation_reason(name) is None ==> (r matches Err(m) && m@
                == "Invalid revocation reason: "@ + name))
        }),
{
    let name = match reason {
        Some(s) => s,
        None => "unspecified".to_string(),
    };
    if str_eq(name.as_str(), "keyCompromise") {
        Ok((name, RevocationReasonKind::KeyCompromise))
    } else if str_eq(name.as_str(), "superseded") {
        Ok((name, RevocationReasonKind::Superseded))
    } else if str_eq(name.as_str(), "cessationOfOperation") {
        Ok((name, RevocationReasonKind::CessationOfOperation))
    } else if str_eq(name.as_str(), "unspecified") {
        Ok((name, RevocationReasonKind::Unspecified))
    } else {
        Err(cat("Invalid revocation reason: ", name.as_str()))
    }
}

/// Only managed certificates that are not revoked yet can be revoked, and
/// their issuer must be known; the issuer id is returned.
pub fn revocation_target(
    source: crate::types::CertificateSource,
    already_revoked: bool,
    issuer_id: Option<String>,
) -> (r: Result<String, String>)
    ensures
        source != crate::types::CertificateSource::Managed ==> (r matches Err(m) && m@
            == "Only Managed certificates can be revoked"@),
        source == crate::types::CertificateSource::Managed && already_revoked ==> (r matches Err(m) && m@
            == "Certificate is already revoked"@),
        source == crate::types::CertificateSource::Managed && !already_revoked ==> (issuer_id matches Some(
            i,
        ) ==> r == Ok::<String, String>(i)) && (issuer_id is None ==> (r matches Err(m) && m@
            == "Certificate issuer could not be determined"@)),
{
    match source {
        crate::types::CertificateSource::Managed => {},
        _ => {
            return Err("Only Managed certificates can be revoked".to_string());
        },
    }
    if already_revoked {
        return Err("Certificate is already revoked".to_string());
    }
    match issuer_id {
        Some(i) => Ok(i),
        None => Err("Certificate issuer could not be determined".to_string()),
    }
}

/// The DER of the certificate to revoke: the first PEM block of the stored
/// chain.
pub fn revocation_leaf_der(chain_pem: Option<String>) -> (r: Result<Vec<u8>, String>)
    ensures
        chain_pem is None ==> (r matches Err(m) && m@ == "Certificate chain PEM is missing"@),
        chain_pem matches Some(c) ==> (pem_blocks_of(c@) is None ==> (r matches Err(m) && exists|t: Seq<char>|
            m@ == "failed to parse certificate chain: "@ + t)),
        chain_pem matches Some(c) ==> (pem_blocks_of(c@) matches Some(b) ==> {
            &&& (b.len() == 0 ==> (r matches Err(m) && m@ == "certificate chain is empty"@))
            &&& (b.len() > 0 ==> (r matches Ok(d) && d@ == b[0].1))
        }),
{
    let chain = match chain_pem {
        Some(c) => c,
        None => {
            return Err("Certificate chain PEM is missing".to_string());
        },
    };
    let blocks = match pem_parse_many(chain.as_str()) {
        Ok(b) => b,
        Err(e) => {
            return Err(cat("failed to parse certificate chain: ", e.as_str()));
        },
    };
    proof {
        assert(blocks_view(blocks@).len() == blocks@.len());
    }
    if blocks.len() == 0 {
        return Err("certificate chain is empty".to_string());
    }
    assert(blocks_view(blocks@)[0].1 == blocks@[0].1@);
    let d = crate::text::slice_copy_bytes(blocks[0].1.as_slice(), 0, blocks[0].1.len());
    assert(d@ =~= blocks@[0].1@);
    Ok(d)
}

/// Revocation needs the certificate's key or the issuer's account key; the
/// request is then signed with the account key, whose reference is returned.
pub fn revocation_key(has_managed_key: bool, account_key_ref: Option<String>) -> (r: Result<String, String>)
    ensures
        !has_managed_key && account_key_ref is None ==> (r matches Err(m) && m@
            == "Revocation requires either the certificate private key or issuer account key"@),
        has_managed_key && account_key_ref is None ==> (r matches Err(m) && m@
            == "Issuer account key ref is missing"@),
        account_key_ref matches Some(k) ==> r == Ok::<String, String>(k),
{
    match account_key_ref {
        Some(k) => Ok(k),
        None => {
            if !has_managed_key {
                Err("Revocation requires either the certificate private key or issuer account key".to_string())
            } else {
                Err("Issuer account key ref is missing".to_string())
            }
        },
    }
}

// ---------------------------------------------------------------------------
// Certificate signing requests
// ---------------------------------------------------------------------------

/// The identifiers a CSR is issued for: its DNS names where it has any,
/// else its common name in storage form, with a warning.
pub fn derive_identifiers(sans: Vec<String>, common_name: Option<&str>) -> (r: Result<
    (Vec<String>, Vec<String>),
    String,
>)
    ensures
        sans@.len() > 0 ==> (r matches Ok(x) && x.0@ == sans@ && x.1@.len() == 0),
        sans@.len() == 0 && common_name is None ==> (r matches Err(m) && m@
            == "CSR must include at least one DNS SAN or a Common Name"@),
        sans@.len() == 0 && common_name is Some ==> {
            let cn = common_name->0@;
            &&& (storage_form(cn) matches Some(n) ==> (r matches Ok(x) && text_views(x.0@) == seq![n]
                && text_views(x.1@) == seq!["CSR has no SAN entries; falling back to CN-only issuance."@]))
            &&& (storage_form(cn) is None ==> (r matches Err(m) && m@
                == "Invalid CSR common name \""@ + cn + "\": "@ + domain_error_text(cn)))
        },
{
    if sans.len() > 0 {
        return Ok((sans, Vec::new()));
    }
    let cn = match common_name {
        Some(c) => c,
        None => {
            return Err("CSR must include at least one DNS SAN or a Common Name".to_string());
        },
    };
    match normalize_domain_for_storage(cn) {
        Ok(n) => {
            let mut ids: Vec<String> = Vec::new();
            ids.push(n);
            let mut warnings: Vec<String> = Vec::new();
            warnings.push("CSR has no SAN entries; falling back to CN-only issuance.".to_string());
            assert(text_views(ids@) =~= seq![ids@[0]@]);
            assert(text_views(warnings@) =~= seq![warnings@[0]@]);
            Ok((ids, warnings))
        },
        Err(e) => {
            let head = cat3("Invalid CSR common name \"", cn, "\": ");
            let msg = e.message();
            Err(cat(head.as_str(), msg.as_str()))
        },
    }
}

} // verus!
