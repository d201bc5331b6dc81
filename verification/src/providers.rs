//! DNS provider adapters: zone matching, the TXT value forms that each
//! provider stores, record identifiers, the reading of public DNS answers with
//! a provider's normalization, and the choice of an adapter for a configured
//! provider.
use vstd::prelude::*;
use vstd::arithmetic::power2::pow2;

use crate::dns::{
    build_reading, is_reading, normalize_txt, opt_view, response_values, spec_normalize_txt, views,
    DnsPropagationResult, GoogleDnsAnswer, GoogleDnsResponse, PropagationState, ValueCleaning,
};
use crate::dns_config::{text_views, DnsProvider};
use crate::domain::{normalize_domain_for_storage, storage_form};
use crate::text::{
    cat, cat3, chars_of, concat, decimal, ends_with, ends_with_chars, eq_chars, parse_u64,
    slice_copy, spec_decimal, spec_parse_u64, starts_with, starts_with_chars, string_of, trim_char,
    trim_char_chars, trim_end_char, trim_end_char_chars, trim_ws, trim_ws_chars, trim_start_by,
    trim_end_by, lemma_trim_start_by, lemma_trim_end_by, lemma_trim_start_by_shape,
    lemma_trim_end_by_shape, ws_pred, is_ws, char_pred,
};

verus! {

// ---------------------------------------------------------------------------
// Zones
// ---------------------------------------------------------------------------

/// `zone_name` is the zone of `domain_suffix`: both have a storage form, and
/// the suffix is the zone or lies under it.
pub open spec fn spec_matches_zone(domain_suffix: Seq<char>, zone_name: Seq<char>) -> bool {
    match (storage_form(domain_suffix), storage_form(zone_name)) {
        (Some(d), Some(z)) => z == d || ends_with(d, "."@ + z),
        _ => false,
    }
}

/// Whether a provider zone serves a domain suffix, compared in storage form.
pub fn matches_zone(domain_suffix: &str, zone_name: &str) -> (r: bool)
    ensures
        r == spec_matches_zone(domain_suffix@, zone_name@),
{
    let d = match normalize_domain_for_storage(domain_suffix) {
        Ok(value) => value,
        Err(_) => {
            return false;
        },
    };
    let z = match normalize_domain_for_storage(zone_name) {
        Ok(value) => value,
        Err(_) => {
            return false;
        },
    };
    let dv = chars_of(d.as_str());
    let zv = chars_of(z.as_str());
    if eq_chars(&zv, &dv) {
        return true;
    }
    proof {
        reveal_strlit(".");
    }
    let dotted = concat(&chars_of("."), &zv);
    ends_with_chars(&dv, &dotted)
}

/// A zone serves a suffix exactly when both have a storage form and, in it,
/// the suffix is the zone or ends with the zone right after a dot: a match
/// always falls on a label boundary.
pub proof fn lemma_zone_match_on_label_boundary(domain_suffix: Seq<char>, zone_name: Seq<char>)
    ensures
        spec_matches_zone(domain_suffix, zone_name) <==> (storage_form(domain_suffix) is Some && storage_form(
            zone_name,
        ) is Some && ({
            let d = storage_form(domain_suffix)->0;
            let z = storage_form(zone_name)->0;
            d == z || (d.len() > z.len() && d[d.len() - z.len() - 1] == '.' && forall|k: int|
                0 <= k < z.len() ==> d[d.len() - z.len() + k] == #[trigger] z[k])
        })),
{
    reveal_strlit(".");
    match (storage_form(domain_suffix), storage_form(zone_name)) {
        (Some(d), Some(z)) => {
            let p = "."@ + z;
            assert(p.len() == z.len() + 1);
            assert(p[0] == '.');
            assert forall|k: int| 0 <= k < z.len() implies p[k + 1] == z[k] by {}
            if ends_with(d, p) {
                let sub = d.subrange(d.len() - p.len(), d.len() as int);
                assert(sub == p);
                assert(sub[0] == d[d.len() - z.len() - 1]);
                assert forall|k: int| 0 <= k < z.len() implies d[d.len() - z.len() + k] == #[trigger] z[k] by {
                    assert(sub[k + 1] == d[d.len() - z.len() + k]);
                }
            }
            if d.len() > z.len() && d[d.len() - z.len() - 1] == '.' && (forall|k: int|
                0 <= k < z.len() ==> d[d.len() - z.len() + k] == #[trigger] z[k]) {
                let sub = d.subrange(d.len() - p.len(), d.len() as int);
                assert forall|k: int| 0 <= k < p.len() implies sub[k] == p[k] by {
                    if k > 0 {
                        assert(p[k] == z[k - 1]);
                    }
                }
                assert(sub =~= p);
            }
        },
        _ => {},
    }
}

/// A zone as a provider lists it.
#[derive(Debug, Clone)]
pub struct ZoneEntry {
    pub id: String,
    pub name: String,
}

/// The zone at `i` is the first whose name (after `trim_dot` removes
/// trailing dots, where set) is the zone of `suffix`.
pub open spec fn first_zone_at(suffix: Seq<char>, zones: Seq<ZoneEntry>, trim_dot: bool, i: int) -> bool {
    &&& 0 <= i < zones.len()
    &&& zone_hit(suffix, zones[i], trim_dot)
    &&& forall|j: int| 0 <= j < i ==> !zone_hit(suffix, #[trigger] zones[j], trim_dot)
}

pub open spec fn zone_hit(suffix: Seq<char>, z: ZoneEntry, trim_dot: bool) -> bool {
    spec_matches_zone(suffix, if trim_dot { trim_end_char(z.name@, '.') } else { z.name@ })
}

/// The first zone that serves `suffix`, if any.
fn find_zone(suffix: &str, zones: &[ZoneEntry], trim_dot: bool) -> (r: Option<usize>)
    ensures
        r matches Some(i) ==> first_zone_at(suffix@, zones@, trim_dot, i as int),
        r is None ==> forall|j: int| 0 <= j < zones@.len() ==> !zone_hit(suffix@, #[trigger] zones@[j], trim_dot),
{
    let mut i: usize = 0;
    while i < zones.len()
        invariant
            i <= zones.len(),
            forall|j: int| 0 <= j < i ==> !zone_hit(suffix@, #[trigger] zones@[j], trim_dot),
        decreases zones.len() - i,
    {
        let hit = if trim_dot {
            let name = chars_of(zones[i].name.as_str());
            let t = string_of(&trim_end_char_chars(&name, '.'));
            matches_zone(suffix, t.as_str())
        } else {
            matches_zone(suffix, zones[i].name.as_str())
        };
        if hit {
            return Some(i);
        }
        i = i + 1;
    }
    None
}

// ---------------------------------------------------------------------------
// TXT values
// ---------------------------------------------------------------------------

/// The quoted form in which Cloudflare and Route 53 store a TXT value: the
/// trimmed value if it already starts and ends with a quote, else the value
/// with its quotes removed and new quotes around it.
pub open spec fn spec_quoted_txt(value: Seq<char>) -> Seq<char> {
    let t = trim_ws(value);
    if starts_with(t, "\""@) && ends_with(t, "\""@) {
        t
    } else {
        "\""@ + trim_char(t, '"') + "\""@
    }
}

/// A sequence that neither starts nor ends with a character satisfying `p`
/// is left alone by trimming with `p`.
proof fn lemma_trim_both_fixed(s: Seq<char>, p: spec_fn(char) -> bool)
    requires
        s.len() == 0 || (!p(s[0]) && !p(s.last())),
    ensures
        trim_end_by(trim_start_by(s, p), p) == s,
{
    if s.len() > 0 {
        lemma_trim_start_by(s, p, 0);
        assert(s.subrange(0, s.len() as int) =~= s);
        lemma_trim_end_by(s, p, s.len() as int);
    }
}

/// Trimming both ends with `p` leaves no end that satisfies `p`.
proof fn lemma_trim_both_shape(s: Seq<char>, p: spec_fn(char) -> bool)
    ensures
        trim_end_by(trim_start_by(s, p), p).len() > 0 ==> !p(trim_end_by(trim_start_by(s, p), p)[0])
            && !p(trim_end_by(trim_start_by(s, p), p).last()),
{
    let a = trim_start_by(s, p);
    lemma_trim_start_by_shape(s, p);
    lemma_trim_end_by_shape(a, p);
    let b = trim_end_by(a, p);
    if b.len() > 0 {
        assert(b[0] == a.subrange(0, b.len() as int)[0]);
    }
}

/// A value written in its quoted form is recognised as the value: the
/// quoted form normalizes to what the value normalizes to.
pub proof fn lemma_quoted_txt_normalizes_alike(value: Seq<char>)
    ensures
        spec_normalize_txt(spec_quoted_txt(value)) == spec_normalize_txt(value),
{
    reveal_strlit("\"");
    let t = trim_ws(value);
    lemma_trim_both_shape(value, ws_pred());
    assert(!is_ws('"'));
    if starts_with(t, "\""@) && ends_with(t, "\""@) {
        assert(t[0] == t.subrange(0, 1)[0]);
        assert(t.last() == t.subrange(t.len() - 1, t.len() as int)[0]);
        lemma_trim_both_fixed(t, ws_pred());
    } else {
        let u = trim_char(t, '"');
        let cp = char_pred('"');
        lemma_trim_both_shape(t, cp);
        let q = "\""@ + u + "\""@;
        assert(q[0] == '"');
        assert(q.last() == '"');
        lemma_trim_both_fixed(q, ws_pred());
        if u.len() == 0 {
            assert forall|k: int| 0 <= k < q.len() implies cp(#[trigger] q[k]) by {}
            lemma_trim_start_by(q, cp, q.len() as int);
            assert(q.subrange(q.len() as int, q.len() as int) =~= Seq::<char>::empty());
            assert(trim_start_by(q, cp) == Seq::<char>::empty());
            assert(trim_end_by(Seq::<char>::empty(), cp) == Seq::<char>::empty());
            assert(trim_char(q, '"') =~= u);
        } else {
            assert(q[1] == u[0]);
            assert forall|k: int| 0 <= k < 1 implies cp(#[trigger] q[k]) by {}
            lemma_trim_start_by(q, cp, 1);
            let w = q.subrange(1, q.len() as int);
            assert(w =~= u + "\""@);
            assert(w[u.len() - 1] == u.last());
            assert forall|k: int| u.len() <= k < w.len() implies cp(#[trigger] w[k]) by {
                assert(w[k] == '"');
            }
            lemma_trim_end_by(w, cp, u.len() as int);
            assert(w.subrange(0, u.len() as int) =~= u);
            assert(trim_char(q, '"') == u);
        }
    }
}

fn quoted_txt(value: &str) -> (r: String)
    ensures
        r@ == spec_quoted_txt(value@),
{
    proof {
        reveal_strlit("\"");
    }
    let t = trim_ws_chars(&chars_of(value));
    let q = chars_of("\"");
    if starts_with_chars(&t, &q) && ends_with_chars(&t, &q) {
        string_of(&t)
    } else {
        let inner = trim_char_chars(&t, '"');
        string_of(&concat(&concat(&q, &inner), &q))
    }
}

/// The record operations of a provider that the library decides on: each
/// provider normalizes TXT values for comparison in its own way.
pub trait AtomicDnsOperations {
    /// What the provider's normalization makes of a value.
    spec fn normalize_spec(&self, value: Seq<char>) -> Seq<char>;

    /// Normalizes a TXT value for comparison.
    fn normalize_value(&self, value: &str) -> (r: String)
        ensures
            r@ == self.normalize_spec(value@),
    ;
}

/// A DNS record as a provider lists it.
#[derive(Debug, Clone)]
pub struct DnsRecord {
    pub id: String,
    pub name: String,
    pub value: String,
}

/// The normalization used for public DNS answers where no provider is
/// involved.
pub struct DefaultNormalizer;

impl AtomicDnsOperations for DefaultNormalizer {
    /// Whitespace, then quotes, then whitespace removed.
    open spec fn normalize_spec(&self, value: Seq<char>) -> Seq<char> {
        spec_normalize_txt(value)
    }

    fn normalize_value(&self, value: &str) -> (r: String) {
        normalize_txt(value)
    }
}

/// Some listed record already holds `value`, compared after the provider's
/// normalization.
pub open spec fn record_present<N: AtomicDnsOperations>(normalizer: N, records: Seq<DnsRecord>, value: Seq<char>) -> bool {
    exists|i: int|
        0 <= i < records.len() && normalizer.normalize_spec(#[trigger] records[i].value@)
            == normalizer.normalize_spec(value)
}

/// Whether a record with the given value is already there, so that creating
/// it can be skipped.
pub fn record_already_present<N: AtomicDnsOperations>(
    records: &[DnsRecord],
    value: &str,
    normalizer: &N,
) -> (r: bool)
    ensures
        r == record_present(*normalizer, records@, value@),
{
    let wanted = normalizer.normalize_value(value);
    let mut i: usize = 0;
    while i < records.len()
        invariant
            i <= records.len(),
            wanted@ == normalizer.normalize_spec(value@),
            forall|j: int|
                0 <= j < i ==> normalizer.normalize_spec(#[trigger] records@[j].value@)
                    != normalizer.normalize_spec(value@),
        decreases records.len() - i,
    {
        let seen = normalizer.normalize_value(records[i].value.as_str());
        let a = chars_of(seen.as_str());
        let b = chars_of(wanted.as_str());
        if eq_chars(&a, &b) {
            return true;
        }
        i = i + 1;
    }
    false
}

// ---------------------------------------------------------------------------
// Batches and retries
// ---------------------------------------------------------------------------

/// The error of a batch of record operations of which `failures` failed;
/// the first failure's message is shown.
pub fn batch_result(action: &str, failures: u64, first_error: &str) -> (r: Result<(), String>)
    ensures
        failures == 0 ==> r is Ok,
        failures > 0 ==> (r matches Err(m) && m@ == "Failed to "@ + action@ + " "@ + spec_decimal(
            failures as nat,
        ) + " record(s): "@ + first_error@),
{
    if failures == 0 {
        return Ok(());
    }
    let head = cat3("Failed to ", action, " ");
    let count = decimal(failures);
    let tail = cat(" record(s): ", first_error);
    proof {
        reveal_strlit(" record(s): ");
    }
    Err(cat3(head.as_str(), count.as_str(), tail.as_str()))
}

/// What to do after an attempt of a retried operation failed.
#[derive(Debug, Clone, Copy, PartialEq, Eq, Structural)]
pub enum RetryStep {
    /// Wait `wait_ms` milliseconds, then make attempt number `next` (counted
    /// from zero).
    Retry { next: u32, wait_ms: u64 },
    /// No attempt is left: report this failure.
    GiveUp,
}

/// The wait after failed attempt `attempt` (counted from zero) of an
/// exponential backoff that starts at `delay_ms`: `delay_ms * 2^attempt`,
/// held at `u64::MAX` where it would exceed it.
pub open spec fn backoff_ms(delay_ms: u64, attempt: u32) -> u64 {
    let w = delay_ms * pow2(attempt as nat);
    if w <= u64::MAX {
        w as u64
    } else {
        u64::MAX
    }
}

/// After attempt `attempt` (counted from zero) of at most `max_attempts`
/// failed: retry while an attempt is left, after a wait that doubles with
/// each failure.
pub fn retry_after_failure(attempt: u32, max_attempts: u32, delay_ms: u64) -> (r: RetryStep)
    requires
        attempt < max_attempts,
    ensures
        attempt + 1 < max_attempts ==> r == (RetryStep::Retry {
            next: (attempt + 1) as u32,
            wait_ms: backoff_ms(delay_ms, attempt),
        }),
        attempt + 1 >= max_attempts ==> r == RetryStep::GiveUp,
{
    if attempt == max_attempts - 1 {
        return RetryStep::GiveUp;
    }
    let mut w: u64 = delay_ms;
    let mut k: u32 = 0;
    proof {
        reveal(vstd::arithmetic::power::pow);
        assert(pow2(0) == 1) by {
            vstd::arithmetic::power2::lemma_pow2(0);
        }
    }
    while k < attempt
        invariant
            k <= attempt,
            w == backoff_ms(delay_ms, k),
        decreases attempt - k,
    {
        let ghost d = delay_ms as int;
        let ghost p = pow2(k as nat) as int;
        proof {
            vstd::arithmetic::power2::lemma_pow2_unfold((k + 1) as nat);
            assert(d * pow2((k + 1) as nat) == 2 * (d * p)) by (nonlinear_arith)
                requires
                    pow2((k + 1) as nat) == 2 * p,
            ;
            assert(d * p >= 0) by (nonlinear_arith)
                requires
                    d >= 0,
                    p >= 0,
            ;
        }
        if w > u64::MAX / 2 {
            w = u64::MAX;
        } else {
            w = w * 2;
        }
        k = k + 1;
    }
    RetryStep::Retry { next: attempt + 1, wait_ms: w }
}

/// What a propagation poll does after one reading.
#[derive(Debug, Clone, Copy, PartialEq, Eq, Structural)]
pub enum PollStep {
    /// Return this reading.
    Finish,
    /// Wait for the interval, then read again.
    Wait,
}

/// The record was found or holds another value: polling ends there.
pub open spec fn is_final_state(state: PropagationState) -> bool {
    state == PropagationState::Found || state == PropagationState::WrongContent
}

/// After a reading taken `elapsed_ms` into a poll that may last `timeout_ms`:
/// a final state ends the poll; any other ends it once the time is up.
pub fn propagation_poll_step(state: PropagationState, elapsed_ms: u64, timeout_ms: u64) -> (r:
    PollStep)
    ensures
        r == PollStep::Finish <==> (is_final_state(state) || elapsed_ms >= timeout_ms),
{
    match state {
        PropagationState::Found | PropagationState::WrongContent => PollStep::Finish,
        _ => {
            if elapsed_ms >= timeout_ms {
                PollStep::Finish
            } else {
                PollStep::Wait
            }
        },
    }
}

/// What one provider-side verification attempt reported.
pub enum VerifyOutcome {
    Verified,
    NotYet,
    Failed(String),
}

/// What a provider-side verification does next.
#[derive(Debug)]
pub enum VerifyStep {
    /// Verification succeeded.
    Done,
    /// Wait for the interval, then try again.
    Wait,
    /// Verification failed with this message.
    Fail(String),
}

/// The message of a verification that ran out of time.
pub open spec fn timeout_message(operation: Seq<char>, record_name: Seq<char>, elapsed_ms: u64) -> Seq<
    char,
> {
    operation + " verification failed for "@ + record_name + ": timeout after "@ + spec_decimal(
        elapsed_ms as nat,
    ) + "ms"@
}

/// After one verification attempt, taken `elapsed_ms` into a wait of at most
/// `timeout_ms`: success ends it, an error fails it at once, and "not yet"
/// waits until the time is up.
pub fn verification_step(
    outcome: VerifyOutcome,
    operation: &str,
    record_name: &str,
    elapsed_ms: u64,
    timeout_ms: u64,
) -> (r: VerifyStep)
    ensures
        outcome is Verified ==> r is Done,
        outcome matches VerifyOutcome::Failed(e) ==> (r matches VerifyStep::Fail(m) && m@ == e@),
        outcome is NotYet && elapsed_ms < timeout_ms ==> r is Wait,
        outcome is NotYet && elapsed_ms >= timeout_ms ==> (r matches VerifyStep::Fail(m) && m@
            == timeout_message(operation@, record_name@, elapsed_ms)),
{
    match outcome {
        VerifyOutcome::Verified => VerifyStep::Done,
        VerifyOutcome::Failed(e) => VerifyStep::Fail(e),
        VerifyOutcome::NotYet => {
            if elapsed_ms < timeout_ms {
                VerifyStep::Wait
            } else {
                proof {
                    reveal_strlit(" verification failed for ");
                    reveal_strlit(": timeout after ");
                    reveal_strlit("ms");
                }
                let a = cat3(operation, " verification failed for ", record_name);
                let ms = decimal(elapsed_ms);
                let b = cat3(": timeout after ", ms.as_str(), "ms");
                VerifyStep::Fail(cat(a.as_str(), b.as_str()))
            }
        },
    }
}

// ---------------------------------------------------------------------------
// HTTP errors and timeouts
// ---------------------------------------------------------------------------

/// The message of a failed provider API call with HTTP status `status`;
/// `status_text` is how the status displays (such as "400 Bad Request").
pub open spec fn spec_status_error(
    provider: Seq<char>,
    status: u16,
    status_text: Seq<char>,
    body: Option<Seq<char>>,
) -> Seq<char> {
    if status == 401 || status == 403 {
        provider + " authentication failed"@
    } else if status == 429 {
        provider + " rate limit exceeded"@
    } else {
        match body {
            Some(b) => provider + " API error: "@ + b,
            None => provider + " API error: "@ + status_text,
        }
    }
}

/// The error message for a failed provider API call.
pub fn status_error(provider: &str, status: u16, status_text: &str, body: Option<String>) -> (r:
    String)
    ensures
        r@ == spec_status_error(provider@, status, status_text@, opt_view(body)),
{
    if status == 401 || status == 403 {
        return cat(provider, " authentication failed");
    }
    if status == 429 {
        return cat(provider, " rate limit exceeded");
    }
    match body {
        Some(b) => cat3(provider, " API error: ", b.as_str()),
        None => cat3(provider, " API error: ", status_text),
    }
}

/// Seconds of a timeout setting: the setting parsed as a `u64`, else
/// `default`; zero also gives `default`.
pub open spec fn spec_timeout_secs(env_value: Option<Seq<char>>, default: u64) -> u64 {
    let parsed = match env_value {
        Some(raw) => spec_parse_u64(raw),
        None => None,
    };
    match parsed {
        Some(n) => if n == 0 {
            default
        } else {
            n
        },
        None => default,
    }
}

pub open spec fn opt_str(o: Option<&str>) -> Option<Seq<char>> {
    match o {
        Some(s) => Some(s@),
        None => None,
    }
}

/// Seconds of a timeout setting (see `spec_timeout_secs`).
pub fn timeout_secs(env_value: Option<&str>, default: u64) -> (r: u64)
    ensures
        r == spec_timeout_secs(opt_str(env_value), default),
{
    let parsed = match env_value {
        Some(raw) => parse_u64(raw),
        None => None,
    };
    match parsed {
        Some(n) => if n == 0 {
            default
        } else {
            n
        },
        None => default,
    }
}

/// What `Duration::from_secs` returns for a number of seconds.
pub uninterp spec fn duration_of_secs(secs: u64) -> std::time::Duration;

/// Calls `Duration::from_secs`; the duration is named, not stated.
#[verifier::external_body]
fn duration_from_secs(secs: u64) -> (d: std::time::Duration)
    ensures
        d == duration_of_secs(secs),
{
    std::time::Duration::from_secs(secs)
}

/// The HTTP client timeout for a setting: 15 seconds unless the setting is a
/// positive number of seconds.
pub fn parse_timeout(env_value: Option<&str>) -> (d: std::time::Duration)
    ensures
        d == duration_of_secs(spec_timeout_secs(opt_str(env_value), 15)),
{
    duration_from_secs(timeout_secs(env_value, 15))
}

/// The DNS-over-HTTPS query timeout for a setting: 10 seconds unless the
/// setting is a positive number of seconds.
pub fn dns_query_timeout(env_value: Option<&str>) -> (d: std::time::Duration)
    ensures
        d == duration_of_secs(spec_timeout_secs(opt_str(env_value), 10)),
{
    duration_from_secs(timeout_secs(env_value, 10))
}

// ---------------------------------------------------------------------------
// Reading public DNS with a provider's normalization
// ---------------------------------------------------------------------------

/// The data of the answers, each normalized by the provider, in order.
pub open spec fn answers_normalized<N: AtomicDnsOperations>(normalizer: N, answers: Seq<GoogleDnsAnswer>) -> Seq<Seq<char>>
    decreases answers.len(),
{
    if answers.len() == 0 {
        Seq::empty()
    } else {
        let prev = answers_normalized(normalizer, answers.drop_last());
        match answers.last().data {
            Some(d) => prev.push(normalizer.normalize_spec(d@)),
            None => prev,
        }
    }
}

/// The data of a reply's answers, each normalized by the provider.
pub open spec fn response_normalized<N: AtomicDnsOperations>(normalizer: N, r: GoogleDnsResponse) -> Seq<Seq<char>> {
    match r.answer {
        Some(a) => answers_normalized(normalizer, a@),
        None => Seq::empty(),
    }
}

/// With the default normalization, the normalized answers are the answers'
/// values cleaned by `Normalize`.
proof fn lemma_default_normalized(answers: Seq<GoogleDnsAnswer>)
    ensures
        answers_normalized(DefaultNormalizer, answers) == crate::dns::answers_values(answers, ValueCleaning::Normalize),
    decreases answers.len(),
{
    if answers.len() > 0 {
        lemma_default_normalized(answers.drop_last());
    }
}

/// Appends the normalized data of one reply's answers.
fn collect_normalized<N: AtomicDnsOperations>(
    out: &mut Vec<String>,
    answers: &Vec<GoogleDnsAnswer>,
    normalizer: &N,
)
    ensures
        views(final(out)@) == views(old(out)@) + answers_normalized(*normalizer, answers@),
{
    let mut j: usize = 0;
    assert(answers@.take(0) =~= Seq::<GoogleDnsAnswer>::empty());
    assert(views(out@) =~= views(old(out)@) + answers_normalized(*normalizer, answers@.take(0)));
    while j < answers.len()
        invariant
            j <= answers.len(),
            views(out@) == views(old(out)@) + answers_normalized(*normalizer, answers@.take(j as int)),
        decreases answers.len() - j,
    {
        let ghost before = views(out@);
        assert(answers@.take(j as int + 1).drop_last() =~= answers@.take(j as int));
        assert(answers@.take(j as int + 1).last() == answers@[j as int]);
        match &answers[j].data {
            Some(d) => {
                out.push(normalizer.normalize_value(d.as_str()));
                assert(views(out@) =~= before.push(normalizer.normalize_spec(d@)));
            },
            None => {},
        }
        j = j + 1;
    }
    assert(answers@.take(answers.len() as int) =~= answers@);
}

/// Reads one resolver reply for a record, comparing values after the
/// provider's normalization with the (already normalized) expected value.
pub fn interpret_dns_response_with_normalization<N: AtomicDnsOperations>(
    response: &GoogleDnsResponse,
    record_name: &str,
    normalized_expected: &str,
    normalizer: &N,
) -> (r: DnsPropagationResult)
    ensures
        is_reading(
            r,
            response_normalized(*normalizer, *response),
            normalized_expected@,
            response.status == 0,
            response.status == 3,
            "no response from DNS resolver"@,
        ),
{
    let mut observed: Vec<String> = Vec::new();
    match &response.answer {
        Some(answers) => {
            collect_normalized(&mut observed, answers, normalizer);
        },
        None => {},
    }
    assert(views(observed@) =~= response_normalized(*normalizer, *response));
    proof {
        reveal_strlit("no response from DNS resolver");
    }
    let expected = string_of(&chars_of(normalized_expected));
    build_reading(
        observed,
        &expected,
        response.status == 0,
        response.status == 3,
        "no response from DNS resolver",
    )
}

/// Reads one resolver reply with the default normalization, the expected
/// value normalized the same way.
pub fn interpret_dns_response(
    response: &GoogleDnsResponse,
    record_name: &str,
    expected_value: &str,
) -> (r: DnsPropagationResult)
    ensures
        is_reading(
            r,
            response_values(*response, ValueCleaning::Normalize),
            spec_normalize_txt(expected_value@),
            response.status == 0,
            response.status == 3,
            "no response from DNS resolver"@,
        ),
{
    let normalized = normalize_txt(expected_value);
    proof {
        if response.answer is Some {
            lemma_default_normalized(response.answer->0@);
        }
    }
    interpret_dns_response_with_normalization(
        response,
        record_name,
        normalized.as_str(),
        &DefaultNormalizer,
    )
}

/// Reads the public DNS reply fetched for a record with the default
/// normalization (the value the record should hold is normalized first).
pub fn query_google_dns(record_name: &str, expected_value: &str, response: &GoogleDnsResponse) -> (r:
    DnsPropagationResult)
    ensures
        is_reading(
            r,
            response_values(*response, ValueCleaning::Normalize),
            spec_normalize_txt(expected_value@),
            response.status == 0,
            response.status == 3,
            "no response from DNS resolver"@,
        ),
{
    interpret_dns_response(response, record_name, expected_value)
}


// ---------------------------------------------------------------------------
// Adapters
// ---------------------------------------------------------------------------

/// Creates and removes the TXT records of DNS-01 challenges.
pub trait DnsProviderAdapter {
    fn create_txt(&self, record_name: &str, value: &str) -> (r: Result<(), String>);

    fn cleanup_txt(&self, record_name: &str) -> (r: Result<(), String>);
}

/// An adapter that cannot act: every request fails with its reason.
#[derive(Debug)]
pub struct UnsupportedDnsProviderAdapter {
    pub reason: String,
}

impl UnsupportedDnsProviderAdapter {
    pub fn new(reason: String) -> (r: Self)
        ensures
            r.reason == reason,
    {
        UnsupportedDnsProviderAdapter { reason }
    }
}

impl DnsProviderAdapter for UnsupportedDnsProviderAdapter {
    fn create_txt(&self, record_name: &str, value: &str) -> (r: Result<(), String>)
        ensures
            r matches Err(m) && m@ == self.reason@,
    {
        Err(self.reason.clone())
    }

    fn cleanup_txt(&self, record_name: &str) -> (r: Result<(), String>)
        ensures
            r matches Err(m) && m@ == self.reason@,
    {
        Err(self.reason.clone())
    }
}

/// The Cloudflare adapter: an API token, the zone found for the suffix once
/// it is known, and the domain suffix it serves.
#[derive(Debug)]
pub struct CloudflareAdapter {
    pub api_token: String,
    pub zone_cache: Option<String>,
    pub domain_suffix: String,
}

impl CloudflareAdapter {
    pub fn new(api_token: String, domain_suffix: String) -> (r: Self)
        ensures
            r.api_token == api_token,
            r.zone_cache is None,
            r.domain_suffix == domain_suffix,
    {
        CloudflareAdapter { api_token, zone_cache: None, domain_suffix }
    }

    /// The TXT content that Cloudflare is sent: the value in quotes.
    pub fn format_txt_content(value: &str) -> (r: String)
        ensures
            r@ == spec_quoted_txt(value@),
    {
        quoted_txt(value)
    }

    /// The zone id for the adapter's suffix: the remembered one, else the id
    /// of the first listed zone that serves the suffix, which is then
    /// remembered.
    pub fn discover_zone_id(&mut self, zones: &[ZoneEntry]) -> (r: Result<String, String>)
        ensures
            final(self).api_token == old(self).api_token,
            final(self).domain_suffix == old(self).domain_suffix,
            old(self).zone_cache matches Some(c) ==> (r matches Ok(id) && id == c
                && final(self).zone_cache == old(self).zone_cache),
            old(self).zone_cache is None ==> {
                &&& (r is Ok <==> exists|i: int|
                    first_zone_at(old(self).domain_suffix@, zones@, false, i))
                &&& forall|i: int|
                    first_zone_at(old(self).domain_suffix@, zones@, false, i) ==> (r matches Ok(id)
                        && id@ == zones@[i].id@ && final(self).zone_cache == Some(id))
                &&& (r matches Err(m) ==> m@ == "No Cloudflare zone found for domain suffix: "@
                    + old(self).domain_suffix@ && final(self).zone_cache is None)
            },
    {
        match &self.zone_cache {
            Some(c) => {
                return Ok(c.clone());
            },
            None => {},
        }
        match find_zone(self.domain_suffix.as_str(), zones, false) {
            Some(i) => {
                let id = zones[i].id.clone();
                self.zone_cache = Some(id.clone());
                Ok(id)
            },
            None => Err(cat("No Cloudflare zone found for domain suffix: ", self.domain_suffix.as_str())),
        }
    }
}

impl AtomicDnsOperations for CloudflareAdapter {
    /// Whitespace, then quotes, then whitespace removed.
    open spec fn normalize_spec(&self, value: Seq<char>) -> Seq<char> {
        spec_normalize_txt(value)
    }

    fn normalize_value(&self, value: &str) -> (r: String) {
        normalize_txt(value)
    }
}

/// The DigitalOcean adapter: an API token and the domain it manages, which
/// is also its zone.
#[derive(Debug)]
pub struct DigitalOceanAdapter {
    pub api_token: String,
    pub domain: String,
}

/// The name of a record relative to a domain: "@" for the domain itself, the
/// part before ".domain" for a name under it, else the name unchanged
/// (trailing dots removed from both first).
pub open spec fn spec_relative_name(record_name: Seq<char>, domain: Seq<char>) -> Seq<char> {
    let r = trim_end_char(record_name, '.');
    let d = trim_end_char(domain, '.');
    if r == d {
        "@"@
    } else if ends_with(r, "."@ + d) {
        r.subrange(0, r.len() - (d.len() + 1))
    } else {
        r
    }
}

impl DigitalOceanAdapter {
    pub fn new(api_token: String, domain: String) -> (r: Self)
        ensures
            r.api_token == api_token,
            r.domain == domain,
    {
        DigitalOceanAdapter { api_token, domain }
    }

    /// The record name as DigitalOcean's API wants it, relative to the domain.
    pub fn to_relative_name(&self, record_name: &str) -> (r: String)
        ensures
            r@ == spec_relative_name(record_name@, self.domain@),
    {
        proof {
            reveal_strlit("@");
            reveal_strlit(".");
        }
        let r = trim_end_char_chars(&chars_of(record_name), '.');
        let d = trim_end_char_chars(&chars_of(self.domain.as_str()), '.');
        if eq_chars(&r, &d) {
            return "@".to_string();
        }
        let dotted = concat(&chars_of("."), &d);
        if ends_with_chars(&r, &dotted) {
            string_of(&slice_copy(&r, 0, r.len() - dotted.len()))
        } else {
            string_of(&r)
        }
    }

    /// The TXT content that DigitalOcean is sent: quotes and whitespace
    /// removed (the API adds its own quoting).
    pub fn format_txt_content(value: &str) -> (r: String)
        ensures
            r@ == spec_normalize_txt(value@),
    {
        normalize_txt(value)
    }

    /// A TXT value as compared after listing.
    pub fn normalize_txt_content(value: &str) -> (r: String)
        ensures
            r@ == spec_normalize_txt(value@),
    {
        normalize_txt(value)
    }

    /// The text id under which a created record is known.
    pub fn record_id_text(id: u64) -> (r: String)
        ensures
            r@ == spec_decimal(id as nat),
    {
        decimal(id)
    }

    /// The numeric id of a record id text.
    pub fn parse_record_id(record_id: &str) -> (r: Result<u64, String>)
        ensures
            r is Ok <==> spec_parse_u64(record_id@) is Some,
            r matches Ok(n) ==> spec_parse_u64(record_id@) == Some(n),
            r matches Err(m) ==> m@ == "Invalid record ID: "@ + record_id@,
    {
        match parse_u64(record_id) {
            Some(n) => Ok(n),
            None => Err(cat("Invalid record ID: ", record_id)),
        }
    }

    /// DigitalOcean's zone is the domain itself.
    pub fn get_zone_id(&self) -> (r: String)
        ensures
            r == self.domain,
    {
        self.domain.clone()
    }
}

impl AtomicDnsOperations for DigitalOceanAdapter {
    /// Whitespace, then quotes, then whitespace removed.
    open spec fn normalize_spec(&self, value: Seq<char>) -> Seq<char> {
        spec_normalize_txt(value)
    }

    fn normalize_value(&self, value: &str) -> (r: String) {
        normalize_txt(value)
    }
}

/// The Route 53 adapter: an access key pair, the hosted zone found for the
/// suffix once it is known, and the domain suffix it serves.
#[derive(Debug)]
pub struct Route53Adapter {
    pub access_key: String,
    pub secret_key: String,
    pub hosted_zone_cache: Option<String>,
    pub domain_suffix: String,
}

/// The record id that the Route 53 adapter gives a record: its name behind
/// "route53:".
pub open spec fn spec_route53_record_id(record_name: Seq<char>) -> Seq<char> {
    "route53:"@ + record_name
}

impl Route53Adapter {
    pub fn new(access_key: String, secret_key: String, domain_suffix: String) -> (r: Self)
        ensures
            r.access_key == access_key,
            r.secret_key == secret_key,
            r.hosted_zone_cache is None,
            r.domain_suffix == domain_suffix,
    {
        Route53Adapter { access_key, secret_key, hosted_zone_cache: None, domain_suffix }
    }

    /// The TXT value that Route 53 is sent: the value in quotes.
    pub fn format_txt_content(value: &str) -> (r: String)
        ensures
            r@ == spec_quoted_txt(value@),
    {
        quoted_txt(value)
    }

    /// The id of a created record.
    pub fn record_id(record_name: &str) -> (r: String)
        ensures
            r@ == spec_route53_record_id(record_name@),
    {
        cat("route53:", record_name)
    }

    /// The record name inside a record id.
    pub fn record_name_from_id(record_id: &str) -> (r: Result<String, String>)
        ensures
            r is Ok <==> starts_with(record_id@, "route53:"@),
            r matches Ok(n) ==> record_id@ == "route53:"@ + n@,
            r matches Err(m) ==> m@ == "Invalid Route53 record ID format"@,
    {
        proof {
            reveal_strlit("route53:");
        }
        let v = chars_of(record_id);
        let p = chars_of("route53:");
        if starts_with_chars(&v, &p) {
            let rest = slice_copy(&v, p.len(), v.len());
            assert(v@ =~= p@ + rest@);
            Ok(string_of(&rest))
        } else {
            Err("Invalid Route53 record ID format".to_string())
        }
    }

    /// The hosted zone id for the adapter's suffix: the remembered one, else
    /// the id of the first listed zone whose name (trailing dot removed)
    /// serves the suffix, which is then remembered.
    pub fn discover_hosted_zone_id(&mut self, zones: &[ZoneEntry]) -> (r: Result<String, String>)
        ensures
            final(self).access_key == old(self).access_key,
            final(self).secret_key == old(self).secret_key,
            final(self).domain_suffix == old(self).domain_suffix,
            old(self).hosted_zone_cache matches Some(c) ==> (r matches Ok(id) && id == c
                && final(self).hosted_zone_cache == old(self).hosted_zone_cache),
            old(self).hosted_zone_cache is None ==> {
                &&& (r is Ok <==> exists|i: int|
                    first_zone_at(old(self).domain_suffix@, zones@, true, i))
                &&& forall|i: int|
                    first_zone_at(old(self).domain_suffix@, zones@, true, i) ==> (r matches Ok(id)
                        && id@ == zones@[i].id@ && final(self).hosted_zone_cache == Some(id))
                &&& (r matches Err(m) ==> m@ == "No Route 53 hosted zone found for domain suffix: "@
                    + old(self).domain_suffix@ && final(self).hosted_zone_cache is None)
            },
    {
        match &self.hosted_zone_cache {
            Some(c) => {
                return Ok(c.clone());
            },
            None => {},
        }
        match find_zone(self.domain_suffix.as_str(), zones, true) {
            Some(i) => {
                let id = zones[i].id.clone();
                self.hosted_zone_cache = Some(id.clone());
                Ok(id)
            },
            None => Err(
                cat("No Route 53 hosted zone found for domain suffix: ", self.domain_suffix.as_str()),
            ),
        }
    }
}

impl AtomicDnsOperations for Route53Adapter {
    /// Whitespace, then quotes, then whitespace removed.
    open spec fn normalize_spec(&self, value: Seq<char>) -> Seq<char> {
        spec_normalize_txt(value)
    }

    fn normalize_value(&self, value: &str) -> (r: String) {
        normalize_txt(value)
    }
}


// ---------------------------------------------------------------------------
// Choosing an adapter
// ---------------------------------------------------------------------------

/// Decodes UTF-8 bytes into a `String` (std `String::from_utf8`): `None`
/// exactly where the bytes are not valid UTF-8.
#[verifier::external_body]
pub(crate) fn utf8_string(bytes: Vec<u8>) -> (r: Option<String>)
    ensures
        r is Some <==> vstd::utf8::valid_utf8(bytes@),
        r matches Some(s) ==> s@ == vstd::utf8::decode_utf8(bytes@),
{
    String::from_utf8(bytes).ok()
}

/// The adapter chosen for a configured provider.
#[derive(Debug)]
pub enum ProviderAdapter {
    Cloudflare(CloudflareAdapter),
    DigitalOcean(DigitalOceanAdapter),
    Route53(Route53Adapter),
    Unsupported(UnsupportedDnsProviderAdapter),
}

/// What an adapter is made of, as plain values.
pub enum AdapterPlan {
    Cloudflare { token: Seq<char>, domain_suffix: Seq<char> },
    DigitalOcean { token: Seq<char>, domain: Seq<char> },
    Route53 { access_key: Seq<char>, secret_key: Seq<char>, domain_suffix: Seq<char> },
    Unsupported { reason: Seq<char> },
}

impl ProviderAdapter {
    pub open spec fn plan(self) -> AdapterPlan {
        match self {
            ProviderAdapter::Cloudflare(a) => AdapterPlan::Cloudflare {
                token: a.api_token@,
                domain_suffix: a.domain_suffix@,
            },
            ProviderAdapter::DigitalOcean(a) => AdapterPlan::DigitalOcean {
                token: a.api_token@,
                domain: a.domain@,
            },
            ProviderAdapter::Route53(a) => AdapterPlan::Route53 {
                access_key: a.access_key@,
                secret_key: a.secret_key@,
                domain_suffix: a.domain_suffix@,
            },
            ProviderAdapter::Unsupported(a) => AdapterPlan::Unsupported { reason: a.reason@ },
        }
    }

    /// No zone has been looked up yet.
    pub open spec fn fresh(self) -> bool {
        match self {
            ProviderAdapter::Cloudflare(a) => a.zone_cache is None,
            ProviderAdapter::Route53(a) => a.hosted_zone_cache is None,
            _ => true,
        }
    }
}

/// How many of a provider's secrets, in order, its adapter is made from.
pub open spec fn spec_secrets_needed(provider_type: Seq<char>, secret_refs: nat) -> nat {
    if provider_type == "cloudflare"@ || provider_type == "digitalocean"@ {
        if secret_refs >= 1 {
            1
        } else {
            0
        }
    } else if provider_type == "route53"@ {
        if secret_refs >= 2 {
            2
        } else {
            0
        }
    } else {
        0
    }
}

pub open spec fn secret_view(r: Result<Vec<u8>, String>) -> Result<Seq<u8>, Seq<char>> {
    match r {
        Ok(b) => Ok(b@),
        Err(e) => Err(e@),
    }
}

/// The first of a provider's suffixes, or the empty text.
pub open spec fn first_or_empty(v: Seq<Seq<char>>) -> Seq<char> {
    if v.len() > 0 {
        v[0]
    } else {
        Seq::empty()
    }
}

/// A token-based adapter (Cloudflare or DigitalOcean) made from the first
/// secret, named `name` in messages.
pub open spec fn token_plan(
    name: Seq<char>,
    is_cloudflare: bool,
    secret_refs: nat,
    suffix: Seq<char>,
    secrets: Seq<Result<Seq<u8>, Seq<char>>>,
) -> AdapterPlan {
    if secret_refs == 0 {
        AdapterPlan::Unsupported { reason: name + " provider missing API token"@ }
    } else {
        match secrets[0] {
            Ok(b) => if vstd::utf8::valid_utf8(b) {
                let token = vstd::utf8::decode_utf8(b);
                if is_cloudflare {
                    AdapterPlan::Cloudflare { token, domain_suffix: suffix }
                } else {
                    AdapterPlan::DigitalOcean { token, domain: suffix }
                }
            } else {
                AdapterPlan::Unsupported { reason: "Failed to decode "@ + name + " API token"@ }
            },
            Err(e) => AdapterPlan::Unsupported {
                reason: "Failed to resolve "@ + name + " API token: "@ + e,
            },
        }
    }
}

/// The adapter for a provider, given its resolved secrets.
pub open spec fn spec_adapter_plan(
    provider_type: Seq<char>,
    secret_refs: nat,
    suffixes: Seq<Seq<char>>,
    secrets: Seq<Result<Seq<u8>, Seq<char>>>,
) -> AdapterPlan {
    let suffix = first_or_empty(suffixes);
    if provider_type == "cloudflare"@ {
        token_plan("Cloudflare"@, true, secret_refs, suffix, secrets)
    } else if provider_type == "digitalocean"@ {
        token_plan("DigitalOcean"@, false, secret_refs, suffix, secrets)
    } else if provider_type == "route53"@ {
        if secret_refs < 2 {
            AdapterPlan::Unsupported {
                reason: "Route 53 provider missing access key or secret key"@,
            }
        } else {
            match (secrets[0], secrets[1]) {
                (Ok(a), Ok(b)) => if vstd::utf8::valid_utf8(a) && vstd::utf8::valid_utf8(b) {
                    AdapterPlan::Route53 {
                        access_key: vstd::utf8::decode_utf8(a),
                        secret_key: vstd::utf8::decode_utf8(b),
                        domain_suffix: suffix,
                    }
                } else {
                    AdapterPlan::Unsupported { reason: "Failed to decode Route 53 credentials"@ }
                },
                _ => AdapterPlan::Unsupported { reason: "Failed to resolve Route 53 credentials"@ },
            }
        }
    } else if provider_type == "manual"@ {
        AdapterPlan::Unsupported {
            reason: "manual DNS providers do not support automated test connections"@,
        }
    } else {
        AdapterPlan::Unsupported {
            reason: "provider type '"@ + provider_type + "' does not have an adapter yet"@,
        }
    }
}

/// How many of the provider's secrets, in order, `adapter_for_provider`
/// needs resolved.
pub fn secrets_needed(provider: &DnsProvider) -> (n: usize)
    ensures
        n == spec_secrets_needed(provider.provider_type@, provider.secret_refs@.len()),
{
    proof {
        reveal_strlit("cloudflare");
        reveal_strlit("digitalocean");
        reveal_strlit("route53");
    }
    let t = provider.provider_type.as_str();
    let refs = provider.secret_refs.len();
    if crate::text::str_eq(t, "cloudflare") || crate::text::str_eq(t, "digitalocean") {
        if refs >= 1 {
            1
        } else {
            0
        }
    } else if crate::text::str_eq(t, "route53") {
        if refs >= 2 {
            2
        } else {
            0
        }
    } else {
        0
    }
}

fn first_suffix(provider: &DnsProvider) -> (s: String)
    ensures
        s@ == first_or_empty(text_views(provider.domain_suffixes@)),
{
    if provider.domain_suffixes.len() > 0 {
        provider.domain_suffixes[0].clone()
    } else {
        String::new()
    }
}

fn token_adapter(
    name: &str,
    is_cloudflare: bool,
    provider: &DnsProvider,
    secrets: &[Result<Vec<u8>, String>],
) -> (r: ProviderAdapter)
    requires
        provider.secret_refs@.len() > 0 ==> secrets@.len() >= 1,
    ensures
        r.fresh(),
        r.plan() == token_plan(
            name@,
            is_cloudflare,
            provider.secret_refs@.len(),
            first_or_empty(text_views(provider.domain_suffixes@)),
            secrets@.map_values(|x: Result<Vec<u8>, String>| secret_view(x)),
        ),
{
    if provider.secret_refs.len() == 0 {
        return ProviderAdapter::Unsupported(
            UnsupportedDnsProviderAdapter::new(cat(name, " provider missing API token")),
        );
    }
    match &secrets[0] {
        Ok(bytes) => match utf8_string(bytes.clone()) {
            Some(token) => {
                let suffix = first_suffix(provider);
                if is_cloudflare {
                    ProviderAdapter::Cloudflare(CloudflareAdapter::new(token, suffix))
                } else {
                    ProviderAdapter::DigitalOcean(DigitalOceanAdapter::new(token, suffix))
                }
            },
            None => ProviderAdapter::Unsupported(
                UnsupportedDnsProviderAdapter::new(cat3("Failed to decode ", name, " API token")),
            ),
        },
        Err(e) => {
            let head = cat3("Failed to resolve ", name, " API token: ");
            ProviderAdapter::Unsupported(
                UnsupportedDnsProviderAdapter::new(cat(head.as_str(), e.as_str())),
            )
        },
    }
}

/// The adapter for a configured provider, made from its first secrets as
/// resolved (`secrets[k]` is the outcome of resolving `secret_refs[k]`).
pub fn adapter_for_provider(provider: &DnsProvider, secrets: &[Result<Vec<u8>, String>]) -> (r:
    ProviderAdapter)
    requires
        secrets@.len() >= spec_secrets_needed(provider.provider_type@, provider.secret_refs@.len()),
    ensures
        r.fresh(),
        r.plan() == spec_adapter_plan(
            provider.provider_type@,
            provider.secret_refs@.len(),
            text_views(provider.domain_suffixes@),
            secrets@.map_values(|x: Result<Vec<u8>, String>| secret_view(x)),
        ),
{
    proof {
        reveal_strlit("cloudflare");
        reveal_strlit("digitalocean");
        reveal_strlit("route53");
        reveal_strlit("manual");
    }
    let t = provider.provider_type.as_str();
    if crate::text::str_eq(t, "cloudflare") {
        token_adapter("Cloudflare", true, provider, secrets)
    } else if crate::text::str_eq(t, "digitalocean") {
        token_adapter("DigitalOcean", false, provider, secrets)
    } else if crate::text::str_eq(t, "route53") {
        if provider.secret_refs.len() < 2 {
            return ProviderAdapter::Unsupported(
                UnsupportedDnsProviderAdapter::new(
                    "Route 53 provider missing access key or secret key".to_string(),
                ),
            );
        }
        match (&secrets[0], &secrets[1]) {
            (Ok(a), Ok(b)) => match (utf8_string(a.clone()), utf8_string(b.clone())) {
                (Some(access_key), Some(secret_key)) => ProviderAdapter::Route53(
                    Route53Adapter::new(access_key, secret_key, first_suffix(provider)),
                ),
                _ => ProviderAdapter::Unsupported(
                    UnsupportedDnsProviderAdapter::new(
                        "Failed to decode Route 53 credentials".to_string(),
                    ),
                ),
            },
            _ => ProviderAdapter::Unsupported(
                UnsupportedDnsProviderAdapter::new("Failed to resolve Route 53 credentials".to_string()),
            ),
        }
    } else if crate::text::str_eq(t, "manual") {
        ProviderAdapter::Unsupported(
            UnsupportedDnsProviderAdapter::new(
                "manual DNS providers do not support automated test connections".to_string(),
            ),
        )
    } else {
        ProviderAdapter::Unsupported(
            UnsupportedDnsProviderAdapter::new(
                cat3("provider type '", t, "' does not have an adapter yet"),
            ),
        )
    }
}


/// A Route 53 record id gives back the record name it was made from.
pub proof fn lemma_route53_record_id_round_trip(record_name: Seq<char>)
    ensures
        starts_with(spec_route53_record_id(record_name), "route53:"@),
        forall|n: Seq<char>| spec_route53_record_id(record_name) == "route53:"@ + n ==> n == record_name,
{
    let id = spec_route53_record_id(record_name);
    assert(id.subrange(0, "route53:"@.len() as int) =~= "route53:"@);
    assert forall|n: Seq<char>| spec_route53_record_id(record_name) == "route53:"@ + n implies n == record_name by {
        assert(n =~= id.subrange("route53:"@.len() as int, id.len() as int));
        assert(record_name =~= id.subrange("route53:"@.len() as int, id.len() as int));
    }
}

/// A DigitalOcean record id text reads back as the id.
pub proof fn lemma_digitalocean_record_id_round_trip(id: u64)
    ensures
        spec_parse_u64(spec_decimal(id as nat)) == Some(id),
{
    crate::text::lemma_parse_decimal(id);
}

} // verus!
