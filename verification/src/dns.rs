//! DNS-01 challenge records: record names, zones, and the reading of DNS
//! over HTTPS answers into a propagation state.
use vstd::prelude::*;

use crate::text::{
    cat3, char_pred, chars_of, concat, lemma_trim_end_by_shape, split, split_by, starts_with, starts_with_chars, string_of,
    trim_char, trim_char_chars, trim_end_by, trim_end_char, trim_end_char_chars, trim_ws, trim_ws_chars,
    SplitRule,
};

verus! {

/// A DNS-01 challenge: the domain, the TXT value, and an optional zone.
#[derive(Debug, Clone)]
pub struct DnsChallengeRequest {
    pub domain: String,
    pub value: String,
    pub zone: Option<String>,
}

/// The TXT record to create, as shown to the user.
#[derive(Debug, Clone)]
pub struct DnsRecordInstruction {
    pub adapter: String,
    pub record_name: String,
    pub value: String,
    pub zone: String,
}

/// Where a TXT record stands in public DNS.
#[derive(Debug, Clone, Copy, PartialEq, Eq, Structural)]
pub enum PropagationState {
    Pending,
    Found,
    NxDomain,
    WrongContent,
    Error,
}

/// The reading of one round of DNS answers.
#[derive(Debug, Clone)]
pub struct DnsPropagationResult {
    pub state: PropagationState,
    pub reason: Option<String>,
    pub observed_values: Vec<String>,
}

/// One answer of a DNS-over-HTTPS JSON reply.
#[derive(Debug, Clone)]
pub struct GoogleDnsAnswer {
    pub data: Option<String>,
}

/// A DNS-over-HTTPS JSON reply: the DNS status code and the answers.
#[derive(Debug, Clone)]
pub struct GoogleDnsResponse {
    pub status: u32,
    pub answer: Option<Vec<GoogleDnsAnswer>>,
}

// ---------------------------------------------------------------------------
// Record names and zones
// ---------------------------------------------------------------------------

pub open spec fn acme_prefix() -> Seq<char> {
    "_acme-challenge."@
}

/// The TXT record name of a DNS-01 challenge for `domain`.
pub open spec fn spec_record_name(domain: Seq<char>) -> Seq<char> {
    let t = trim_end_char(domain, '.');
    if starts_with(t, acme_prefix()) {
        t
    } else {
        acme_prefix() + t
    }
}

/// Returns the `_acme-challenge.` record name for a domain; a name that
/// already carries the prefix is kept (trailing dots removed).
pub fn record_name(domain: &str) -> (r: String)
    ensures
        r@ == spec_record_name(domain@),
{
    proof {
        reveal_strlit("_acme-challenge.");
    }
    let v = chars_of(domain);
    let t = trim_end_char_chars(&v, '.');
    let prefix = chars_of("_acme-challenge.");
    if starts_with_chars(&t, &prefix) {
        string_of(&t)
    } else {
        string_of(&concat(&prefix, &t))
    }
}

/// A challenge record name maps to itself: applying `record_name` to its own
/// result changes nothing, for every domain that is more than dots.
pub proof fn lemma_record_name_idempotent(domain: Seq<char>)
    requires
        trim_end_char(domain, '.').len() > 0,
    ensures
        spec_record_name(spec_record_name(domain)) == spec_record_name(domain),
{
    reveal_strlit("_acme-challenge.");
    let t = trim_end_char(domain, '.');
    lemma_trim_end_by_shape(domain, char_pred('.'));
    let r = spec_record_name(domain);
    // `r` ends in the last character of `t`, which is no dot.
    assert(r.len() > 0 && r.last() == t.last());
    assert(!char_pred('.')(r.last()));
    assert(trim_end_by(r, char_pred('.')) == r);
    // `r` carries the prefix.
    if !starts_with(t, acme_prefix()) {
        assert((acme_prefix() + t).subrange(0, acme_prefix().len() as int) =~= acme_prefix());
    }
    assert(starts_with(r, acme_prefix()));
}

/// The registrable-looking root of a host: its last two labels joined by a
/// dot (after trailing dots are removed), or the host itself when it has
/// fewer than two labels.
pub open spec fn spec_last_two_labels(host: Seq<char>) -> Seq<char> {
    let parts = split_by(trim_end_char(host, '.'), char_pred('.'));
    if parts.len() >= 2 {
        parts[parts.len() - 2] + "."@ + parts[parts.len() - 1]
    } else {
        host
    }
}

/// The zone guessed for a host: its last two labels.
pub fn derive_zone(hostname: &str) -> (r: String)
    ensures
        r@ == spec_last_two_labels(hostname@),
{
    proof {
        reveal_strlit(".");
    }
    let v = chars_of(hostname);
    let t = trim_end_char_chars(&v, '.');
    let parts = split(&t, SplitRule::Char('.'));
    let n = parts.len();
    if n >= 2 {
        let dot = chars_of(".");
        let head = concat(&parts[n - 2], &dot);
        string_of(&concat(&head, &parts[n - 1]))
    } else {
        string_of(&v)
    }
}

// ---------------------------------------------------------------------------
// Reading DNS answers
// ---------------------------------------------------------------------------

/// A TXT value as published: surrounding quotes, then spaces, then whitespace
/// removed.
pub open spec fn spec_trim_txt_quotes(value: Seq<char>) -> Seq<char> {
    trim_ws(trim_char(trim_char(value, '"'), ' '))
}

/// A TXT value as compared by the provider adapters: whitespace, then quotes,
/// then whitespace removed.
pub open spec fn spec_normalize_txt(value: Seq<char>) -> Seq<char> {
    trim_ws(trim_char(trim_ws(value), '"'))
}

/// How the answers' data are cleaned before comparison.
#[derive(Clone, Copy)]
pub enum ValueCleaning {
    /// `spec_trim_txt_quotes`.
    TrimQuotes,
    /// `spec_normalize_txt`.
    Normalize,
}

pub open spec fn clean(how: ValueCleaning, value: Seq<char>) -> Seq<char> {
    match how {
        ValueCleaning::TrimQuotes => spec_trim_txt_quotes(value),
        ValueCleaning::Normalize => spec_normalize_txt(value),
    }
}

/// Removes the quotes and padding that resolvers put around TXT data.
pub fn trim_txt_quotes(value: &str) -> (r: String)
    ensures
        r@ == spec_trim_txt_quotes(value@),
{
    let v = chars_of(value);
    let a = trim_char_chars(&v, '"');
    let b = trim_char_chars(&a, ' ');
    string_of(&trim_ws_chars(&b))
}

/// Normalizes a TXT value for comparison: trims whitespace and quotes.
pub fn normalize_txt(value: &str) -> (r: String)
    ensures
        r@ == spec_normalize_txt(value@),
{
    let v = chars_of(value);
    let a = trim_ws_chars(&v);
    let b = trim_char_chars(&a, '"');
    string_of(&trim_ws_chars(&b))
}

fn clean_value(how: ValueCleaning, value: &str) -> (r: String)
    ensures
        r@ == clean(how, value@),
{
    match how {
        ValueCleaning::TrimQuotes => trim_txt_quotes(value),
        ValueCleaning::Normalize => normalize_txt(value),
    }
}

/// The cleaned data of the answers that carry data, in order.
pub open spec fn answers_values(answers: Seq<GoogleDnsAnswer>, how: ValueCleaning) -> Seq<Seq<char>>
    decreases answers.len(),
{
    if answers.len() == 0 {
        Seq::empty()
    } else {
        let prev = answers_values(answers.drop_last(), how);
        match answers.last().data {
            Some(d) => prev.push(clean(how, d@)),
            None => prev,
        }
    }
}

pub open spec fn response_values(r: GoogleDnsResponse, how: ValueCleaning) -> Seq<Seq<char>> {
    match r.answer {
        Some(a) => answers_values(a@, how),
        None => Seq::empty(),
    }
}

/// The cleaned data of all answers of all replies, in order.
pub open spec fn responses_values(rs: Seq<GoogleDnsResponse>, how: ValueCleaning) -> Seq<Seq<char>>
    decreases rs.len(),
{
    if rs.len() == 0 {
        Seq::empty()
    } else {
        responses_values(rs.drop_last(), how) + response_values(rs.last(), how)
    }
}

/// Some reply carries the given DNS status.
pub open spec fn some_status(rs: Seq<GoogleDnsResponse>, code: u32) -> bool {
    exists|i: int| 0 <= i < rs.len() && #[trigger] rs[i].status == code
}

/// The state read from the observed values and statuses: the expected value
/// seen wins, then any other value, then an empty NOERROR, then NXDOMAIN.
pub open spec fn spec_propagation_state(
    observed: Seq<Seq<char>>,
    expected: Seq<char>,
    saw_ok: bool,
    saw_nxdomain: bool,
) -> PropagationState {
    if observed.contains(expected) {
        PropagationState::Found
    } else if observed.len() > 0 {
        PropagationState::WrongContent
    } else if saw_ok {
        PropagationState::Pending
    } else if saw_nxdomain {
        PropagationState::NxDomain
    } else {
        PropagationState::Error
    }
}

/// The reason given with each state; `error_reason` is the text for `Error`.
pub open spec fn spec_propagation_reason(state: PropagationState, error_reason: Seq<char>) -> Option<
    Seq<char>,
> {
    match state {
        PropagationState::Found => None,
        PropagationState::WrongContent => Some("TXT record present with different value"@),
        PropagationState::Pending => Some("record not found yet"@),
        PropagationState::NxDomain => Some("record not found (NXDOMAIN)"@),
        PropagationState::Error => Some(error_reason),
    }
}

pub open spec fn opt_view(o: Option<String>) -> Option<Seq<char>> {
    match o {
        Some(s) => Some(s@),
        None => None,
    }
}

pub open spec fn views(v: Seq<String>) -> Seq<Seq<char>> {
    v.map_values(|s: String| s@)
}

/// `r` is the reading of `observed` against `expected`.
pub open spec fn is_reading(
    r: DnsPropagationResult,
    observed: Seq<Seq<char>>,
    expected: Seq<char>,
    saw_ok: bool,
    saw_nxdomain: bool,
    error_reason: Seq<char>,
) -> bool {
    &&& views(r.observed_values@) == observed
    &&& r.state == spec_propagation_state(observed, expected, saw_ok, saw_nxdomain)
    &&& opt_view(r.reason) == spec_propagation_reason(r.state, error_reason)
}

/// A reading is `Found` exactly when the expected value is among the observed
/// values, at whatever position, and then it gives no reason; values observed
/// without the expected one among them read as `WrongContent`; with no value
/// observed the reading is neither: it is `Pending` where some resolver
/// answered NOERROR, else `NxDomain` where one answered NXDOMAIN, else `Error`
/// with the given reason. Every state but `Found` comes with a reason.
pub proof fn lemma_reading_found_anywhere(
    r: DnsPropagationResult,
    observed: Seq<Seq<char>>,
    expected: Seq<char>,
    saw_ok: bool,
    saw_nxdomain: bool,
    error_reason: Seq<char>,
)
    requires
        is_reading(r, observed, expected, saw_ok, saw_nxdomain, error_reason),
    ensures
        (r.state == PropagationState::Found) <==> (exists|i: int| 0 <= i < observed.len() && #[trigger] observed[i] == expected),
        r.state == PropagationState::Found ==> r.reason is None,
        observed.len() > 0 && (forall|i: int| 0 <= i < observed.len() ==> #[trigger] observed[i] != expected)
            ==> r.state == PropagationState::WrongContent,
        observed.len() == 0 ==> r.state != PropagationState::Found && r.state != PropagationState::WrongContent,
        observed.len() == 0 && saw_ok ==> r.state == PropagationState::Pending,
        observed.len() == 0 && !saw_ok && saw_nxdomain ==> r.state == PropagationState::NxDomain,
        observed.len() == 0 && !saw_ok && !saw_nxdomain ==> r.state == PropagationState::Error && (r.reason matches Some(m)
            && m@ == error_reason),
        r.state != PropagationState::Found ==> r.reason is Some,
{
    if exists|i: int| 0 <= i < observed.len() && #[trigger] observed[i] == expected {
        let i = choose|i: int| 0 <= i < observed.len() && #[trigger] observed[i] == expected;
        assert(observed.contains(expected));
    }
}

fn contains_value(values: &Vec<String>, expected: &String) -> (b: bool)
    ensures
        b == views(values@).contains(expected@),
{
    let mut i: usize = 0;
    while i < values.len()
        invariant
            i <= values.len(),
            forall|k: int| 0 <= k < i ==> values@[k]@ != expected@,
        decreases values.len() - i,
    {
        if values[i] == *expected {
            assert(views(values@)[i as int] == expected@);
            return true;
        }
        i = i + 1;
    }
    proof {
        if views(values@).contains(expected@) {
            let k = choose|k: int| 0 <= k < views(values@).len() && views(values@)[k] == expected@;
            assert(values@[k]@ == expected@);
        }
    }
    false
}

pub(crate) fn build_reading(
    observed: Vec<String>,
    expected: &String,
    saw_ok: bool,
    saw_nxdomain: bool,
    error_reason: &str,
) -> (r: DnsPropagationResult)
    ensures
        is_reading(r, views(observed@), expected@, saw_ok, saw_nxdomain, error_reason@),
{
    proof {
        reveal_strlit("TXT record present with different value");
        reveal_strlit("record not found yet");
        reveal_strlit("record not found (NXDOMAIN)");
    }
    if contains_value(&observed, expected) {
        DnsPropagationResult { state: PropagationState::Found, reason: None, observed_values: observed }
    } else if observed.len() > 0 {
        DnsPropagationResult {
            state: PropagationState::WrongContent,
            reason: Some("TXT record present with different value".to_string()),
            observed_values: observed,
        }
    } else if saw_ok {
        DnsPropagationResult {
            state: PropagationState::Pending,
            reason: Some("record not found yet".to_string()),
            observed_values: observed,
        }
    } else if saw_nxdomain {
        DnsPropagationResult {
            state: PropagationState::NxDomain,
            reason: Some("record not found (NXDOMAIN)".to_string()),
            observed_values: observed,
        }
    } else {
        let reason = string_of(&chars_of(error_reason));
        DnsPropagationResult {
            state: PropagationState::Error,
            reason: Some(reason),
            observed_values: observed,
        }
    }
}

/// Appends the cleaned data of one reply's answers.
fn collect_answers(out: &mut Vec<String>, answers: &Vec<GoogleDnsAnswer>, how: ValueCleaning)
    ensures
        views(final(out)@) == views(old(out)@) + answers_values(answers@, how),
{
    let mut j: usize = 0;
    assert(answers@.take(0) =~= Seq::<GoogleDnsAnswer>::empty());
    assert(views(out@) =~= views(old(out)@) + answers_values(answers@.take(0), how));
    while j < answers.len()
        invariant
            j <= answers.len(),
            views(out@) == views(old(out)@) + answers_values(answers@.take(j as int), how),
        decreases answers.len() - j,
    {
        let ghost before = views(out@);
        assert(answers@.take(j as int + 1).drop_last() =~= answers@.take(j as int));
        assert(answers@.take(j as int + 1).last() == answers@[j as int]);
        match &answers[j].data {
            Some(d) => {
                out.push(clean_value(how, d.as_str()));
                assert(views(out@) =~= before.push(clean(how, d@)));
            },
            None => {},
        }
        j = j + 1;
    }
    assert(answers@.take(answers.len() as int) =~= answers@);
}

/// Interprets the replies of several resolvers for one challenge.
pub fn interpret_dns_results(responses: &[GoogleDnsResponse], req: &DnsChallengeRequest) -> (r:
    DnsPropagationResult)
    ensures
        is_reading(
            r,
            responses_values(responses@, ValueCleaning::TrimQuotes),
            req.value@,
            some_status(responses@, 0),
            some_status(responses@, 3),
            "no responses from DNS resolvers"@,
        ),
{
    let mut observed: Vec<String> = Vec::new();
    let mut saw_nxdomain = false;
    let mut saw_ok = false;
    let mut i: usize = 0;
    assert(responses@.take(0) =~= Seq::<GoogleDnsResponse>::empty());
    while i < responses.len()
        invariant
            i <= responses.len(),
            views(observed@) == responses_values(
                responses@.take(i as int),
                ValueCleaning::TrimQuotes,
            ),
            saw_ok == some_status(responses@.take(i as int), 0),
            saw_nxdomain == some_status(responses@.take(i as int), 3),
        decreases responses.len() - i,
    {
        let ghost pre = responses@.take(i as int);
        let ghost post = responses@.take(i as int + 1);
        assert(post.drop_last() =~= pre);
        assert(post.last() == responses@[i as int]);
        let response = &responses[i];
        match &response.answer {
            Some(answers) => {
                collect_answers(&mut observed, answers, ValueCleaning::TrimQuotes);
            },
            None => {},
        }
        if response.status == 3 {
            saw_nxdomain = true;
        }
        if response.status == 0 {
            saw_ok = true;
        }
        proof {
            assert(some_status(post, 0) == (some_status(pre, 0) || response.status == 0)) by {
                if response.status == 0 {
                    assert(post[i as int].status == 0);
                }
                if some_status(pre, 0) {
                    let k = choose|k: int| 0 <= k < pre.len() && #[trigger] pre[k].status == 0;
                    assert(post[k].status == 0);
                }
                if some_status(post, 0) {
                    let k = choose|k: int| 0 <= k < post.len() && #[trigger] post[k].status == 0;
                    if k < i {
                        assert(pre[k].status == 0);
                    }
                }
            }
            assert(some_status(post, 3) == (some_status(pre, 3) || response.status == 3)) by {
                if response.status == 3 {
                    assert(post[i as int].status == 3);
                }
                if some_status(pre, 3) {
                    let k = choose|k: int| 0 <= k < pre.len() && #[trigger] pre[k].status == 3;
                    assert(post[k].status == 3);
                }
                if some_status(post, 3) {
                    let k = choose|k: int| 0 <= k < post.len() && #[trigger] post[k].status == 3;
                    if k < i {
                        assert(pre[k].status == 3);
                    }
                }
            }
        }
        i = i + 1;
    }
    assert(responses@.take(responses.len() as int) =~= responses@);
    proof {
        reveal_strlit("no responses from DNS resolvers");
    }
    build_reading(observed, &req.value, saw_ok, saw_nxdomain, "no responses from DNS resolvers")
}

/// Interprets one resolver's reply, comparing values after they are
/// normalized the way the provider adapters normalize them.
pub fn interpret_normalized(
    response: &GoogleDnsResponse,
    normalized_expected: &String,
) -> (r: DnsPropagationResult)
    ensures
        is_reading(
            r,
            response_values(*response, ValueCleaning::Normalize),
            normalized_expected@,
            response.status == 0,
            response.status == 3,
            "no response from DNS resolver"@,
        ),
{
    let mut observed: Vec<String> = Vec::new();
    match &response.answer {
        Some(answers) => {
            collect_answers(&mut observed, answers, ValueCleaning::Normalize);
        },
        None => {},
    }
    assert(views(observed@) =~= response_values(*response, ValueCleaning::Normalize));
    proof {
        reveal_strlit("no response from DNS resolver");
    }
    build_reading(
        observed,
        normalized_expected,
        response.status == 0,
        response.status == 3,
        "no response from DNS resolver",
    )
}

/// Interprets the replies fetched for a TXT record check: the challenge is the
/// record name itself, with the expected value.
pub fn check_txt_record(
    record_name: &str,
    expected_value: &str,
    responses: &[GoogleDnsResponse],
) -> (r: DnsPropagationResult)
    ensures
        is_reading(
            r,
            responses_values(responses@, ValueCleaning::TrimQuotes),
            expected_value@,
            some_status(responses@, 0),
            some_status(responses@, 3),
            "no responses from DNS resolvers"@,
        ),
{
    let req = DnsChallengeRequest {
        domain: string_of(&chars_of(record_name)),
        value: string_of(&chars_of(expected_value)),
        zone: None,
    };
    interpret_dns_results(responses, &req)
}

// ---------------------------------------------------------------------------
// The manual adapter
// ---------------------------------------------------------------------------

/// Challenge instructions: the record name, the value, and the zone (the
/// request's zone, else the zone guessed from the domain).
pub open spec fn is_instruction(r: DnsRecordInstruction, adapter: Seq<char>, req: DnsChallengeRequest) -> bool {
    &&& r.adapter@ == adapter
    &&& r.record_name@ == spec_record_name(req.domain@)
    &&& r.value@ == req.value@
    &&& r.zone@ == match req.zone {
        Some(z) => z@,
        None => spec_last_two_labels(req.domain@),
    }
}

/// Turns a DNS-01 challenge into record instructions and reads propagation
/// answers; adapters that create records remotely also clean them up.
pub trait DnsAdapter {
    /// The adapter's identifier.
    fn id(&self) -> (r: String)
        ensures
            r@ == self.id_spec(),
    ;

    /// The record that answers the challenge.
    fn present_txt(&self, req: &DnsChallengeRequest) -> (r: Result<DnsRecordInstruction, String>)
        ensures
            r matches Ok(ins) ==> is_instruction(ins, self.id_spec(), *req),
    ;

    /// Removes what `present_txt` created; nothing by default.
    fn cleanup_txt(&self, req: &DnsChallengeRequest) -> (r: Result<(), String>)
        ensures
            r is Ok,
    {
        Ok(())
    }

    /// Reads the replies that were fetched for the challenge's record.
    fn check_propagation(&self, req: &DnsChallengeRequest, responses: &[GoogleDnsResponse]) -> (r:
        DnsPropagationResult)
        ensures
            is_reading(
                r,
                responses_values(responses@, ValueCleaning::TrimQuotes),
                req.value@,
                some_status(responses@, 0),
                some_status(responses@, 3),
                "no responses from DNS resolvers"@,
            ),
    ;

    spec fn id_spec(&self) -> Seq<char>;
}

/// Emits instructions for the user to create the record by hand.
pub struct ManualDnsAdapter;

impl ManualDnsAdapter {
    pub fn new() -> (r: Self)
        ensures
            r == ManualDnsAdapter,
    {
        ManualDnsAdapter
    }
}

impl DnsAdapter for ManualDnsAdapter {
    open spec fn id_spec(&self) -> Seq<char> {
        "manual"@
    }

    fn id(&self) -> (r: String)
        ensures
            r@ == "manual"@,
    {
        "manual".to_string()
    }

    fn present_txt(&self, req: &DnsChallengeRequest) -> (r: Result<DnsRecordInstruction, String>)
        ensures
            r matches Ok(ins) && is_instruction(ins, "manual"@, *req),
    {
        let name = record_name(req.domain.as_str());
        let zone = match &req.zone {
            Some(z) => z.clone(),
            None => derive_zone(req.domain.as_str()),
        };
        Ok(DnsRecordInstruction { adapter: self.id(), record_name: name, value: req.value.clone(), zone })
    }

    fn check_propagation(&self, req: &DnsChallengeRequest, responses: &[GoogleDnsResponse]) -> (r:
        DnsPropagationResult) {
        interpret_dns_results(responses, req)
    }
}


// ---------------------------------------------------------------------------
// Gathering resolver replies
// ---------------------------------------------------------------------------

/// The reply holds the expected value among its answers (quotes and padding
/// removed).
pub open spec fn holds_value(r: GoogleDnsResponse, expected: Seq<char>) -> bool {
    response_values(r, ValueCleaning::TrimQuotes).contains(expected)
}

/// Some reply holds the expected value.
pub open spec fn any_holding(got: Seq<GoogleDnsResponse>, e: Seq<char>) -> bool {
    exists|i: int| 0 <= i < got.len() && holds_value(#[trigger] got[i], e)
}

/// The reply at `i` is the first that holds the expected value.
pub open spec fn first_holding(got: Seq<GoogleDnsResponse>, e: Seq<char>, i: int) -> bool {
    &&& 0 <= i < got.len()
    &&& holds_value(got[i], e)
    &&& forall|j: int| 0 <= j < i ==> !holds_value(#[trigger] got[j], e)
}

/// The replies that arrived, in order.
pub open spec fn arrived(replies: Seq<Result<GoogleDnsResponse, String>>) -> Seq<GoogleDnsResponse>
    decreases replies.len(),
{
    if replies.len() == 0 {
        Seq::empty()
    } else {
        let prev = arrived(replies.drop_last());
        match replies.last() {
            Ok(r) => prev.push(r),
            Err(_) => prev,
        }
    }
}

fn reply_holds(r: &GoogleDnsResponse, expected: &String) -> (b: bool)
    ensures
        b == holds_value(*r, expected@),
{
    let mut values: Vec<String> = Vec::new();
    match &r.answer {
        Some(answers) => collect_answers(&mut values, answers, ValueCleaning::TrimQuotes),
        None => {},
    }
    assert(views(values@) =~= response_values(*r, ValueCleaning::TrimQuotes));
    contains_value(&values, expected)
}

/// Gathers the replies of the resolvers in the order they arrived: the first
/// reply that holds the expected value, alone, where there is one; else
/// every reply; an error where no resolver replied.
pub fn gather_resolver_replies(
    record_name: &str,
    expected: Option<&str>,
    replies: Vec<Result<GoogleDnsResponse, String>>,
) -> (r: Result<Vec<GoogleDnsResponse>, String>)
    ensures
        expected is Some && any_holding(arrived(replies@), expected->0@) ==> (r matches Ok(v) && v@.len()
            == 1 && exists|i: int|
            first_holding(arrived(replies@), expected->0@, i) && v@[0] == arrived(replies@)[i]),
        !(expected is Some && any_holding(arrived(replies@), expected->0@)) && arrived(replies@).len() > 0
            ==> (r matches Ok(v) && v@ == arrived(replies@)),
        !(expected is Some && any_holding(arrived(replies@), expected->0@)) && arrived(replies@).len() == 0
            ==> (r matches Err(m) && m@ == "dns query failed for "@ + record_name@ + " across resolvers"@),
{
    let ghost all = replies@;
    let mut results: Vec<GoogleDnsResponse> = Vec::new();
    let want: Option<String> = match expected {
        Some(e) => Some(e.to_string()),
        None => None,
    };
    let mut i: usize = 0;
    let n = replies.len();
    let mut rest = replies;
    assert(all.take(0) =~= Seq::<Result<GoogleDnsResponse, String>>::empty());
    assert(rest@ =~= all.skip(0));
    while i < n
        invariant
            all == replies@,
            n == all.len(),
            i <= n,
            rest@ == all.skip(i as int),
            results@ == arrived(all.take(i as int)),
            opt_view(want) == match expected { Some(e) => Some(e@), None => None },
            expected is Some ==> forall|j: int|
                0 <= j < results@.len() ==> !holds_value(#[trigger] results@[j], expected->0@),
        decreases n - i,
    {
        assert(all.take(i as int + 1).drop_last() =~= all.take(i as int));
        assert(all.take(i as int + 1).last() == all[i as int]);
        let item = rest.remove(0);
        assert(item == all[i as int]);
        assert(rest@ =~= all.skip(i as int + 1));
        match item {
            Ok(reply) => {
                let found = match &want {
                    Some(w) => reply_holds(&reply, w),
                    None => false,
                };
                if found {
                    let ghost idx = results@.len() as int;
                    let ghost got = arrived(all);
                    proof {
                        assert(want is Some);
                        assert(expected is Some);
                        assert(want->0@ == expected->0@);
                        assert(holds_value(reply, expected->0@));
                        lemma_arrived_prefix(all, i as int + 1);
                        assert(arrived(all.take(i as int + 1)) =~= results@.push(reply));
                        assert(got[idx] == arrived(all.take(i as int + 1))[idx]);
                        assert(got[idx] == reply);
                        assert forall|j: int| 0 <= j < idx implies !holds_value(#[trigger] got[j], expected->0@) by {
                            assert(got[j] == arrived(all.take(i as int + 1))[j]);
                            assert(results@[j] == got[j]);
                        }
                        assert(holds_value(got[idx], expected->0@));
                    }
                    let mut one: Vec<GoogleDnsResponse> = Vec::new();
                    one.push(reply);
                    assert(one@[0] == got[idx]);
                    proof {
                        let e = expected->0;
                        assert(holds_value(got[idx], e@));
                        assert(any_holding(got, e@));
                        assert(first_holding(got, e@, idx));
                    }
                    return Ok(one);
                }
                results.push(reply);
            },
            Err(_) => {},
        }
        i = i + 1;
    }
    assert(all.take(n as int) =~= all);
    proof {
        if expected is Some {
            assert forall|k: int| 0 <= k < arrived(all).len() implies !holds_value(#[trigger] arrived(all)[k], expected->0@) by {
                assert(results@[k] == arrived(all)[k]);
            }
        }
    }
    if results.len() == 0 {
        let head = cat3("dns query failed for ", record_name, " across resolvers");
        return Err(head);
    }
    Ok(results)
}

/// The replies that arrived among the first `k` are the first ones of all
/// that arrived.
pub proof fn lemma_arrived_prefix(replies: Seq<Result<GoogleDnsResponse, String>>, k: int)
    requires
        0 <= k <= replies.len(),
    ensures
        arrived(replies.take(k)).len() <= arrived(replies).len(),
        forall|j: int| 0 <= j < arrived(replies.take(k)).len() ==> #[trigger] arrived(replies.take(k))[j]
            == arrived(replies)[j],
    decreases replies.len() - k,
{
    if k < replies.len() {
        lemma_arrived_prefix(replies.drop_last(), k);
        assert(replies.drop_last().take(k) =~= replies.take(k));
    } else {
        assert(replies.take(k) =~= replies);
    }
}

} // verus!
