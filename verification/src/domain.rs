//! Domain names in storage form (IDNA ASCII, lower case) and display form
//! (Unicode, lower case).
use vstd::prelude::*;

use crate::text::{
    chars_of, concat, contains, ends_with, is_ws, string_of, strip_prefix_all, strip_prefix_all_chars,
    to_lowercase, trim_char, trim_end_char, trim_end_char_chars, trim_start_char,
    trim_start_char_chars, trim_ws, trim_ws_chars, unicode_lowercase,
};

verus! {

/// What `idna::domain_to_ascii` returns: `None` where it reports errors.
pub uninterp spec fn idna_to_ascii(domain: Seq<char>) -> Option<Seq<char>>;

/// What `idna::domain_to_unicode` returns as its string part.
pub uninterp spec fn idna_to_unicode(domain: Seq<char>) -> Seq<char>;

/// Calls `idna::domain_to_ascii` (UTS #46 to-ASCII with no deny list). Its
/// result is named, not stated: `Ok` exactly where the name is `Some`, and
/// then the same text. The error is `idna::Errors`, an empty struct whose
/// `Display` forwards to its derived `Debug`, so its text is always
/// "Errors".
#[verifier::external_body]
fn idna_domain_to_ascii(domain: &str) -> (r: Result<String, String>)
    ensures
        r is Ok <==> idna_to_ascii(domain@) is Some,
        r matches Ok(a) ==> a@ == idna_to_ascii(domain@)->0,
        r matches Err(m) ==> m@ == idna_error_text(),
{
    match idna::domain_to_ascii(domain) {
        Ok(ascii) => Ok(ascii),
        Err(err) => Err(err.to_string()),
    }
}

/// Calls `idna::domain_to_unicode` and keeps its string part, which the crate
/// returns whether or not it also reports errors.
#[verifier::external_body]
fn idna_domain_to_unicode(domain: &str) -> (r: String)
    ensures
        r@ == idna_to_unicode(domain@),
{
    idna::domain_to_unicode(domain).0
}

/// Why a domain name could not be put into storage form.
#[derive(Debug, Clone, PartialEq, Eq)]
pub enum DomainError {
    /// Nothing is left once whitespace and trailing dots are removed.
    Required,
    /// IDNA processing failed; the crate's message is kept.
    Invalid(String),
}

/// The text that idna's error displays.
pub open spec fn idna_error_text() -> Seq<char> {
    "Errors"@
}

/// The text that a domain error displays.
pub open spec fn error_text(e: DomainError) -> Seq<char> {
    match e {
        DomainError::Required => "domain name is required"@,
        DomainError::Invalid(x) => "invalid domain name: "@ + x@,
    }
}

/// The text of the error that putting `input` into storage form gives,
/// where it fails.
pub open spec fn domain_error_text(input: Seq<char>) -> Seq<char> {
    if storage_trim(input).len() == 0 {
        "domain name is required"@
    } else {
        "invalid domain name: "@ + idna_error_text()
    }
}

impl DomainError {
    /// The text that the error displays.
    pub fn message(&self) -> (m: String)
        ensures
            m@ == error_text(*self),
            self is Required ==> m@ == "domain name is required"@,
            self matches DomainError::Invalid(e) ==> m@ == "invalid domain name: "@ + e@,
    {
        match self {
            DomainError::Required => "domain name is required".to_string(),
            DomainError::Invalid(e) => {
                let head = chars_of("invalid domain name: ");
                let tail = chars_of(e.as_str());
                string_of(&concat(&head, &tail))
            },
        }
    }
}

/// Input with surrounding whitespace and trailing dots removed.
pub open spec fn storage_trim(input: Seq<char>) -> Seq<char> {
    trim_end_char(trim_ws(input), '.')
}

/// Storage form of a domain: `None` where it is empty or IDNA rejects it.
pub open spec fn storage_form(input: Seq<char>) -> Option<Seq<char>> {
    let t = storage_trim(input);
    if t.len() == 0 {
        None
    } else {
        match idna_to_ascii(t) {
            Some(a) => Some(unicode_lowercase(a)),
            None => None,
        }
    }
}

/// Converts a domain into the ASCII, lower-case form in which it is stored.
pub fn normalize_domain_for_storage(input: &str) -> (r: Result<String, DomainError>)
    ensures
        r is Ok <==> storage_form(input@) is Some,
        r matches Ok(v) ==> v@ == storage_form(input@)->0,
        r matches Err(e) ==> (e is Required <==> storage_trim(input@).len() == 0),
        r matches Err(e) ==> error_text(e) == domain_error_text(input@),
{
    let v = chars_of(input);
    let t = trim_ws_chars(&v);
    let t = trim_end_char_chars(&t, '.');
    if t.len() == 0 {
        return Err(DomainError::Required);
    }
    let ts = string_of(&t);
    match idna_domain_to_ascii(ts.as_str()) {
        Ok(ascii) => Ok(to_lowercase(ascii.as_str())),
        Err(e) => Err(DomainError::Invalid(e)),
    }
}

/// Suffix text with surrounding whitespace, every leading `*.`, then leading
/// and trailing dots removed.
pub open spec fn suffix_trim(raw: Seq<char>) -> Seq<char> {
    trim_end_char(trim_start_char(strip_prefix_all(trim_ws(raw), "*."@), '.'), '.')
}

/// Storage form of a domain suffix: the empty text where nothing is left,
/// else the storage form of what is left.
pub open spec fn suffix_storage_form(raw: Seq<char>) -> Option<Seq<char>> {
    let t = suffix_trim(raw);
    if t.len() == 0 {
        Some(Seq::<char>::empty())
    } else {
        storage_form(t)
    }
}

/// Normalizes a domain suffix such as `*.example.com` or `.example.com.`
/// into its storage form; a suffix with nothing left is the empty string.
pub fn normalize_domain_suffix_for_storage(raw: &str) -> (r: Result<String, DomainError>)
    ensures
        r is Ok <==> suffix_storage_form(raw@) is Some,
        r matches Ok(v) ==> v@ == suffix_storage_form(raw@)->0,
        r matches Err(e) ==> error_text(e) == domain_error_text(suffix_trim(raw@)),
{
    let v = chars_of(raw);
    let t = trim_ws_chars(&v);
    let star_dot = chars_of("*.");
    proof {
        reveal_strlit("*.");
    }
    let t = strip_prefix_all_chars(&t, &star_dot);
    let t = trim_start_char_chars(&t, '.');
    let t = trim_end_char_chars(&t, '.');
    if t.len() == 0 {
        return Ok(String::new());
    }
    let stripped = string_of(&t);
    normalize_domain_for_storage(stripped.as_str())
}

/// Display form of a domain: the IDNA Unicode form of the trimmed name,
/// lower-cased.
pub open spec fn display_form(input: Seq<char>) -> Seq<char> {
    unicode_lowercase(idna_to_unicode(storage_trim(input)))
}

/// Converts a stored (possibly Punycode) domain into its display form.
pub fn normalize_domain_for_display(input: &str) -> (r: String)
    ensures
        r@ == display_form(input@),
{
    let v = chars_of(input);
    let t = trim_ws_chars(&v);
    let t = trim_end_char_chars(&t, '.');
    let ts = string_of(&t);
    let unicode = idna_domain_to_unicode(ts.as_str());
    to_lowercase(unicode.as_str())
}

/// Converts every domain of a list into its display form, in order.
pub fn normalize_domains_for_display(domains: &[String]) -> (r: Vec<String>)
    ensures
        r@.len() == domains@.len(),
        forall|i: int| 0 <= i < domains@.len() ==> #[trigger] r@[i]@ == display_form(domains@[i]@),
{
    let mut out: Vec<String> = Vec::new();
    let mut i: usize = 0;
    while i < domains.len()
        invariant
            i <= domains.len(),
            out@.len() == i,
            forall|k: int| 0 <= k < i ==> #[trigger] out@[k]@ == display_form(domains@[k]@),
        decreases domains.len() - i,
    {
        out.push(normalize_domain_for_display(domains[i].as_str()));
        i = i + 1;
    }
    out
}

} // verus!
