//! Configured DNS providers: their domain suffixes, and the choice of the
//! provider that serves a hostname.
use vstd::prelude::*;

use crate::domain::{
    domain_error_text, error_text, normalize_domain_for_storage, normalize_domain_suffix_for_storage,
    storage_form, suffix_storage_form, suffix_trim, DomainError,
};
use crate::text::{
    chars_of, concat, ends_with, ends_with_chars, eq_chars, insert_sorted, lemma_seq_lt_total,
    lemma_seq_lt_transitive, lemma_seq_lt_irreflexive, list_sep_pred, lt_chars, seq_lt, split,
    split_by, strictly_sorted, string_of, SplitRule,
};

verus! {

/// A configured DNS provider. Times are RFC 3339 text.
#[derive(Debug)]
pub struct DnsProvider {
    pub id: String,
    pub provider_type: String,
    pub label: String,
    pub domain_suffixes: Vec<String>,
    pub secret_refs: Vec<String>,
    pub config_json: Option<String>,
    pub created_at: String,
    pub updated_at: String,
}

/// The value of a `DnsProvider`, each text as its characters.
pub struct DnsProviderView {
    pub id: Seq<char>,
    pub provider_type: Seq<char>,
    pub label: Seq<char>,
    pub domain_suffixes: Seq<Seq<char>>,
    pub secret_refs: Seq<Seq<char>>,
    pub config_json: Option<Seq<char>>,
    pub created_at: Seq<char>,
    pub updated_at: Seq<char>,
}

pub open spec fn text_views(v: Seq<String>) -> Seq<Seq<char>> {
    v.map_values(|s: String| s@)
}

pub open spec fn opt_text(o: Option<String>) -> Option<Seq<char>> {
    match o {
        Some(s) => Some(s@),
        None => None,
    }
}

impl View for DnsProvider {
    type V = DnsProviderView;

    open spec fn view(&self) -> DnsProviderView {
        DnsProviderView {
            id: self.id@,
            provider_type: self.provider_type@,
            label: self.label@,
            domain_suffixes: text_views(self.domain_suffixes@),
            secret_refs: text_views(self.secret_refs@),
            config_json: opt_text(self.config_json),
            created_at: self.created_at@,
            updated_at: self.updated_at@,
        }
    }
}

/// A copy of a list of strings.
pub fn copy_strings(v: &Vec<String>) -> (r: Vec<String>)
    ensures
        r@ == v@,
{
    let mut out: Vec<String> = Vec::new();
    let mut i: usize = 0;
    while i < v.len()
        invariant
            i <= v.len(),
            out@ == v@.take(i as int),
        decreases v.len() - i,
    {
        out.push(v[i].clone());
        i = i + 1;
        assert(out@ =~= v@.take(i as int));
    }
    assert(v@.take(v.len() as int) =~= v@);
    out
}

impl DnsProvider {
    /// A copy of the provider.
    pub fn copy(&self) -> (r: DnsProvider)
        ensures
            r@ == self@,
    {
        DnsProvider {
            id: self.id.clone(),
            provider_type: self.provider_type.clone(),
            label: self.label.clone(),
            domain_suffixes: copy_strings(&self.domain_suffixes),
            secret_refs: copy_strings(&self.secret_refs),
            config_json: match &self.config_json {
                Some(c) => Some(c.clone()),
                None => None,
            },
            created_at: self.created_at.clone(),
            updated_at: self.updated_at.clone(),
        }
    }
}

/// The provider chosen for a hostname, the suffix that chose it, and every
/// provider whose matching suffix is as long.
#[derive(Debug)]
pub struct DnsProviderResolution {
    pub provider: Option<DnsProvider>,
    pub matched_suffix: Option<String>,
    pub ambiguous: Vec<DnsProvider>,
}

// ---------------------------------------------------------------------------
// Suffix lists
// ---------------------------------------------------------------------------

/// The pieces of a suffix list: split on commas and whitespace.
pub open spec fn suffix_pieces(raw: Seq<char>) -> Seq<Seq<char>> {
    split_by(raw, list_sep_pred())
}

/// The non-empty storage forms of the first `k` pieces.
pub open spec fn normalized_suffixes(pieces: Seq<Seq<char>>, k: int) -> Set<Seq<char>> {
    Set::new(
        |x: Seq<char>|
            exists|i: int|
                0 <= i < k && #[trigger] suffix_storage_form(pieces[i]) == Some(x) && x.len() > 0,
    )
}

/// Every piece has a storage form.
pub open spec fn suffixes_valid(pieces: Seq<Seq<char>>, k: int) -> bool {
    forall|i: int| 0 <= i < k ==> (#[trigger] suffix_storage_form(pieces[i])) is Some
}

/// Storage form of one suffix.
pub fn normalize_suffix(raw: &str) -> (r: Result<String, DomainError>)
    ensures
        r is Ok <==> suffix_storage_form(raw@) is Some,
        r matches Ok(v) ==> v@ == suffix_storage_form(raw@)->0,
        r matches Err(e) ==> error_text(e) == domain_error_text(suffix_trim(raw@)),
{
    normalize_domain_suffix_for_storage(raw)
}

/// Storage form of a hostname.
pub fn normalize_hostname(hostname: &str) -> (r: Result<String, DomainError>)
    ensures
        r is Ok <==> storage_form(hostname@) is Some,
        r matches Ok(v) ==> v@ == storage_form(hostname@)->0,
        r matches Err(e) ==> error_text(e) == domain_error_text(hostname@),
{
    normalize_domain_for_storage(hostname)
}

/// Parses a list of domain suffixes separated by commas or whitespace into
/// their storage forms: empty entries dropped, sorted, without repeats. Fails
/// on the first entry that has no storage form.
pub fn parse_domain_suffixes(raw: &str) -> (r: Result<Vec<String>, DomainError>)
    ensures
        r is Ok <==> suffixes_valid(suffix_pieces(raw@), suffix_pieces(raw@).len() as int),
        r matches Ok(v) ==> strictly_sorted(text_views(v@)) && text_views(v@).to_set()
            == normalized_suffixes(suffix_pieces(raw@), suffix_pieces(raw@).len() as int),
        r matches Err(e) ==> exists|i: int|
            #![trigger suffix_pieces(raw@)[i]]
            0 <= i < suffix_pieces(raw@).len() && suffixes_valid(suffix_pieces(raw@), i)
                && suffix_storage_form(suffix_pieces(raw@)[i]) is None && error_text(e)
                == domain_error_text(suffix_trim(suffix_pieces(raw@)[i])),
{
    let ghost pieces = suffix_pieces(raw@);
    let chars = chars_of(raw);
    let parts = split(&chars, SplitRule::ListSeparators);
    let mut out: Vec<String> = Vec::new();
    let mut k: usize = 0;
    assert(text_views(out@).to_set() =~= normalized_suffixes(pieces, 0));
    while k < parts.len()
        invariant
            pieces == suffix_pieces(raw@),
            chars@ == raw@,
            parts@.len() == pieces.len(),
            forall|i: int| 0 <= i < parts@.len() ==> #[trigger] parts@[i]@ == pieces[i],
            k <= parts.len(),
            suffixes_valid(pieces, k as int),
            strictly_sorted(text_views(out@)),
            text_views(out@).to_set() == normalized_suffixes(pieces, k as int),
        decreases parts.len() - k,
    {
        let piece = string_of(&parts[k]);
        assert(piece@ == pieces[k as int]);
        match normalize_suffix(piece.as_str()) {
            Err(e) => {
                assert(suffix_pieces(raw@)[k as int] == pieces[k as int]);
                return Err(e);
            },
            Ok(n) => {
                let ghost before = text_views(out@).to_set();
                let ghost nv = n@;
                if !n.as_str().is_empty() {
                    insert_sorted(&mut out, n);
                    assert(normalized_suffixes(pieces, k as int + 1) =~= before.insert(nv)) by {
                        assert(suffix_storage_form(pieces[k as int]) == Some(nv));
                        assert forall|x: Seq<char>|
                            normalized_suffixes(pieces, k as int + 1).contains(x) implies before.insert(
                            nv,
                        ).contains(x) by {
                            let i = choose|i: int|
                                0 <= i < k + 1 && #[trigger] suffix_storage_form(pieces[i]) == Some(x)
                                    && x.len() > 0;
                            if i < k {
                                assert(normalized_suffixes(pieces, k as int).contains(x));
                            }
                        }
                        assert forall|x: Seq<char>|
                            before.insert(nv).contains(x) implies normalized_suffixes(
                            pieces,
                            k as int + 1,
                        ).contains(x) by {
                            if x != nv {
                                assert(normalized_suffixes(pieces, k as int).contains(x));
                                let i = choose|i: int|
                                    0 <= i < k && #[trigger] suffix_storage_form(pieces[i]) == Some(x)
                                        && x.len() > 0;
                                assert(0 <= i < k + 1);
                            }
                        }
                    }
                } else {
                    assert(n@.len() == 0);
                    assert(normalized_suffixes(pieces, k as int + 1) =~= before) by {
                        assert forall|x: Seq<char>|
                            normalized_suffixes(pieces, k as int + 1).contains(x) implies before.contains(x) by {
                            let i = choose|i: int|
                                0 <= i < k + 1 && #[trigger] suffix_storage_form(pieces[i]) == Some(x)
                                    && x.len() > 0;
                            if i == k {
                                assert(x == nv);
                            }
                        }
                        assert forall|x: Seq<char>|
                            before.contains(x) implies normalized_suffixes(pieces, k as int + 1).contains(x) by {
                            let i = choose|i: int|
                                0 <= i < k && #[trigger] suffix_storage_form(pieces[i]) == Some(x)
                                    && x.len() > 0;
                            assert(0 <= i < k + 1);
                        }
                    }
                }
            },
        }
        k = k + 1;
    }
    Ok(out)
}

// ---------------------------------------------------------------------------
// Matching a hostname to providers
// ---------------------------------------------------------------------------

/// `hostname` (in storage form) lies under `suffix`: the suffix has a
/// non-empty storage form that is the hostname or a dot-separated tail of it.
pub open spec fn spec_matches_suffix(hostname: Seq<char>, suffix: Seq<char>) -> bool {
    match suffix_storage_form(suffix) {
        Some(s) => s.len() > 0 && (hostname == s || ends_with(hostname, "."@ + s)),
        None => false,
    }
}

/// Whether a normalized hostname lies under a configured suffix.
pub fn matches_suffix(hostname: &str, suffix: &str) -> (r: bool)
    ensures
        r == spec_matches_suffix(hostname@, suffix@),
{
    let s = match normalize_suffix(suffix) {
        Ok(value) => value,
        Err(_) => {
            return false;
        },
    };
    if s.as_str().is_empty() {
        return false;
    }
    let h = chars_of(hostname);
    let sv = chars_of(s.as_str());
    if eq_chars(&h, &sv) {
        return true;
    }
    proof {
        reveal_strlit(".");
    }
    let dotted = concat(&chars_of("."), &sv);
    ends_with_chars(&h, &dotted)
}

/// The byte length of a text in UTF-8, which is what `str::len` counts.
pub open spec fn byte_len(s: Seq<char>) -> int {
    (vstd::utf8::encode_utf8(s).len() as usize) as int
}

/// The (provider, suffix) pairs of one provider whose suffix the hostname
/// lies under, in the provider's suffix order.
pub open spec fn suffix_matches(
    p: DnsProviderView,
    suffixes: Seq<Seq<char>>,
    hostname: Seq<char>,
) -> Seq<(DnsProviderView, Seq<char>)>
    decreases suffixes.len(),
{
    if suffixes.len() == 0 {
        Seq::empty()
    } else {
        let prev = suffix_matches(p, suffixes.drop_last(), hostname);
        if spec_matches_suffix(hostname, suffixes.last()) {
            prev.push((p, suffixes.last()))
        } else {
            prev
        }
    }
}

/// All matching (provider, suffix) pairs, providers in list order.
pub open spec fn all_matches(ps: Seq<DnsProviderView>, hostname: Seq<char>) -> Seq<
    (DnsProviderView, Seq<char>),
>
    decreases ps.len(),
{
    if ps.len() == 0 {
        Seq::empty()
    } else {
        all_matches(ps.drop_last(), hostname) + suffix_matches(
            ps.last(),
            ps.last().domain_suffixes,
            hostname,
        )
    }
}

/// The pairs of one provider are exactly its suffixes that the hostname lies
/// under.
pub proof fn lemma_suffix_matches_exact(p: DnsProviderView, suffixes: Seq<Seq<char>>, hostname: Seq<char>)
    ensures
        forall|j: int|
            0 <= j < suffixes.len() && spec_matches_suffix(hostname, #[trigger] suffixes[j]) ==> suffix_matches(
                p,
                suffixes,
                hostname,
            ).contains((p, suffixes[j])),
        forall|t: int|
            0 <= t < suffix_matches(p, suffixes, hostname).len() ==> {
                let m = #[trigger] suffix_matches(p, suffixes, hostname)[t];
                &&& m.0 == p
                &&& suffixes.contains(m.1)
                &&& spec_matches_suffix(hostname, m.1)
            },
    decreases suffixes.len(),
{
    if suffixes.len() > 0 {
        let rest = suffixes.drop_last();
        lemma_suffix_matches_exact(p, rest, hostname);
        let prev = suffix_matches(p, rest, hostname);
        let cur = suffix_matches(p, suffixes, hostname);
        assert forall|j: int|
            0 <= j < suffixes.len() && spec_matches_suffix(hostname, #[trigger] suffixes[j]) implies cur.contains(
            (p, suffixes[j]),
        ) by {
            if j < suffixes.len() - 1 {
                assert(rest[j] == suffixes[j]);
                let t = choose|t: int| 0 <= t < prev.len() && prev[t] == (p, rest[j]);
                assert(cur[t] == prev[t]);
            } else {
                assert(cur[cur.len() - 1] == (p, suffixes[j]));
            }
        }
        assert forall|t: int| 0 <= t < cur.len() implies {
            let m = #[trigger] cur[t];
            &&& m.0 == p
            &&& suffixes.contains(m.1)
            &&& spec_matches_suffix(hostname, m.1)
        } by {
            if t < prev.len() {
                assert(cur[t] == prev[t]);
                let j = choose|j: int| 0 <= j < rest.len() && rest[j] == prev[t].1;
                assert(suffixes[j] == rest[j]);
            } else {
                assert(cur[t] == (p, suffixes[suffixes.len() - 1]));
                assert(suffixes[suffixes.len() - 1] == cur[t].1);
            }
        }
    }
}

/// The matching pairs are exactly the (provider, suffix) pairs of the listed
/// providers whose suffix the hostname lies under: none is left out, whatever
/// the provider's place in the list, and none is made up.
pub proof fn lemma_all_matches_exact(ps: Seq<DnsProviderView>, hostname: Seq<char>)
    ensures
        forall|i: int, j: int|
            0 <= i < ps.len() && 0 <= j < ps[i].domain_suffixes.len() && spec_matches_suffix(
                hostname,
                #[trigger] ps[i].domain_suffixes[j],
            ) ==> all_matches(ps, hostname).contains((ps[i], ps[i].domain_suffixes[j])),
        forall|t: int|
            0 <= t < all_matches(ps, hostname).len() ==> {
                let m = #[trigger] all_matches(ps, hostname)[t];
                &&& ps.contains(m.0)
                &&& m.0.domain_suffixes.contains(m.1)
                &&& spec_matches_suffix(hostname, m.1)
            },
    decreases ps.len(),
{
    if ps.len() > 0 {
        let rest = ps.drop_last();
        let last = ps.last();
        lemma_all_matches_exact(rest, hostname);
        lemma_suffix_matches_exact(last, last.domain_suffixes, hostname);
        let prev = all_matches(rest, hostname);
        let tail = suffix_matches(last, last.domain_suffixes, hostname);
        let all = all_matches(ps, hostname);
        assert(all == prev + tail);
        assert forall|i: int, j: int|
            0 <= i < ps.len() && 0 <= j < ps[i].domain_suffixes.len() && spec_matches_suffix(
                hostname,
                #[trigger] ps[i].domain_suffixes[j],
            ) implies all.contains((ps[i], ps[i].domain_suffixes[j])) by {
            if i < ps.len() - 1 {
                assert(rest[i] == ps[i]);
                assert(spec_matches_suffix(hostname, rest[i].domain_suffixes[j]));
                let t = choose|t: int| 0 <= t < prev.len() && prev[t] == (rest[i], rest[i].domain_suffixes[j]);
                assert(all[t] == prev[t]);
            } else {
                assert(spec_matches_suffix(hostname, last.domain_suffixes[j]));
                let t = choose|t: int| 0 <= t < tail.len() && tail[t] == (last, last.domain_suffixes[j]);
                assert(all[prev.len() + t] == tail[t]);
            }
        }
        assert forall|t: int| 0 <= t < all.len() implies {
            let m = #[trigger] all[t];
            &&& ps.contains(m.0)
            &&& m.0.domain_suffixes.contains(m.1)
            &&& spec_matches_suffix(hostname, m.1)
        } by {
            if t < prev.len() {
                assert(all[t] == prev[t]);
                let i = choose|i: int| 0 <= i < rest.len() && rest[i] == prev[t].0;
                assert(ps[i] == rest[i]);
            } else {
                assert(all[t] == tail[t - prev.len()]);
                assert(ps[ps.len() - 1] == last);
            }
        }
    }
}

/// `c` is the pair that a sort by suffix length (longest first), then by
/// provider id, puts first; among equal keys the earliest pair stays first.
pub open spec fn is_first_choice(ms: Seq<(DnsProviderView, Seq<char>)>, c: int) -> bool {
    &&& 0 <= c < ms.len()
    &&& forall|j: int| 0 <= j < ms.len() ==> byte_len(#[trigger] ms[j].1) <= byte_len(ms[c].1)
    &&& forall|j: int|
        0 <= j < ms.len() && byte_len(#[trigger] ms[j].1) == byte_len(ms[c].1) ==> !seq_lt(
            ms[j].0.id,
            ms[c].0.id,
        )
    &&& forall|j: int|
        0 <= j < c && byte_len(#[trigger] ms[j].1) == byte_len(ms[c].1) ==> ms[j].0.id != ms[c].0.id
}

/// The providers of the pairs whose suffix has byte length `len`, in order.
pub open spec fn providers_with_len(ms: Seq<(DnsProviderView, Seq<char>)>, len: int) -> Seq<
    DnsProviderView,
>
    decreases ms.len(),
{
    if ms.len() == 0 {
        Seq::empty()
    } else {
        let prev = providers_with_len(ms.drop_last(), len);
        if byte_len(ms.last().1) == len {
            prev.push(ms.last().0)
        } else {
            prev
        }
    }
}

/// Sorted by provider id, ties allowed.
pub open spec fn sorted_by_id(v: Seq<DnsProviderView>) -> bool {
    forall|i: int, j: int| 0 <= i < j < v.len() ==> !seq_lt(#[trigger] v[j].id, #[trigger] v[i].id)
}

pub open spec fn provider_views(v: Seq<DnsProvider>) -> Seq<DnsProviderView> {
    v.map_values(|p: DnsProvider| p@)
}

/// What the resolution of a hostname holds, given the matching pairs.
pub open spec fn is_resolution(r: DnsProviderResolution, ms: Seq<(DnsProviderView, Seq<char>)>) -> bool {
    if ms.len() == 0 {
        &&& r.provider is None
        &&& r.matched_suffix is None
        &&& r.ambiguous@.len() == 0
    } else {
        exists|c: int|
            #![trigger ms[c]]
            {
                &&& is_first_choice(ms, c)
                &&& (r.provider matches Some(p) && p@ == ms[c].0)
                &&& (r.matched_suffix matches Some(s) && s@ == ms[c].1)
                &&& sorted_by_id(provider_views(r.ambiguous@))
                &&& provider_views(r.ambiguous@).to_multiset() == providers_with_len(
                    ms,
                    byte_len(ms[c].1),
                ).to_multiset()
            }
    }
}

/// A resolution names a provider exactly when some suffix of some listed
/// provider covers the hostname, and then it names a listed provider with
/// one of its own suffixes, one that covers the hostname.
pub proof fn lemma_resolution_finds_covering_provider(
    r: DnsProviderResolution,
    ps: Seq<DnsProviderView>,
    hostname: Seq<char>,
)
    requires
        is_resolution(r, all_matches(ps, hostname)),
    ensures
        r.provider is Some <==> exists|i: int, j: int|
            0 <= i < ps.len() && 0 <= j < ps[i].domain_suffixes.len() && spec_matches_suffix(
                hostname,
                #[trigger] ps[i].domain_suffixes[j],
            ),
        r.provider matches Some(p) ==> ps.contains(p@) && (r.matched_suffix matches Some(s) && p@.domain_suffixes.contains(
            s@,
        ) && spec_matches_suffix(hostname, s@)),
{
    let ms = all_matches(ps, hostname);
    lemma_all_matches_exact(ps, hostname);
    if exists|i: int, j: int|
        0 <= i < ps.len() && 0 <= j < ps[i].domain_suffixes.len() && spec_matches_suffix(
            hostname,
            #[trigger] ps[i].domain_suffixes[j],
        ) {
        let (i, j) = choose|i: int, j: int|
            0 <= i < ps.len() && 0 <= j < ps[i].domain_suffixes.len() && spec_matches_suffix(
                hostname,
                #[trigger] ps[i].domain_suffixes[j],
            );
        assert(ms.contains((ps[i], ps[i].domain_suffixes[j])));
    }
    if ms.len() > 0 {
        let c = choose|c: int|
            #![trigger ms[c]]
            {
                &&& is_first_choice(ms, c)
                &&& (r.provider matches Some(p) && p@ == ms[c].0)
                &&& (r.matched_suffix matches Some(s) && s@ == ms[c].1)
                &&& sorted_by_id(provider_views(r.ambiguous@))
                &&& provider_views(r.ambiguous@).to_multiset() == providers_with_len(
                    ms,
                    byte_len(ms[c].1),
                ).to_multiset()
            };
        let m = ms[c];
        assert(ps.contains(m.0) && m.0.domain_suffixes.contains(m.1) && spec_matches_suffix(hostname, m.1));
        let i = choose|i: int| 0 <= i < ps.len() && ps[i] == m.0;
        let j = choose|j: int| 0 <= j < m.0.domain_suffixes.len() && m.0.domain_suffixes[j] == m.1;
        assert(spec_matches_suffix(hostname, ps[i].domain_suffixes[j]));
    }
}


/// The pair named by a (provider index, suffix index) pair.
pub open spec fn pair_at(pv: Seq<DnsProviderView>, ij: (usize, usize)) -> (DnsProviderView, Seq<char>) {
    (pv[ij.0 as int], pv[ij.0 as int].domain_suffixes[ij.1 as int])
}

pub open spec fn indexes_name(pv: Seq<DnsProviderView>, idx: Seq<(usize, usize)>, ms: Seq<(DnsProviderView, Seq<char>)>) -> bool {
    &&& idx.len() == ms.len()
    &&& forall|t: int|
        0 <= t < idx.len() ==> {
            &&& (#[trigger] idx[t]).0 < pv.len()
            &&& idx[t].1 < pv[idx[t].0 as int].domain_suffixes.len()
            &&& pair_at(pv, idx[t]) == ms[t]
        }
}

/// The positions of the matching pairs, in the order of `all_matches`.
fn collect_matches(providers: &[DnsProvider], hostname: &str) -> (idx: Vec<(usize, usize)>)
    ensures
        indexes_name(provider_views(providers@), idx@, all_matches(provider_views(providers@), hostname@)),
{
    let ghost pv = provider_views(providers@);
    let mut idx: Vec<(usize, usize)> = Vec::new();
    let mut i: usize = 0;
    assert(pv.take(0) =~= Seq::<DnsProviderView>::empty());
    while i < providers.len()
        invariant
            pv == provider_views(providers@),
            i <= providers.len(),
            indexes_name(pv, idx@, all_matches(pv.take(i as int), hostname@)),
        decreases providers.len() - i,
    {
        let p = &providers[i];
        let ghost pvi = pv[i as int];
        assert(pvi == p@);
        let ghost base = all_matches(pv.take(i as int), hostname@);
        let mut j: usize = 0;
        assert(pvi.domain_suffixes.take(0) =~= Seq::<Seq<char>>::empty());
        assert(base + suffix_matches(pvi, pvi.domain_suffixes.take(0), hostname@) =~= base);
        while j < p.domain_suffixes.len()
            invariant
                pv == provider_views(providers@),
                i < providers.len(),
                p == &providers[i as int],
                pvi == pv[i as int],
                pvi == p@,
                j <= p.domain_suffixes.len(),
                base == all_matches(pv.take(i as int), hostname@),
                indexes_name(
                    pv,
                    idx@,
                    base + suffix_matches(pvi, pvi.domain_suffixes.take(j as int), hostname@),
                ),
            decreases p.domain_suffixes.len() - j,
        {
            let ghost sfx = pvi.domain_suffixes;
            assert(sfx.take(j as int + 1).drop_last() =~= sfx.take(j as int));
            assert(sfx.take(j as int + 1).last() == sfx[j as int]);
            assert(sfx[j as int] == p.domain_suffixes@[j as int]@);
            let ghost prev = base + suffix_matches(pvi, sfx.take(j as int), hostname@);
            if matches_suffix(hostname, p.domain_suffixes[j].as_str()) {
                idx.push((i, j));
                assert(base + suffix_matches(pvi, sfx.take(j as int + 1), hostname@) =~= prev.push(
                    (pvi, sfx[j as int]),
                ));
            } else {
                assert(base + suffix_matches(pvi, sfx.take(j as int + 1), hostname@) =~= prev);
            }
            j = j + 1;
        }
        assert(pvi.domain_suffixes.take(j as int) =~= pvi.domain_suffixes);
        assert(pv.take(i as int + 1).drop_last() =~= pv.take(i as int));
        assert(pv.take(i as int + 1).last() == pvi);
        i = i + 1;
    }
    assert(pv.take(providers.len() as int) =~= pv);
    idx
}


fn suffix_byte_len(providers: &[DnsProvider], ij: (usize, usize)) -> (n: usize)
    requires
        ij.0 < providers@.len(),
        ij.1 < providers@[ij.0 as int].domain_suffixes@.len(),
    ensures
        n == byte_len(pair_at(provider_views(providers@), ij).1),
{
    let s = providers[ij.0].domain_suffixes[ij.1].as_str();
    assert(provider_views(providers@)[ij.0 as int].domain_suffixes[ij.1 as int] == s@);
    s.len()
}

fn id_lt(providers: &[DnsProvider], a: usize, b: usize) -> (r: bool)
    requires
        a < providers@.len(),
        b < providers@.len(),
    ensures
        r == seq_lt(providers@[a as int].id@, providers@[b as int].id@),
{
    let x = chars_of(providers[a].id.as_str());
    let y = chars_of(providers[b].id.as_str());
    lt_chars(&x, &y)
}

/// The position of the pair that the resolution chooses.
fn first_choice(providers: &[DnsProvider], idx: &Vec<(usize, usize)>, Ghost(ms): Ghost<
    Seq<(DnsProviderView, Seq<char>)>,
>) -> (c: usize)
    requires
        idx@.len() > 0,
        indexes_name(provider_views(providers@), idx@, ms),
    ensures
        is_first_choice(ms, c as int),
{
    let ghost pv = provider_views(providers@);
    let mut c: usize = 0;
    let mut c_len = suffix_byte_len(providers, idx[0]);
    assert(pair_at(pv, idx@[0]) == ms[0]);
    proof {
        lemma_seq_lt_irreflexive(ms[0].0.id);
    }
    let mut t: usize = 1;
    while t < idx.len()
        invariant
            pv == provider_views(providers@),
            indexes_name(pv, idx@, ms),
            0 <= c < t <= idx@.len(),
            c_len == byte_len(ms[c as int].1),
            forall|j: int| 0 <= j < t ==> byte_len(#[trigger] ms[j].1) <= byte_len(ms[c as int].1),
            forall|j: int|
                0 <= j < t && byte_len(#[trigger] ms[j].1) == byte_len(ms[c as int].1) ==> !seq_lt(
                    ms[j].0.id,
                    ms[c as int].0.id,
                ),
            forall|j: int|
                0 <= j < c && byte_len(#[trigger] ms[j].1) == byte_len(ms[c as int].1) ==> ms[j].0.id
                    != ms[c as int].0.id,
        decreases idx@.len() - t,
    {
        let t_len = suffix_byte_len(providers, idx[t]);
        assert(pv[idx@[t as int].0 as int].id == providers@[idx@[t as int].0 as int].id@);
        assert(pv[idx@[c as int].0 as int].id == providers@[idx@[c as int].0 as int].id@);
        let better = if t_len > c_len {
            true
        } else if t_len == c_len {
            id_lt(providers, idx[t].0, idx[c].0)
        } else {
            false
        };
        if better {
            proof {
                let old_c = c as int;
                assert forall|j: int|
                    0 <= j < t + 1 && byte_len(#[trigger] ms[j].1) == byte_len(ms[t as int].1) implies !seq_lt(
                    ms[j].0.id,
                    ms[t as int].0.id,
                ) && (j < t ==> ms[j].0.id != ms[t as int].0.id) by {
                    if j < t {
                        if seq_lt(ms[j].0.id, ms[t as int].0.id) {
                            lemma_seq_lt_transitive(ms[j].0.id, ms[t as int].0.id, ms[old_c].0.id);
                        }
                    } else {
                        lemma_seq_lt_irreflexive(ms[j].0.id);
                    }
                }
            }
            c = t;
            c_len = t_len;
        } else {
            proof {
                if t_len == c_len {
                    assert(!seq_lt(ms[t as int].0.id, ms[c as int].0.id));
                }
            }
        }
        t = t + 1;
    }
    c
}


/// Inserts a provider after every provider whose id is not greater.
fn insert_by_id(amb: &mut Vec<DnsProvider>, p: DnsProvider)
    requires
        sorted_by_id(provider_views(old(amb)@)),
    ensures
        sorted_by_id(provider_views(final(amb)@)),
        provider_views(final(amb)@).to_multiset() == provider_views(old(amb)@).to_multiset().insert(
            p@,
        ),
{
    let ghost a = provider_views(amb@);
    let pid = chars_of(p.id.as_str());
    let mut pos: usize = 0;
    let mut searching = true;
    while searching && pos < amb.len()
        invariant
            a == provider_views(amb@),
            sorted_by_id(a),
            pos <= amb.len(),
            pid@ == p@.id,
            forall|k: int| 0 <= k < pos ==> !seq_lt(p@.id, #[trigger] a[k].id),
            !searching ==> pos < amb.len() && seq_lt(p@.id, a[pos as int].id),
        decreases amb.len() - pos + (if searching { 1int } else { 0int }),
    {
        let qid = chars_of(amb[pos].id.as_str());
        assert(qid@ == a[pos as int].id);
        if lt_chars(&pid, &qid) {
            searching = false;
        } else {
            pos = pos + 1;
        }
    }
    proof {
        assert forall|k: int| pos <= k < a.len() implies seq_lt(p@.id, #[trigger] a[k].id) by {
            if k > pos {
                assert(!seq_lt(a[k].id, a[pos as int].id));
                lemma_seq_lt_total(a[k].id, a[pos as int].id);
                if a[k].id != a[pos as int].id {
                    lemma_seq_lt_transitive(p@.id, a[pos as int].id, a[k].id);
                }
            }
        }
    }
    let ghost pv = p@;
    amb.insert(pos, p);
    proof {
        let w = provider_views(amb@);
        assert(w =~= a.insert(pos as int, pv));
        vstd::seq_lib::to_multiset_insert(a, pos as int, pv);
        assert forall|i: int, j: int| 0 <= i < j < w.len() implies !seq_lt(
            #[trigger] w[j].id,
            #[trigger] w[i].id,
        ) by {
            if j < pos {
                assert(w[i] == a[i] && w[j] == a[j]);
            } else if j == pos {
                assert(w[i] == a[i]);
            } else if i < pos {
                assert(w[i] == a[i] && w[j] == a[j - 1]);
            } else if i == pos {
                assert(w[j] == a[j - 1]);
                assert(seq_lt(pv.id, a[j - 1].id));
                crate::text::lemma_seq_lt_asymmetric(pv.id, a[j - 1].id);
            } else {
                assert(w[i] == a[i - 1] && w[j] == a[j - 1]);
            }
        }
    }
}

/// The providers of the matching pairs whose suffix is `best` bytes long,
/// sorted by id.
fn providers_of_len(
    providers: &[DnsProvider],
    idx: &Vec<(usize, usize)>,
    best: usize,
    Ghost(ms): Ghost<Seq<(DnsProviderView, Seq<char>)>>,
) -> (amb: Vec<DnsProvider>)
    requires
        indexes_name(provider_views(providers@), idx@, ms),
    ensures
        sorted_by_id(provider_views(amb@)),
        provider_views(amb@).to_multiset() == providers_with_len(ms, best as int).to_multiset(),
{
    let ghost pv = provider_views(providers@);
    let mut amb: Vec<DnsProvider> = Vec::new();
    let mut t: usize = 0;
    assert(ms.take(0) =~= Seq::<(DnsProviderView, Seq<char>)>::empty());
    assert(provider_views(amb@) =~= Seq::<DnsProviderView>::empty());
    while t < idx.len()
        invariant
            pv == provider_views(providers@),
            indexes_name(pv, idx@, ms),
            t <= idx@.len(),
            sorted_by_id(provider_views(amb@)),
            provider_views(amb@).to_multiset() == providers_with_len(
                ms.take(t as int),
                best as int,
            ).to_multiset(),
        decreases idx@.len() - t,
    {
        let ghost before = providers_with_len(ms.take(t as int), best as int);
        assert(ms.take(t as int + 1).drop_last() =~= ms.take(t as int));
        assert(ms.take(t as int + 1).last() == ms[t as int]);
        assert(pair_at(pv, idx@[t as int]) == ms[t as int]);
        let (pi, _) = idx[t];
        if suffix_byte_len(providers, idx[t]) == best {
            let q = providers[pi].copy();
            assert(q@ == ms[t as int].0);
            insert_by_id(&mut amb, q);
            proof {
                vstd::seq_lib::to_multiset_build(before, ms[t as int].0);
            }
        }
        t = t + 1;
    }
    assert(ms.take(idx@.len() as int) =~= ms);
    amb
}

/// Chooses the provider for a hostname among the configured ones: the one
/// whose matching suffix is longest, ties broken by the smaller id; all
/// providers whose matching suffix is that long are listed, by id. Fails
/// when the hostname has no storage form.
pub fn resolve_provider_for_domain(providers: &[DnsProvider], hostname: &str) -> (r: Result<
    DnsProviderResolution,
    DomainError,
>)
    ensures
        r is Ok <==> storage_form(hostname@) is Some,
        r matches Ok(res) ==> is_resolution(
            res,
            all_matches(provider_views(providers@), storage_form(hostname@)->0),
        ),
{
    let normalized = match normalize_hostname(hostname) {
        Ok(v) => v,
        Err(e) => {
            return Err(e);
        },
    };
    let ghost pv = provider_views(providers@);
    let ghost ms = all_matches(pv, normalized@);
    let idx = collect_matches(providers, normalized.as_str());
    if idx.len() == 0 {
        return Ok(DnsProviderResolution { provider: None, matched_suffix: None, ambiguous: Vec::new() });
    }
    let c = first_choice(providers, &idx, Ghost(ms));
    let best = suffix_byte_len(providers, idx[c]);
    let amb = providers_of_len(providers, &idx, best, Ghost(ms));
    let (pi, si) = idx[c];
    assert(pair_at(pv, idx@[c as int]) == ms[c as int]);
    let chosen = providers[pi].copy();
    let suffix = providers[pi].domain_suffixes[si].clone();
    assert(suffix@ == ms[c as int].1);
    let res = DnsProviderResolution { provider: Some(chosen), matched_suffix: Some(suffix), ambiguous: amb };
    assert(is_resolution(res, ms)) by {
        assert(is_first_choice(ms, c as int));
    }
    Ok(res)
}

} // verus!
