//! Moving the zone mappings of older versions into DNS providers: mappings
//! are grouped by adapter and secret, each group becoming one provider.
use vstd::prelude::*;

use crate::commands::opt_string;
use crate::dns_config::{normalize_suffix, text_views};
use crate::domain::suffix_storage_form;
use crate::text::{
    cat, cat3, chars_of, decimal, insert_sorted, spec_decimal, str_eq, string_of, strictly_sorted,
    trim_ws, trim_ws_chars,
};

verus! {

/// An instant: seconds and nanoseconds since the Unix epoch.
pub type Instant = (i64, u32);

/// What `chrono::DateTime::parse_from_rfc3339` reads from a text, as an
/// instant: `None` where it reports an error.
pub uninterp spec fn rfc3339_instant(raw: Seq<char>) -> Option<(i64, u32)>;

/// What `chrono::DateTime::<Utc>::to_rfc3339` writes for an instant.
pub uninterp spec fn rfc3339_text(t: (i64, u32)) -> Seq<char>;

/// Calls `chrono::DateTime::parse_from_rfc3339` and keeps the instant.
#[verifier::external_body]
fn parse_instant(raw: &str) -> (r: Option<(i64, u32)>)
    ensures
        r == rfc3339_instant(raw@),
{
    chrono::DateTime::parse_from_rfc3339(raw).ok().map(|dt| (dt.timestamp(), dt.timestamp_subsec_nanos()))
}

/// Calls `chrono::DateTime::<Utc>::from_timestamp` and then `to_rfc3339` on
/// an instant. Chrono documents `None` only for out-of-range seconds or an
/// invalid nanosecond; its dates reach years ±262143, so seconds within
/// ±8 * 10^12 with nanoseconds under 10^9 always give a text.
#[verifier::external_body]
pub fn instant_to_rfc3339(t: (i64, u32)) -> (r: Option<String>)
    ensures
        r matches Some(s) ==> s@ == rfc3339_text(t),
        -8_000_000_000_000 <= t.0 <= 8_000_000_000_000 && t.1 < 1_000_000_000 ==> r is Some,
{
    chrono::DateTime::<chrono::Utc>::from_timestamp(t.0, t.1).map(|dt| dt.to_rfc3339())
}

pub open spec fn before(a: (i64, u32), b: (i64, u32)) -> bool {
    a.0 < b.0 || (a.0 == b.0 && a.1 < b.1)
}

pub open spec fn earlier(a: (i64, u32), b: (i64, u32)) -> (i64, u32) {
    if before(b, a) {
        b
    } else {
        a
    }
}

pub open spec fn later(a: (i64, u32), b: (i64, u32)) -> (i64, u32) {
    if before(a, b) {
        b
    } else {
        a
    }
}

/// A zone mapping of an older version.
#[derive(Debug, Clone)]
pub struct LegacyMapping {
    pub hostname_pattern: String,
    pub zone: Option<String>,
    pub adapter_id: String,
    pub secret_ref: Option<String>,
    pub created_at: String,
    pub updated_at: String,
}

/// A mapping takes part unless its pattern is "*" or has no suffix form.
pub open spec fn row_valid(r: LegacyMapping) -> bool {
    trim_ws(r.hostname_pattern@) != "*"@ && suffix_storage_form(r.hostname_pattern@) is Some
}

/// Mappings are grouped by adapter and secret reference.
pub open spec fn row_key(r: LegacyMapping) -> (Seq<char>, Option<Seq<char>>) {
    (r.adapter_id@, opt_string(r.secret_ref))
}

pub open spec fn has_key(rows: Seq<LegacyMapping>, k: int, key: (Seq<char>, Option<Seq<char>>)) -> bool {
    exists|i: int| 0 <= i < k && row_valid(#[trigger] rows[i]) && row_key(rows[i]) == key
}

/// The suffixes of the group with `key` among the first `k` mappings.
pub open spec fn group_suffixes(rows: Seq<LegacyMapping>, k: int, key: (Seq<char>, Option<Seq<char>>)) -> Set<
    Seq<char>,
> {
    Set::new(
        |x: Seq<char>|
            exists|i: int|
                0 <= i < k && row_valid(#[trigger] rows[i]) && row_key(rows[i]) == key
                    && suffix_storage_form(rows[i].hostname_pattern@) == Some(x),
    )
}

/// The first zone given by a mapping of the group.
pub open spec fn group_zone(rows: Seq<LegacyMapping>, k: int, key: (Seq<char>, Option<Seq<char>>)) -> Option<
    Seq<char>,
>
    decreases k,
{
    if k <= 0 {
        None
    } else {
        let prev = group_zone(rows, k - 1, key);
        if prev is Some {
            prev
        } else if row_valid(rows[k - 1]) && row_key(rows[k - 1]) == key {
            opt_string(rows[k - 1].zone)
        } else {
            None
        }
    }
}

/// A mapping's time: the parsed text, else `now`.
pub open spec fn time_or(raw: Seq<char>, now: (i64, u32)) -> (i64, u32) {
    match rfc3339_instant(raw) {
        Some(t) => t,
        None => now,
    }
}

/// The earliest creation time of the group, starting from `now`.
pub open spec fn group_created(
    rows: Seq<LegacyMapping>,
    k: int,
    key: (Seq<char>, Option<Seq<char>>),
    now: (i64, u32),
) -> (i64, u32)
    decreases k,
{
    if k <= 0 {
        now
    } else {
        let prev = group_created(rows, k - 1, key, now);
        if row_valid(rows[k - 1]) && row_key(rows[k - 1]) == key {
            earlier(prev, time_or(rows[k - 1].created_at@, now))
        } else {
            prev
        }
    }
}

/// The latest update time of the group, starting from `now`.
pub open spec fn group_updated(
    rows: Seq<LegacyMapping>,
    k: int,
    key: (Seq<char>, Option<Seq<char>>),
    now: (i64, u32),
) -> (i64, u32)
    decreases k,
{
    if k <= 0 {
        now
    } else {
        let prev = group_updated(rows, k - 1, key, now);
        if row_valid(rows[k - 1]) && row_key(rows[k - 1]) == key {
            later(prev, time_or(rows[k - 1].updated_at@, now))
        } else {
            prev
        }
    }
}

/// The mappings of one adapter and secret.
#[derive(Debug)]
pub struct LegacyGroup {
    pub adapter_id: String,
    pub secret_ref: Option<String>,
    pub domain_suffixes: Vec<String>,
    pub zone_override: Option<String>,
    pub created_at: (i64, u32),
    pub updated_at: (i64, u32),
}

pub open spec fn group_key(g: LegacyGroup) -> (Seq<char>, Option<Seq<char>>) {
    (g.adapter_id@, opt_string(g.secret_ref))
}

/// `g` is the group of its key among the first `k` mappings.
pub open spec fn is_group(g: LegacyGroup, rows: Seq<LegacyMapping>, k: int, now: (i64, u32)) -> bool {
    let key = group_key(g);
    &&& has_key(rows, k, key)
    &&& strictly_sorted(text_views(g.domain_suffixes@))
    &&& text_views(g.domain_suffixes@).to_set() == group_suffixes(rows, k, key)
    &&& opt_string(g.zone_override) == group_zone(rows, k, key)
    &&& g.created_at == group_created(rows, k, key, now)
    &&& g.updated_at == group_updated(rows, k, key, now)
}

/// The groups of the first `k` mappings: one per key, each with its values.
pub open spec fn are_groups(gs: Seq<LegacyGroup>, rows: Seq<LegacyMapping>, k: int, now: (i64, u32)) -> bool {
    &&& forall|j: int| 0 <= j < gs.len() ==> is_group(#[trigger] gs[j], rows, k, now)
    &&& forall|a: int, b: int|
        0 <= a < b < gs.len() ==> group_key(#[trigger] gs[a]) != group_key(#[trigger] gs[b])
    &&& forall|i: int|
        0 <= i < k && row_valid(#[trigger] rows[i]) ==> exists|j: int|
            0 <= j < gs.len() && group_key(#[trigger] gs[j]) == row_key(rows[i])
}

proof fn lemma_other_key_unchanged(
    rows: Seq<LegacyMapping>,
    k: int,
    key: (Seq<char>, Option<Seq<char>>),
    now: (i64, u32),
)
    requires
        0 <= k < rows.len(),
        !(row_valid(rows[k]) && row_key(rows[k]) == key),
    ensures
        has_key(rows, k + 1, key) == has_key(rows, k, key),
        group_suffixes(rows, k + 1, key) == group_suffixes(rows, k, key),
        group_zone(rows, k + 1, key) == group_zone(rows, k, key),
        group_created(rows, k + 1, key, now) == group_created(rows, k, key, now),
        group_updated(rows, k + 1, key, now) == group_updated(rows, k, key, now),
{
    assert(group_suffixes(rows, k + 1, key) =~= group_suffixes(rows, k, key)) by {
        assert forall|x: Seq<char>| group_suffixes(rows, k + 1, key).contains(x) implies group_suffixes(
            rows,
            k,
            key,
        ).contains(x) by {
            let i = choose|i: int|
                0 <= i < k + 1 && row_valid(#[trigger] rows[i]) && row_key(rows[i]) == key
                    && suffix_storage_form(rows[i].hostname_pattern@) == Some(x);
            assert(i != k);
        }
        assert forall|x: Seq<char>| group_suffixes(rows, k, key).contains(x) implies group_suffixes(
            rows,
            k + 1,
            key,
        ).contains(x) by {
            let i = choose|i: int|
                0 <= i < k && row_valid(#[trigger] rows[i]) && row_key(rows[i]) == key
                    && suffix_storage_form(rows[i].hostname_pattern@) == Some(x);
            assert(0 <= i < k + 1);
        }
    }
    if has_key(rows, k + 1, key) {
        let i = choose|i: int| 0 <= i < k + 1 && row_valid(#[trigger] rows[i]) && row_key(rows[i]) == key;
        assert(i != k);
    }
    if has_key(rows, k, key) {
        let i = choose|i: int| 0 <= i < k && row_valid(#[trigger] rows[i]) && row_key(rows[i]) == key;
        assert(0 <= i < k + 1);
    }
}

proof fn lemma_fresh_key(rows: Seq<LegacyMapping>, k: int, key: (Seq<char>, Option<Seq<char>>), now: (i64, u32))
    requires
        0 <= k <= rows.len(),
        !has_key(rows, k, key),
    ensures
        group_suffixes(rows, k, key) == Set::<Seq<char>>::empty(),
        group_zone(rows, k, key) is None,
        group_created(rows, k, key, now) == now,
        group_updated(rows, k, key, now) == now,
    decreases k,
{
    assert(group_suffixes(rows, k, key) =~= Set::<Seq<char>>::empty()) by {
        assert forall|x: Seq<char>| !group_suffixes(rows, k, key).contains(x) by {
            if group_suffixes(rows, k, key).contains(x) {
                let i = choose|i: int|
                    0 <= i < k && row_valid(#[trigger] rows[i]) && row_key(rows[i]) == key
                        && suffix_storage_form(rows[i].hostname_pattern@) == Some(x);
                assert(has_key(rows, k, key));
            }
        }
    }
    if k > 0 {
        assert(!has_key(rows, k - 1, key)) by {
            if has_key(rows, k - 1, key) {
                let i = choose|i: int| 0 <= i < k - 1 && row_valid(#[trigger] rows[i]) && row_key(rows[i]) == key;
                assert(0 <= i < k);
            }
        }
        if row_valid(rows[k - 1]) && row_key(rows[k - 1]) == key {
            assert(has_key(rows, k, key));
        }
        lemma_fresh_key(rows, k - 1, key, now);
    }
}

fn same_key(g: &LegacyGroup, r: &LegacyMapping) -> (b: bool)
    ensures
        b == (group_key(*g) == row_key(*r)),
{
    if !str_eq(g.adapter_id.as_str(), r.adapter_id.as_str()) {
        return false;
    }
    match (&g.secret_ref, &r.secret_ref) {
        (None, None) => true,
        (Some(a), Some(b)) => str_eq(a.as_str(), b.as_str()),
        _ => false,
    }
}

fn find_group(gs: &Vec<LegacyGroup>, r: &LegacyMapping) -> (found: Option<usize>)
    ensures
        found matches Some(j) ==> j < gs@.len() && group_key(gs@[j as int]) == row_key(*r),
        found is None ==> forall|t: int| 0 <= t < gs@.len() ==> group_key(#[trigger] gs@[t]) != row_key(*r),
{
    let mut j: usize = 0;
    while j < gs.len()
        invariant
            j <= gs@.len(),
            forall|t: int| 0 <= t < j ==> group_key(#[trigger] gs@[t]) != row_key(*r),
        decreases gs@.len() - j,
    {
        if same_key(&gs[j], r) {
            return Some(j);
        }
        j = j + 1;
    }
    None
}

fn earlier_of(a: (i64, u32), b: (i64, u32)) -> (r: (i64, u32))
    ensures
        r == earlier(a, b),
{
    if b.0 < a.0 || (b.0 == a.0 && b.1 < a.1) {
        b
    } else {
        a
    }
}

fn later_of(a: (i64, u32), b: (i64, u32)) -> (r: (i64, u32))
    ensures
        r == later(a, b),
{
    if a.0 < b.0 || (a.0 == b.0 && a.1 < b.1) {
        b
    } else {
        a
    }
}

fn copy_opt(o: &Option<String>) -> (r: Option<String>)
    ensures
        r == *o,
{
    match o {
        Some(s) => Some(s.clone()),
        None => None,
    }
}

/// Groups the mappings by adapter and secret reference, one group per key
/// (in no promised order); mappings whose pattern is "*" or has no suffix
/// form are skipped. Each group holds its suffixes (sorted, without
/// repeats), the first zone one of its mappings names, its earliest creation
/// and latest update time (a time that does not parse counts as `now`, and
/// `now` is where both start).
pub fn group_legacy_mappings(rows: &Vec<LegacyMapping>, now: (i64, u32)) -> (gs: Vec<LegacyGroup>)
    ensures
        are_groups(gs@, rows@, rows@.len() as int, now),
{
    let mut gs: Vec<LegacyGroup> = Vec::new();
    let mut k: usize = 0;
    while k < rows.len()
        invariant
            k <= rows@.len(),
            are_groups(gs@, rows@, k as int, now),
        decreases rows@.len() - k,
    {
        let r = &rows[k];
        let trimmed = trim_ws_chars(&chars_of(r.hostname_pattern.as_str()));
        let is_star = trimmed.len() == 1 && trimmed[0] == '*';
        proof {
            reveal_strlit("*");
            assert(is_star == (trim_ws(r.hostname_pattern@) == "*"@)) by {
                if trim_ws(r.hostname_pattern@) == "*"@ {
                    assert(trimmed@.len() == 1);
                }
                if is_star {
                    assert(trimmed@ =~= "*"@);
                }
            }
        }
        let suffix = if is_star {
            None
        } else {
            match normalize_suffix(r.hostname_pattern.as_str()) {
                Ok(s) => Some(s),
                Err(_) => None,
            }
        };
        let ghost old_gs = gs@;
        match suffix {
            None => {
                proof {
                    assert(!row_valid(rows@[k as int]));
                    assert forall|j: int| 0 <= j < gs@.len() implies is_group(#[trigger] gs@[j], rows@, k as int + 1, now) by {
                        lemma_other_key_unchanged(rows@, k as int, group_key(gs@[j]), now);
                    }
                    assert forall|i: int| 0 <= i < k + 1 && row_valid(#[trigger] rows@[i]) implies exists|j: int|
                        0 <= j < gs@.len() && group_key(#[trigger] gs@[j]) == row_key(rows@[i]) by {
                        assert(i != k);
                    }
                }
            },
            Some(s) => {
                let ghost sv = s@;
                assert(row_valid(rows@[k as int]));
                let ghost key = row_key(rows@[k as int]);
                let found = find_group(&gs, r);
                let created = match parse_instant(r.created_at.as_str()) {
                    Some(t) => t,
                    None => now,
                };
                let updated = match parse_instant(r.updated_at.as_str()) {
                    Some(t) => t,
                    None => now,
                };
                assert(*r == rows@[k as int]);
                match found {
                    Some(fj) => {
                        assert(group_key(gs@[fj as int]) == key);
                        let mut g = gs.remove(fj);
                        let ghost g0 = g;
                        proof {
                            assert(g0 == old_gs[fj as int]);
                            assert(is_group(g0, rows@, k as int, now));
                        }
                        insert_sorted(&mut g.domain_suffixes, s);
                        if g.zone_override.is_none() {
                            g.zone_override = copy_opt(&r.zone);
                        }
                        g.created_at = earlier_of(g.created_at, created);
                        g.updated_at = later_of(g.updated_at, updated);
                        proof {
                            assert(group_key(g) == key);
                            assert(has_key(rows@, k as int + 1, key)) by {
                                assert(row_valid(rows@[k as int]) && row_key(rows@[k as int]) == key);
                            }
                            assert(group_suffixes(rows@, k as int + 1, key) =~= group_suffixes(rows@, k as int, key).insert(sv)) by {
                                assert forall|x: Seq<char>| group_suffixes(rows@, k as int + 1, key).contains(x) implies group_suffixes(rows@, k as int, key).insert(sv).contains(x) by {
                                    let i = choose|i: int|
                                        0 <= i < k + 1 && row_valid(#[trigger] rows@[i]) && row_key(rows@[i]) == key
                                            && suffix_storage_form(rows@[i].hostname_pattern@) == Some(x);
                                    if i < k {
                                        assert(group_suffixes(rows@, k as int, key).contains(x));
                                    }
                                }
                                assert forall|x: Seq<char>| group_suffixes(rows@, k as int, key).insert(sv).contains(x) implies group_suffixes(rows@, k as int + 1, key).contains(x) by {
                                    if x != sv {
                                        let i = choose|i: int|
                                            0 <= i < k && row_valid(#[trigger] rows@[i]) && row_key(rows@[i]) == key
                                                && suffix_storage_form(rows@[i].hostname_pattern@) == Some(x);
                                        assert(0 <= i < k + 1);
                                    }
                                }
                            }
                        }
                        gs.insert(fj, g);
                        proof {
                            assert forall|t: int| 0 <= t < gs@.len() implies is_group(#[trigger] gs@[t], rows@, k as int + 1, now) by {
                                if t != fj {
                                    assert(gs@[t] == old_gs[t]);
                                    assert(group_key(old_gs[t]) != group_key(old_gs[fj as int]));
                                    lemma_other_key_unchanged(rows@, k as int, group_key(gs@[t]), now);
                                }
                            }
                            assert forall|a: int, b: int| 0 <= a < b < gs@.len() implies group_key(#[trigger] gs@[a]) != group_key(#[trigger] gs@[b]) by {
                                assert(gs@[a] == if a == fj { gs@[a] } else { old_gs[a] });
                                if a == fj {
                                    assert(group_key(old_gs[a]) != group_key(old_gs[b]));
                                } else if b == fj {
                                    assert(group_key(old_gs[a]) != group_key(old_gs[b]));
                                } else {
                                    assert(gs@[b] == old_gs[b]);
                                }
                            }
                            assert forall|i: int| 0 <= i < k + 1 && row_valid(#[trigger] rows@[i]) implies exists|t: int|
                                0 <= t < gs@.len() && group_key(#[trigger] gs@[t]) == row_key(rows@[i]) by {
                                if i == k {
                                    assert(group_key(gs@[fj as int]) == row_key(rows@[i]));
                                } else {
                                    let t = choose|t: int| 0 <= t < old_gs.len() && group_key(#[trigger] old_gs[t]) == row_key(rows@[i]);
                                    if t == fj {
                                        assert(group_key(gs@[fj as int]) == row_key(rows@[i]));
                                    } else {
                                        assert(gs@[t] == old_gs[t]);
                                    }
                                }
                            }
                        }
                    },
                    None => {
                        proof {
                            assert(!has_key(rows@, k as int, key)) by {
                                if has_key(rows@, k as int, key) {
                                    let i = choose|i: int| 0 <= i < k && row_valid(#[trigger] rows@[i]) && row_key(rows@[i]) == key;
                                    let t = choose|t: int| 0 <= t < old_gs.len() && group_key(#[trigger] old_gs[t]) == row_key(rows@[i]);
                                    assert(group_key(old_gs[t]) != row_key(*r));
                                }
                            }
                            lemma_fresh_key(rows@, k as int, key, now);
                        }
                        let mut suffixes: Vec<String> = Vec::new();
                        insert_sorted(&mut suffixes, s);
                        let g = LegacyGroup {
                            adapter_id: r.adapter_id.clone(),
                            secret_ref: copy_opt(&r.secret_ref),
                            domain_suffixes: suffixes,
                            zone_override: copy_opt(&r.zone),
                            created_at: earlier_of(now, created),
                            updated_at: later_of(now, updated),
                        };
                        proof {
                            assert(group_key(g) == key);
                            assert(has_key(rows@, k as int + 1, key)) by {
                                assert(row_valid(rows@[k as int]) && row_key(rows@[k as int]) == key);
                            }
                            assert(text_views(Seq::<String>::empty()).to_set() =~= Set::<Seq<char>>::empty());
                            assert(group_suffixes(rows@, k as int + 1, key) =~= Set::<Seq<char>>::empty().insert(sv)) by {
                                assert forall|x: Seq<char>| #[trigger] group_suffixes(rows@, k as int + 1, key).contains(x) implies x == sv by {
                                    let i = choose|i: int|
                                        0 <= i < k + 1 && row_valid(#[trigger] rows@[i]) && row_key(rows@[i]) == key
                                            && suffix_storage_form(rows@[i].hostname_pattern@) == Some(x);
                                    if i < k {
                                        assert(group_suffixes(rows@, k as int, key).contains(x));
                                    }
                                }
                                assert(group_suffixes(rows@, k as int + 1, key).contains(sv));
                            }
                        }
                        gs.push(g);
                        proof {
                            assert forall|t: int| 0 <= t < gs@.len() implies is_group(#[trigger] gs@[t], rows@, k as int + 1, now) by {
                                if t < old_gs.len() {
                                    assert(gs@[t] == old_gs[t]);
                                    assert(group_key(old_gs[t]) != key);
                                    lemma_other_key_unchanged(rows@, k as int, group_key(gs@[t]), now);
                                }
                            }
                            assert forall|a: int, b: int| 0 <= a < b < gs@.len() implies group_key(#[trigger] gs@[a]) != group_key(#[trigger] gs@[b]) by {
                                assert(gs@[a] == old_gs[a]);
                                if b < old_gs.len() {
                                    assert(gs@[b] == old_gs[b]);
                                }
                            }
                            assert forall|i: int| 0 <= i < k + 1 && row_valid(#[trigger] rows@[i]) implies exists|t: int|
                                0 <= t < gs@.len() && group_key(#[trigger] gs@[t]) == row_key(rows@[i]) by {
                                if i == k {
                                    assert(group_key(gs@[old_gs.len() as int]) == row_key(rows@[i]));
                                } else {
                                    let t = choose|t: int| 0 <= t < old_gs.len() && group_key(#[trigger] old_gs[t]) == row_key(rows@[i]);
                                    assert(gs@[t] == old_gs[t]);
                                }
                            }
                        }
                    },
                }
            },
        }
        k = k + 1;
    }
    gs
}

/// The label of the provider made from the group at `index`.
pub open spec fn spec_migrated_label(adapter_id: Seq<char>, index: nat) -> Seq<char> {
    if index == 0 {
        "Migrated "@ + adapter_id
    } else {
        "Migrated "@ + adapter_id + " ("@ + spec_decimal(index + 1) + ")"@
    }
}

/// The label of the provider made from the group at `index`: the first is
/// "Migrated <adapter>", later ones carry their position from 1.
pub fn migrated_label(adapter_id: &str, index: u64) -> (r: String)
    requires
        index < u64::MAX,
    ensures
        r@ == spec_migrated_label(adapter_id@, index as nat),
{
    if index == 0 {
        cat("Migrated ", adapter_id)
    } else {
        let n = decimal(index + 1);
        let head = cat3("Migrated ", adapter_id, " (");
        cat3(head.as_str(), n.as_str(), ")")
    }
}

} // verus!
