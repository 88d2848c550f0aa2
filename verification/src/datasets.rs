use vstd::prelude::*;
use crate::json::{JsonValue, spec_get};

verus! {

/// A dataset as the service reports it: its slug and, when it has ever been
/// written to, that moment as whole seconds since the Unix epoch.
#[derive(Debug)]
pub struct Dataset {
    pub slug: String,
    pub last_written_at: Option<i64>,
}

/// A column of a dataset, with its last write as whole seconds since the
/// Unix epoch.
#[derive(Debug)]
pub struct Column {
    pub id: String,
    pub key_name: String,
    pub column_type: String,
    pub description: String,
    pub hidden: bool,
    pub last_written: i64,
}

/// What parsing a timestamp text yields: whole seconds since the Unix
/// epoch, or nothing for text that is not a well-formed timestamp. A
/// function of the text alone; decoders state their results relative to it.
pub uninterp spec fn timestamp_of(text: Seq<char>) -> Option<i64>;

/// Relies on chrono::DateTime::parse_from_rfc3339 and
/// chrono::DateTime::timestamp: parses a timestamp text and renders it as
/// whole seconds since the Unix epoch, deterministically in the text alone.
#[verifier::external_body]
pub(crate) fn parse_timestamp(text: &str) -> (r: Option<i64>)
    ensures
        r == timestamp_of(text@),
{
    chrono::DateTime::parse_from_rfc3339(text).ok().map(|d| d.timestamp())
}

/// Relies on chrono::Utc::now and chrono::DateTime::timestamp: the current
/// moment as whole seconds since the Unix epoch. Nothing is assumed of the
/// value; callers hold for every value it may take.
#[verifier::external_body]
pub(crate) fn now_timestamp() -> (r: i64) {
    chrono::Utc::now().timestamp()
}

/// Whole days from `then` to `now`, rounded towards zero, as elapsed-time
/// arithmetic on second-precision timestamps renders it.
pub open spec fn days_between(now: int, then: int) -> int {
    if now >= then {
        (now - then) / 86400
    } else {
        -((then - now) / 86400)
    }
}

/// Whether a moment counts as recent: strictly fewer than `window_days`
/// whole days lie between it and `now`. An absent moment counts as `now`
/// itself, so it is recent exactly when the window is positive.
pub open spec fn is_recent(now: int, then: Option<i64>, window_days: int) -> bool {
    days_between(
        now,
        match then {
            Some(t) => t as int,
            None => now,
        },
    ) < window_days
}

/// Decides recency of an optional moment against `now`, widening to avoid
/// any overflow.
pub fn moment_is_recent(now: i64, then: Option<i64>, window_days: i64) -> (r: bool)
    ensures
        r == is_recent(now as int, then, window_days as int),
{
    let t: i64 = match then {
        Some(t) => t,
        None => now,
    };
    let now_wide: i128 = now as i128;
    let t_wide: i128 = t as i128;
    let days: i128 = if now_wide >= t_wide {
        (now_wide - t_wide) / 86400
    } else {
        -((t_wide - now_wide) / 86400)
    };
    days < window_days as i128
}

/// The slugs of the datasets that are recent at `now` and, when `wanted`
/// is non-empty, also named by it, in input order.
pub open spec fn recent_slugs(
    datasets: Seq<Dataset>,
    now: int,
    window_days: int,
    wanted: Seq<String>,
) -> Seq<String>
    decreases datasets.len(),
{
    if datasets.len() == 0 {
        Seq::empty()
    } else {
        let pre = recent_slugs(datasets.drop_last(), now, window_days, wanted);
        let d = datasets.last();
        if is_recent(now, d.last_written_at, window_days) && (wanted.len() == 0 || slug_included(
            wanted,
            d.slug@,
        )) {
            pre.push(d.slug)
        } else {
            pre
        }
    }
}

/// Some entry of `wanted` reads `slug`.
pub open spec fn slug_included(wanted: Seq<String>, slug: Seq<char>) -> bool {
    exists|j: int| 0 <= j < wanted.len() && (#[trigger] wanted[j])@ == slug
}

fn contains_slug(wanted: &Vec<String>, slug: &String) -> (r: bool)
    ensures
        r == slug_included(wanted@, slug@),
{
    let mut j: usize = 0;
    while j < wanted.len()
        invariant
            j <= wanted@.len(),
            forall|k: int| 0 <= k < j ==> (#[trigger] wanted@[k])@ != slug@,
        decreases wanted@.len() - j,
    {
        if wanted[j] == *slug {
            return true;
        }
        j = j + 1;
    }
    false
}

/// Lexicographic order on texts by code point, the order in which sorted
/// slugs are handed back.
pub open spec fn lex_le(a: Seq<char>, b: Seq<char>) -> bool
    decreases a.len(),
{
    if a.len() == 0 {
        true
    } else if b.len() == 0 {
        false
    } else if a[0] == b[0] {
        lex_le(a.skip(1), b.skip(1))
    } else {
        (a[0] as u32) < (b[0] as u32)
    }
}

pub open spec fn sorted_lex(items: Seq<String>) -> bool {
    forall|p: int, q: int| 0 <= p < q < items.len() ==> lex_le(items[p]@, items[q]@)
}

/// Relies on the standard library's slice sort through `Vec`: reorders the
/// strings into ascending lexicographic-by-code-point order, keeping
/// exactly the same strings (std documents `String`'s order as
/// lexicographic by code point, and sort as a reordering into ascending
/// order).
#[verifier::external_body]
fn sort_strings(v: &mut Vec<String>)
    ensures
        final(v)@.len() == old(v)@.len(),
        final(v)@.to_multiset() == old(v)@.to_multiset(),
        sorted_lex(final(v)@),
{
    v.sort();
}

/// The dataset-slug listing step: keeps the slugs of datasets written to in
/// the last `window_days` days as of `now` (restricted to `wanted` when it
/// is non-empty) and hands them back sorted.
pub fn dataset_slugs_at(
    datasets: &Vec<Dataset>,
    now: i64,
    window_days: i64,
    wanted: &Vec<String>,
) -> (r: Vec<String>)
    ensures
        r@.to_multiset() == recent_slugs(datasets@, now as int, window_days as int, wanted@)
            .to_multiset(),
        sorted_lex(r@),
{
    let mut out: Vec<String> = Vec::new();
    let mut i: usize = 0;
    proof {
        assert(datasets@.take(0) =~= Seq::<Dataset>::empty());
    }
    while i < datasets.len()
        invariant
            i <= datasets@.len(),
            out@ == recent_slugs(
                datasets@.take(i as int),
                now as int,
                window_days as int,
                wanted@,
            ),
        decreases datasets@.len() - i,
    {
        proof {
            assert(datasets@.take(i as int + 1).drop_last() =~= datasets@.take(i as int));
            assert(datasets@.take(i as int + 1).last() == datasets@[i as int]);
        }
        let d: &Dataset = &datasets[i];
        if moment_is_recent(now, d.last_written_at, window_days) {
            let keep: bool = if wanted.len() == 0 {
                true
            } else {
                contains_slug(wanted, &d.slug)
            };
            if keep {
                out.push(d.slug.clone());
            }
        }
        i = i + 1;
    }
    proof {
        assert(datasets@.take(datasets@.len() as int) =~= datasets@);
    }
    sort_strings(&mut out);
    out
}

/// The dataset-slug listing against the clock: as `dataset_slugs_at`, taken
/// at some moment the clock reported.
pub fn dataset_slugs(datasets: &Vec<Dataset>, window_days: i64, wanted: &Vec<String>) -> (r: Vec<
    String,
>)
    ensures
        exists|now: int|
            r@.to_multiset() == recent_slugs(datasets@, now, window_days as int, wanted@)
                .to_multiset() && sorted_lex(r@),
{
    let now: i64 = now_timestamp();
    let r = dataset_slugs_at(datasets, now, window_days, wanted);
    proof {
        assert(r@.to_multiset() == recent_slugs(
            datasets@,
            now as int,
            window_days as int,
            wanted@,
        ).to_multiset() && sorted_lex(r@));
    }
    r
}

/// The columns written to in the last `window_days` days as of `now`, in
/// input order: the per-dataset filtering step of the ordered aggregation.
pub open spec fn recent_columns_spec(columns: Seq<Column>, now: int, window_days: int) -> Seq<
    Column,
>
    decreases columns.len(),
{
    if columns.len() == 0 {
        Seq::empty()
    } else {
        let pre = recent_columns_spec(columns.drop_last(), now, window_days);
        let c = columns.last();
        if is_recent(now, Some(c.last_written), window_days) {
            pre.push(c)
        } else {
            pre
        }
    }
}

fn clone_column(c: &Column) -> (r: Column)
    ensures
        r == *c,
{
    Column {
        id: c.id.clone(),
        key_name: c.key_name.clone(),
        column_type: c.column_type.clone(),
        description: c.description.clone(),
        hidden: c.hidden,
        last_written: c.last_written,
    }
}

/// Keeps the columns written to in the last `window_days` days as of `now`,
/// in input order.
pub fn recent_columns(columns: &Vec<Column>, now: i64, window_days: i64) -> (r: Vec<Column>)
    ensures
        r@ == recent_columns_spec(columns@, now as int, window_days as int),
{
    let mut out: Vec<Column> = Vec::new();
    let mut i: usize = 0;
    proof {
        assert(columns@.take(0) =~= Seq::<Column>::empty());
    }
    while i < columns.len()
        invariant
            i <= columns@.len(),
            out@ == recent_columns_spec(columns@.take(i as int), now as int, window_days as int),
        decreases columns@.len() - i,
    {
        proof {
            assert(columns@.take(i as int + 1).drop_last() =~= columns@.take(i as int));
            assert(columns@.take(i as int + 1).last() == columns@[i as int]);
        }
        let c: &Column = &columns[i];
        if moment_is_recent(now, Some(c.last_written), window_days) {
            out.push(clone_column(c));
        }
        i = i + 1;
    }
    proof {
        assert(columns@.take(columns@.len() as int) =~= columns@);
    }
    out
}

/// Decodes one dataset object: "slug" must be a string; "last_written_at"
/// may be absent or null, and otherwise must be a well-formed timestamp
/// text.
pub open spec fn spec_dataset(v: JsonValue) -> Option<Dataset> {
    match spec_get(v, "slug"@) {
        Some(JsonValue::Text(slug)) => match spec_get(v, "last_written_at"@) {
            Some(JsonValue::Text(t)) => match timestamp_of(t@) {
                Some(secs) => Some(Dataset { slug, last_written_at: Some(secs) }),
                None => None,
            },
            Some(JsonValue::Null) => Some(Dataset { slug, last_written_at: None }),
            Some(_) => None,
            None => Some(Dataset { slug, last_written_at: None }),
        },
        _ => None,
    }
}

pub fn dataset_from_json(v: &JsonValue) -> (r: Option<Dataset>)
    ensures
        r == spec_dataset(*v),
{
    let slug: &String = match v.get("slug") {
        Some(x) => match x.as_text() {
            Some(s) => s,
            None => {
                return None;
            },
        },
        None => {
            return None;
        },
    };
    let last_written_at: Option<i64> = match v.get("last_written_at") {
        Some(x) => match x {
            JsonValue::Text(t) => match parse_timestamp(t.as_str()) {
                Some(secs) => Some(secs),
                None => {
                    return None;
                },
            },
            JsonValue::Null => None,
            _ => {
                return None;
            },
        },
        None => None,
    };
    Some(Dataset { slug: slug.clone(), last_written_at })
}

/// Decodes a dataset listing: an array each of whose elements decodes as a
/// dataset; any malformed element fails the decode as a whole.
pub open spec fn spec_datasets(entries: Seq<JsonValue>) -> Option<Seq<Dataset>>
    decreases entries.len(),
{
    if entries.len() == 0 {
        Some(Seq::empty())
    } else {
        match spec_datasets(entries.drop_last()) {
            Some(pre) => match spec_dataset(entries.last()) {
                Some(d) => Some(pre.push(d)),
                None => None,
            },
            None => None,
        }
    }
}

proof fn lemma_spec_datasets_none(entries: Seq<JsonValue>, k: int)
    requires
        0 <= k <= entries.len(),
        spec_datasets(entries.take(k)) is None,
    ensures
        spec_datasets(entries) is None,
    decreases entries.len() - k,
{
    if k < entries.len() {
        assert(entries.take(k + 1).drop_last() =~= entries.take(k));
        lemma_spec_datasets_none(entries, k + 1);
    } else {
        assert(entries.take(k) =~= entries);
    }
}

pub fn datasets_from_json(v: &JsonValue) -> (r: Option<Vec<Dataset>>)
    ensures
        match r {
            Some(list) => *v matches JsonValue::Arr(a) && spec_datasets(a@) == Some(list@),
            None => match *v {
                JsonValue::Arr(a) => spec_datasets(a@) is None,
                _ => true,
            },
        },
{
    let entries: &Vec<JsonValue> = match v.as_array() {
        Some(a) => a,
        None => {
            return None;
        },
    };
    let mut out: Vec<Dataset> = Vec::new();
    let mut i: usize = 0;
    proof {
        assert(entries@.take(0) =~= Seq::<JsonValue>::empty());
    }
    while i < entries.len()
        invariant
            i <= entries@.len(),
            *v == JsonValue::Arr(*entries),
            spec_datasets(entries@.take(i as int)) == Some(out@),
        decreases entries@.len() - i,
    {
        proof {
            assert(entries@.take(i as int + 1).drop_last() =~= entries@.take(i as int));
            assert(entries@.take(i as int + 1).last() == entries@[i as int]);
        }
        match dataset_from_json(&entries[i]) {
            Some(d) => {
                out.push(d);
            },
            None => {
                proof {
                    lemma_spec_datasets_none(entries@, i as int + 1);
                }
                return None;
            },
        }
        i = i + 1;
    }
    proof {
        assert(entries@.take(entries@.len() as int) =~= entries@);
    }
    Some(out)
}

/// Decodes one column object: string "id", "key_name", "type" and
/// "description", boolean "hidden", and a well-formed timestamp text
/// "last_written".
pub open spec fn spec_column(v: JsonValue) -> Option<Column> {
    match (
        spec_get(v, "id"@),
        spec_get(v, "key_name"@),
        spec_get(v, "type"@),
        spec_get(v, "description"@),
        spec_get(v, "hidden"@),
        spec_get(v, "last_written"@),
    ) {
        (
            Some(JsonValue::Text(id)),
            Some(JsonValue::Text(key_name)),
            Some(JsonValue::Text(column_type)),
            Some(JsonValue::Text(description)),
            Some(JsonValue::Bool(hidden)),
            Some(JsonValue::Text(t)),
        ) => match timestamp_of(t@) {
            Some(secs) => Some(
                Column { id, key_name, column_type, description, hidden, last_written: secs },
            ),
            None => None,
        },
        _ => None,
    }
}

pub fn column_from_json(v: &JsonValue) -> (r: Option<Column>)
    ensures
        r == spec_column(*v),
{
    let id: &String = match v.get("id") {
        Some(x) => match x.as_text() {
            Some(s) => s,
            None => {
                return None;
            },
        },
        None => {
            return None;
        },
    };
    let key_name: &String = match v.get("key_name") {
        Some(x) => match x.as_text() {
            Some(s) => s,
            None => {
                return None;
            },
        },
        None => {
            return None;
        },
    };
    let column_type: &String = match v.get("type") {
        Some(x) => match x.as_text() {
            Some(s) => s,
            None => {
                return None;
            },
        },
        None => {
            return None;
        },
    };
    let description: &String = match v.get("description") {
        Some(x) => match x.as_text() {
            Some(s) => s,
            None => {
                return None;
            },
        },
        None => {
            return None;
        },
    };
    let hidden: bool = match v.get("hidden") {
        Some(x) => match x.as_bool() {
            Some(b) => b,
            None => {
                return None;
            },
        },
        None => {
            return None;
        },
    };
    let last_written: i64 = match v.get("last_written") {
        Some(x) => match x.as_text() {
            Some(t) => match parse_timestamp(t.as_str()) {
                Some(secs) => secs,
                None => {
                    return None;
                },
            },
            None => {
                return None;
            },
        },
        None => {
            return None;
        },
    };
    Some(Column {
        id: id.clone(),
        key_name: key_name.clone(),
        column_type: column_type.clone(),
        description: description.clone(),
        hidden,
        last_written,
    })
}

/// Decodes a column listing: an array each of whose elements decodes as a
/// column; any malformed element fails the decode as a whole.
pub open spec fn spec_columns(entries: Seq<JsonValue>) -> Option<Seq<Column>>
    decreases entries.len(),
{
    if entries.len() == 0 {
        Some(Seq::empty())
    } else {
        match spec_columns(entries.drop_last()) {
            Some(pre) => match spec_column(entries.last()) {
                Some(c) => Some(pre.push(c)),
                None => None,
            },
            None => None,
        }
    }
}

proof fn lemma_spec_columns_none(entries: Seq<JsonValue>, k: int)
    requires
        0 <= k <= entries.len(),
        spec_columns(entries.take(k)) is None,
    ensures
        spec_columns(entries) is None,
    decreases entries.len() - k,
{
    if k < entries.len() {
        assert(entries.take(k + 1).drop_last() =~= entries.take(k));
        lemma_spec_columns_none(entries, k + 1);
    } else {
        assert(entries.take(k) =~= entries);
    }
}

pub fn columns_from_json(v: &JsonValue) -> (r: Option<Vec<Column>>)
    ensures
        match r {
            Some(list) => *v matches JsonValue::Arr(a) && spec_columns(a@) == Some(list@),
            None => match *v {
                JsonValue::Arr(a) => spec_columns(a@) is None,
                _ => true,
            },
        },
{
    let entries: &Vec<JsonValue> = match v.as_array() {
        Some(a) => a,
        None => {
            return None;
        },
    };
    let mut out: Vec<Column> = Vec::new();
    let mut i: usize = 0;
    proof {
        assert(entries@.take(0) =~= Seq::<JsonValue>::empty());
    }
    while i < entries.len()
        invariant
            i <= entries@.len(),
            *v == JsonValue::Arr(*entries),
            spec_columns(entries@.take(i as int)) == Some(out@),
        decreases entries@.len() - i,
    {
        proof {
            assert(entries@.take(i as int + 1).drop_last() =~= entries@.take(i as int));
            assert(entries@.take(i as int + 1).last() == entries@[i as int]);
        }
        match column_from_json(&entries[i]) {
            Some(c) => {
                out.push(c);
            },
            None => {
                proof {
                    lemma_spec_columns_none(entries@, i as int + 1);
                }
                return None;
            },
        }
        i = i + 1;
    }
    proof {
        assert(entries@.take(entries@.len() as int) =~= entries@);
    }
    Some(out)
}

} // verus!
