use vstd::prelude::*;
use crate::json::{JsonValue, spec_get};

verus! {

#[derive(Debug)]
pub struct NameAndSlug {
    pub name: String,
    pub slug: String,
}

/// What the service reports about an API key: which access flags it grants,
/// and the environment and team it belongs to. The flags are kept as a list
/// of (name, granted) pairs with each name at most once.
#[derive(Debug)]
pub struct Authorizations {
    pub api_key_access: Vec<(String, bool)>,
    pub environment: NameAndSlug,
    pub team: NameAndSlug,
}

/// The value recorded for an access flag, if any.
pub open spec fn access_lookup(entries: Seq<(String, bool)>, key: Seq<char>) -> Option<bool>
    decreases entries.len(),
{
    if entries.len() == 0 {
        None
    } else if entries[0].0@ == key {
        Some(entries[0].1)
    } else {
        access_lookup(entries.skip(1), key)
    }
}

/// An access flag counts as granted only when it is present and true; an
/// absent flag is not granted.
pub open spec fn access_granted(a: Authorizations, key: Seq<char>) -> bool {
    access_lookup(a.api_key_access@, key) == Some(true)
}

fn lookup_access(entries: &Vec<(String, bool)>, key: &str) -> (r: Option<bool>)
    ensures
        r == access_lookup(entries@, key@),
{
    let owned_key: String = key.to_owned();
    let mut i: usize = 0;
    proof {
        assert(entries@.skip(0) =~= entries@);
    }
    while i < entries.len()
        invariant
            i <= entries@.len(),
            owned_key@ == key@,
            access_lookup(entries@, key@) == access_lookup(entries@.skip(i as int), key@),
        decreases entries@.len() - i,
    {
        proof {
            assert(entries@.skip(i as int)[0] == entries@[i as int]);
        }
        if entries[i].0 == owned_key {
            return Some(entries[i].1);
        }
        proof {
            assert(entries@.skip(i as int).skip(1) =~= entries@.skip(i as int + 1));
        }
        i = i + 1;
    }
    None
}

impl Authorizations {
    /// True exactly when every named access type is granted by this key.
    pub fn has_required_access(&self, access_types: &[&str]) -> (r: bool)
        ensures
            r == forall|i: int|
                0 <= i < access_types@.len()
                    ==> access_granted(*self, (#[trigger] access_types@[i])@),
    {
        let mut i: usize = 0;
        while i < access_types.len()
            invariant
                i <= access_types@.len(),
                forall|j: int|
                    0 <= j < i ==> access_granted(*self, (#[trigger] access_types@[j])@),
            decreases access_types@.len() - i,
        {
            let granted: bool = match lookup_access(&self.api_key_access, access_types[i]) {
                Some(b) => b,
                None => false,
            };
            if !granted {
                proof {
                    assert(!access_granted(*self, access_types@[i as int]@));
                }
                return false;
            }
            i = i + 1;
        }
        true
    }
}

/// Decodes one name-and-slug object: both "name" and "slug" must be strings.
pub open spec fn spec_name_and_slug(v: JsonValue) -> Option<NameAndSlug> {
    match spec_get(v, "name"@) {
        Some(JsonValue::Text(name)) => match spec_get(v, "slug"@) {
            Some(JsonValue::Text(slug)) => Some(NameAndSlug { name, slug }),
            _ => None,
        },
        _ => None,
    }
}

pub fn name_and_slug_from_json(v: &JsonValue) -> (r: Option<NameAndSlug>)
    ensures
        r == spec_name_and_slug(*v),
{
    let name: &String = match v.get("name") {
        Some(x) => match x.as_text() {
            Some(s) => s,
            None => {
                return None;
            },
        },
        None => {
            return None;
        },
    };
    let slug: &String = match v.get("slug") {
        Some(x) => match x.as_text() {
            Some(s) => s,
            None => {
                return None;
            },
        },
        None => {
            return None;
        },
    };
    Some(NameAndSlug { name: name.clone(), slug: slug.clone() })
}

/// Decodes the flag object under "api_key_access": every field must hold a
/// boolean, and the fields are kept in document order.
pub open spec fn spec_access_entries(fields: Seq<(String, JsonValue)>) -> Option<
    Seq<(String, bool)>,
>
    decreases fields.len(),
{
    if fields.len() == 0 {
        Some(Seq::empty())
    } else {
        match spec_access_entries(fields.drop_last()) {
            Some(pre) => match fields.last().1 {
                JsonValue::Bool(b) => Some(pre.push((fields.last().0, b))),
                _ => None,
            },
            None => None,
        }
    }
}

/// Whether an authorizations document decodes: a flag object under
/// "api_key_access", and name-and-slug objects under "environment" and
/// "team". Anything else fails the decode as a whole.
pub open spec fn auth_decodes(v: JsonValue) -> bool {
    &&& spec_get(v, "api_key_access"@) matches Some(JsonValue::Obj(fields))
        && spec_access_entries(fields@) is Some
    &&& spec_get(v, "environment"@) matches Some(e) && spec_name_and_slug(e) is Some
    &&& spec_get(v, "team"@) matches Some(t) && spec_name_and_slug(t) is Some
}

proof fn lemma_access_entries_none(fields: Seq<(String, JsonValue)>, k: int)
    requires
        0 <= k <= fields.len(),
        spec_access_entries(fields.take(k)) is None,
    ensures
        spec_access_entries(fields) is None,
    decreases fields.len() - k,
{
    if k < fields.len() {
        assert(fields.take(k + 1).drop_last() =~= fields.take(k));
        lemma_access_entries_none(fields, k + 1);
    } else {
        assert(fields.take(k) =~= fields);
    }
}

fn access_entries_from_fields(fields: &Vec<(String, JsonValue)>) -> (r: Option<
    Vec<(String, bool)>,
>)
    ensures
        match r {
            Some(entries) => spec_access_entries(fields@) == Some(entries@),
            None => spec_access_entries(fields@) is None,
        },
{
    let mut out: Vec<(String, bool)> = Vec::new();
    let mut i: usize = 0;
    proof {
        assert(fields@.take(0) =~= Seq::<(String, JsonValue)>::empty());
    }
    while i < fields.len()
        invariant
            i <= fields@.len(),
            spec_access_entries(fields@.take(i as int)) == Some(out@),
        decreases fields@.len() - i,
    {
        proof {
            assert(fields@.take(i as int + 1).drop_last() =~= fields@.take(i as int));
            assert(fields@.take(i as int + 1).last() == fields@[i as int]);
        }
        match &fields[i].1 {
            JsonValue::Bool(b) => {
                out.push((fields[i].0.clone(), *b));
            },
            _ => {
                proof {
                    lemma_access_entries_none(fields@, i as int + 1);
                }
                return None;
            },
        }
        i = i + 1;
    }
    proof {
        assert(fields@.take(fields@.len() as int) =~= fields@);
    }
    Some(out)
}

/// Decodes an authorizations document; the result's parts are exactly what
/// the document's fields decode to, and the decode fails as a whole when
/// any part is malformed.
pub fn authorizations_from_json(v: &JsonValue) -> (r: Option<Authorizations>)
    ensures
        match r {
            Some(a) => {
                &&& auth_decodes(*v)
                &&& spec_get(*v, "api_key_access"@) matches Some(JsonValue::Obj(fields))
                    && spec_access_entries(fields@) == Some(a.api_key_access@)
                &&& spec_get(*v, "environment"@) matches Some(e) && spec_name_and_slug(e) == Some(
                    a.environment,
                )
                &&& spec_get(*v, "team"@) matches Some(t) && spec_name_and_slug(t) == Some(a.team)
            },
            None => !auth_decodes(*v),
        },
{
    let fields: &Vec<(String, JsonValue)> = match v.get("api_key_access") {
        Some(x) => match x {
            JsonValue::Obj(fields) => fields,
            _ => {
                return None;
            },
        },
        None => {
            return None;
        },
    };
    let entries: Vec<(String, bool)> = match access_entries_from_fields(fields) {
        Some(e) => e,
        None => {
            return None;
        },
    };
    let environment: NameAndSlug = match v.get("environment") {
        Some(e) => match name_and_slug_from_json(e) {
            Some(x) => x,
            None => {
                return None;
            },
        },
        None => {
            return None;
        },
    };
    let team: NameAndSlug = match v.get("team") {
        Some(t) => match name_and_slug_from_json(t) {
            Some(x) => x,
            None => {
                return None;
            },
        },
        None => {
            return None;
        },
    };
    Some(Authorizations { api_key_access: entries, environment, team })
}

} // verus!
