use vstd::prelude::*;
use crate::json::{JsonValue, spec_get};

verus! {

/// The handle of a query the service created: the string under "id".
pub open spec fn spec_query_id(v: JsonValue) -> Option<String> {
    match spec_get(v, "id"@) {
        Some(JsonValue::Text(id)) => Some(id),
        _ => None,
    }
}

/// Decodes the reply to creating a query into the query's handle.
pub fn query_id_from_json(v: &JsonValue) -> (r: Option<String>)
    ensures
        r == spec_query_id(*v),
{
    match v.get("id") {
        Some(x) => match x.as_text() {
            Some(s) => Some(s.clone()),
            None => None,
        },
        None => None,
    }
}

/// Where a created query result can be fetched: the string under
/// "links.query_url".
pub open spec fn spec_query_url(v: JsonValue) -> Option<String> {
    match spec_get(v, "links"@) {
        Some(links) => match spec_get(links, "query_url"@) {
            Some(JsonValue::Text(url)) => Some(url),
            _ => None,
        },
        None => None,
    }
}

/// Decodes the reply to starting a query run into the result's address.
pub fn query_url_from_json(v: &JsonValue) -> (r: Option<String>)
    ensures
        r == spec_query_url(*v),
{
    match v.get("links") {
        Some(links) => match links.get("query_url") {
            Some(x) => match x.as_text() {
                Some(s) => Some(s.clone()),
                None => None,
            },
            None => None,
        },
        None => None,
    }
}

} // verus!
