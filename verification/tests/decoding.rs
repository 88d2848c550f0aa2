use honeycomb::json::JsonValue;
use honeycomb::transport::{Response, interpret_response};
use honeycomb::auth::{Authorizations, NameAndSlug, authorizations_from_json};
use honeycomb::datasets::{
    Column, Dataset, columns_from_json, dataset_from_json, dataset_slugs_at, datasets_from_json,
    moment_is_recent, recent_columns,
};
use honeycomb::queries::{query_id_from_json, query_url_from_json};

const DAY: i64 = 86400;

fn parse(body: &str) -> JsonValue {
    let resp = Response {
        status: 200,
        headers: String::from("{}"),
        body: String::from(body),
    };
    interpret_response(&resp).expect("body parses")
}

fn auth_fixture() -> Authorizations {
    Authorizations {
        api_key_access: vec![
            (String::from("queries"), true),
            (String::from("columns"), true),
            (String::from("createDatasets"), false),
        ],
        environment: NameAndSlug { name: String::from("prod"), slug: String::from("prod") },
        team: NameAndSlug { name: String::from("obs"), slug: String::from("obs") },
    }
}

#[test]
fn access_granted_when_every_flag_is_true() {
    let auth = auth_fixture();
    assert!(auth.has_required_access(&["queries", "columns"]));
}

#[test]
fn access_denied_on_false_flag() {
    let auth = auth_fixture();
    assert!(!auth.has_required_access(&["queries", "createDatasets"]));
}

#[test]
fn access_denied_on_absent_flag() {
    let auth = auth_fixture();
    assert!(!auth.has_required_access(&["boards"]));
}

#[test]
fn access_granted_vacuously_for_no_requirements() {
    let auth = auth_fixture();
    assert!(auth.has_required_access(&[]));
}

#[test]
fn authorizations_decode_from_document() {
    let v = parse(
        "{\"api_key_access\":{\"queries\":true,\"columns\":false},\
         \"environment\":{\"name\":\"Prod\",\"slug\":\"prod\"},\
         \"team\":{\"name\":\"Obs\",\"slug\":\"obs\"}}",
    );
    let auth = authorizations_from_json(&v).expect("document decodes");
    assert_eq!(auth.environment.name, "Prod");
    assert_eq!(auth.team.slug, "obs");
    assert!(auth.has_required_access(&["queries"]));
    assert!(!auth.has_required_access(&["columns"]));
}

#[test]
fn authorizations_reject_non_boolean_flag() {
    let v = parse(
        "{\"api_key_access\":{\"queries\":\"yes\"},\
         \"environment\":{\"name\":\"P\",\"slug\":\"p\"},\
         \"team\":{\"name\":\"T\",\"slug\":\"t\"}}",
    );
    assert!(authorizations_from_json(&v).is_none());
}

#[test]
fn dataset_decodes_with_timestamp() {
    let v = parse("{\"slug\":\"web\",\"last_written_at\":\"2024-01-01T00:00:00Z\"}");
    let d = dataset_from_json(&v).expect("dataset decodes");
    assert_eq!(d.slug, "web");
    assert_eq!(d.last_written_at, Some(1704067200));
}

#[test]
fn dataset_decodes_without_timestamp() {
    let v = parse("{\"slug\":\"idle\",\"last_written_at\":null}");
    let d = dataset_from_json(&v).expect("dataset decodes");
    assert_eq!(d.slug, "idle");
    assert_eq!(d.last_written_at, None);
}

#[test]
fn dataset_rejects_malformed_timestamp() {
    let v = parse("{\"slug\":\"web\",\"last_written_at\":\"yesterday\"}");
    assert!(dataset_from_json(&v).is_none());
}

#[test]
fn dataset_listing_rejects_any_malformed_entry() {
    let v = parse("[{\"slug\":\"ok\",\"last_written_at\":null},{\"name\":\"no slug\"}]");
    assert!(datasets_from_json(&v).is_none());
}

fn dataset(slug: &str, last_written_at: Option<i64>) -> Dataset {
    Dataset { slug: String::from(slug), last_written_at }
}

#[test]
fn dataset_slugs_filter_and_sort() {
    let now = 100 * DAY;
    let datasets = vec![
        dataset("zeta", Some(now - 2 * DAY)),
        dataset("alpha", Some(now - 3 * DAY)),
        dataset("stale", Some(now - 40 * DAY)),
        dataset("fresh", None),
    ];
    let slugs = dataset_slugs_at(&datasets, now, 30, &Vec::new());
    assert_eq!(slugs, vec!["alpha", "fresh", "zeta"]);
}

#[test]
fn dataset_slugs_respect_wanted_set() {
    let now = 100 * DAY;
    let datasets = vec![
        dataset("zeta", Some(now - 2 * DAY)),
        dataset("alpha", Some(now - 3 * DAY)),
    ];
    let wanted = vec![String::from("zeta")];
    let slugs = dataset_slugs_at(&datasets, now, 30, &wanted);
    assert_eq!(slugs, vec!["zeta"]);
}

#[test]
fn dataset_exactly_at_window_is_excluded() {
    let now = 100 * DAY;
    let datasets = vec![
        dataset("edge", Some(now - 10 * DAY)),
        dataset("inside", Some(now - 10 * DAY + 1)),
    ];
    let slugs = dataset_slugs_at(&datasets, now, 10, &Vec::new());
    assert_eq!(slugs, vec!["inside"]);
}

#[test]
fn zero_window_excludes_even_unwritten_datasets() {
    let now = 100 * DAY;
    let datasets = vec![dataset("fresh", None), dataset("recent", Some(now - 1))];
    let slugs = dataset_slugs_at(&datasets, now, 0, &Vec::new());
    assert!(slugs.is_empty());
}

#[test]
fn future_moments_count_as_recent() {
    assert!(moment_is_recent(100 * DAY, Some(101 * DAY), 1));
    assert!(moment_is_recent(100 * DAY, None, 1));
    assert!(!moment_is_recent(100 * DAY, Some(98 * DAY), 1));
}

fn column(id: &str, last_written: i64) -> Column {
    Column {
        id: String::from(id),
        key_name: String::from(id),
        column_type: String::from("string"),
        description: String::new(),
        hidden: false,
        last_written,
    }
}

#[test]
fn recent_columns_keep_input_order() {
    let now = 100 * DAY;
    let columns = vec![
        column("newer", now - DAY),
        column("old", now - 50 * DAY),
        column("newest", now - 1),
    ];
    let kept = recent_columns(&columns, now, 30);
    let ids: Vec<&str> = kept.iter().map(|c| c.id.as_str()).collect();
    assert_eq!(ids, vec!["newer", "newest"]);
}

#[test]
fn column_listing_decodes_fields() {
    let v = parse(
        "[{\"id\":\"c1\",\"key_name\":\"duration_ms\",\"type\":\"float\",\
         \"description\":\"how long\",\"hidden\":false,\
         \"last_written\":\"2024-01-01T00:00:00Z\"}]",
    );
    let columns = columns_from_json(&v).expect("columns decode");
    assert_eq!(columns.len(), 1);
    assert_eq!(columns[0].key_name, "duration_ms");
    assert_eq!(columns[0].column_type, "float");
    assert!(!columns[0].hidden);
    assert_eq!(columns[0].last_written, 1704067200);
}

#[test]
fn column_listing_rejects_missing_field() {
    let v = parse("[{\"id\":\"c1\"}]");
    assert!(columns_from_json(&v).is_none());
}

#[test]
fn query_id_decodes() {
    let v = parse("{\"id\":\"abc123\"}");
    assert_eq!(query_id_from_json(&v), Some(String::from("abc123")));
    let bad = parse("{\"id\":7}");
    assert_eq!(query_id_from_json(&bad), None);
}

#[test]
fn query_url_decodes() {
    let v = parse("{\"links\":{\"query_url\":\"https://ui.example/result/tok42\"}}");
    assert_eq!(
        query_url_from_json(&v),
        Some(String::from("https://ui.example/result/tok42"))
    );
    let bad = parse("{\"links\":{}}");
    assert_eq!(query_url_from_json(&bad), None);
}

#[test]
fn honeycomb_handle_duplicates_cheaply() {
    let hc = honeycomb::HoneyComb::new(String::from("test-key"));
    let copy = hc.duplicate();
    assert_eq!(copy.api_key, hc.api_key);
}
