use honeycomb::json::JsonValue;
use honeycomb::transport::{FetchError, Response, TransportEvent, interpret_response};
use honeycomb::retry::{ExecReport, RetryState, execute_script};
use honeycomb::poll::{PollReport, extract_variants, poll_script};
use honeycomb::ordered::deliver_ordered;
use honeycomb::bounded::aggregate_bounded;
use honeycomb::{HoneyComb, RETRY_BUDGET, POLL_BUDGET, CONCURRENCY_LIMIT, is_rate_limited};

fn reply(status: u16, body: &str) -> TransportEvent {
    TransportEvent::Replied {
        response: Response {
            status,
            headers: String::from("{}"),
            body: String::from(body),
        },
    }
}

fn ok_reply() -> TransportEvent {
    reply(200, "{\"id\":\"q1\"}")
}

fn rate_limited_reply() -> TransportEvent {
    reply(429, "slow down")
}

fn events_with_prefix(prefix: Vec<TransportEvent>, total: usize) -> Vec<TransportEvent> {
    let mut events = prefix;
    while events.len() < total {
        events.push(ok_reply());
    }
    events
}

#[test]
fn rate_limit_status_is_429() {
    assert!(is_rate_limited(429));
    assert!(!is_rate_limited(200));
    assert!(!is_rate_limited(500));
}

#[test]
fn execute_succeeds_without_retries() {
    let events = events_with_prefix(vec![ok_reply()], RETRY_BUDGET as usize);
    let report: ExecReport = execute_script(&events, RETRY_BUDGET);
    assert_eq!(report.sleeps, 0);
    let v = report.outcome.expect("first reply decodes");
    let id = honeycomb::queries::query_id_from_json(&v).expect("id present");
    assert_eq!(id, "q1");
}

#[test]
fn execute_retries_then_succeeds() {
    let n = 3;
    let mut prefix = Vec::new();
    for _ in 0..n {
        prefix.push(rate_limited_reply());
    }
    prefix.push(ok_reply());
    let events = events_with_prefix(prefix, RETRY_BUDGET as usize + 1);
    let report = execute_script(&events, RETRY_BUDGET);
    assert_eq!(report.sleeps, n);
    assert!(report.outcome.is_ok());
}

#[test]
fn execute_succeeds_on_last_attempt() {
    let mut prefix = Vec::new();
    for _ in 0..(RETRY_BUDGET - 1) {
        prefix.push(rate_limited_reply());
    }
    prefix.push(ok_reply());
    let events = events_with_prefix(prefix, RETRY_BUDGET as usize);
    let report = execute_script(&events, RETRY_BUDGET);
    assert_eq!(report.sleeps, RETRY_BUDGET - 1);
    assert!(report.outcome.is_ok());
}

#[test]
fn execute_gives_up_when_budget_is_exhausted() {
    let mut prefix = Vec::new();
    for _ in 0..RETRY_BUDGET {
        prefix.push(rate_limited_reply());
    }
    let events = events_with_prefix(prefix, RETRY_BUDGET as usize);
    let report = execute_script(&events, RETRY_BUDGET);
    assert_eq!(report.sleeps, RETRY_BUDGET);
    assert!(matches!(report.outcome, Err(FetchError::TooManyRetries)));
}

#[test]
fn execute_fails_on_malformed_body_without_retrying() {
    let events = events_with_prefix(vec![reply(500, "not json")], RETRY_BUDGET as usize);
    let report = execute_script(&events, RETRY_BUDGET);
    assert_eq!(report.sleeps, 0);
    match report.outcome {
        Err(FetchError::Decode { status, body, .. }) => {
            assert_eq!(status, 500);
            assert_eq!(body, "not json");
        },
        other => panic!("expected a decode error, got {:?}", other),
    }
}

#[test]
fn execute_propagates_transport_failure() {
    let failed = TransportEvent::Failed { message: String::from("connection reset") };
    let events = events_with_prefix(vec![failed], RETRY_BUDGET as usize);
    let report = execute_script(&events, RETRY_BUDGET);
    assert_eq!(report.sleeps, 0);
    match report.outcome {
        Err(FetchError::Transport { message }) => assert_eq!(message, "connection reset"),
        other => panic!("expected a transport error, got {:?}", other),
    }
}

#[test]
fn retry_state_counts_down() {
    let mut state = RetryState::new(2);
    assert!(state.can_attempt());
    state.absorb_rate_limit();
    assert!(state.can_attempt());
    state.absorb_rate_limit();
    assert!(!state.can_attempt());
}

#[test]
fn interpret_response_decodes_valid_json() {
    let resp = Response {
        status: 200,
        headers: String::from("{}"),
        body: String::from("{\"complete\":true}"),
    };
    let v = interpret_response(&resp).expect("valid json decodes");
    match v.get("complete") {
        Some(flag) => assert_eq!(flag.as_bool(), Some(true)),
        None => panic!("field missing"),
    }
}

#[test]
fn interpret_response_keeps_raw_reply_on_decode_failure() {
    let resp = Response {
        status: 502,
        headers: String::from("x-served-by: edge"),
        body: String::from("<html>bad gateway</html>"),
    };
    match interpret_response(&resp) {
        Err(FetchError::Decode { status, headers, body }) => {
            assert_eq!(status, 502);
            assert_eq!(headers, "x-served-by: edge");
            assert_eq!(body, "<html>bad gateway</html>");
        },
        other => panic!("expected a decode error, got {:?}", other),
    }
}

fn status_doc(complete: bool, values: Vec<&str>) -> JsonValue {
    let mut rows = Vec::new();
    for value in values {
        rows.push(JsonValue::Obj(vec![(
            String::from("data"),
            JsonValue::Obj(vec![(String::from("col-1"), JsonValue::Text(String::from(value)))]),
        )]));
    }
    JsonValue::Obj(vec![
        (String::from("complete"), JsonValue::Bool(complete)),
        (
            String::from("data"),
            JsonValue::Obj(vec![(String::from("results"), JsonValue::Arr(rows))]),
        ),
    ])
}

#[test]
fn poll_returns_payload_on_first_fetch() {
    let polls = vec![status_doc(true, vec!["alpha", "beta"])];
    let report: PollReport = poll_script(&polls, "col-1", 1);
    assert_eq!(report.fetches, 1);
    assert!(report.completed);
    assert_eq!(report.variants, vec!["alpha", "beta"]);
}

#[test]
fn poll_returns_payload_after_k_fetches() {
    let polls = vec![
        status_doc(false, vec![]),
        status_doc(false, vec![]),
        status_doc(true, vec!["gamma"]),
        status_doc(true, vec!["ignored"]),
        status_doc(false, vec![]),
    ];
    let report = poll_script(&polls, "col-1", 5);
    assert_eq!(report.fetches, 3);
    assert!(report.completed);
    assert_eq!(report.variants, vec!["gamma"]);
}

#[test]
fn poll_stops_at_budget_with_empty_payload() {
    let mut polls = Vec::new();
    for _ in 0..POLL_BUDGET {
        polls.push(status_doc(false, vec!["never delivered"]));
    }
    let report = poll_script(&polls, "col-1", POLL_BUDGET);
    assert_eq!(report.fetches, POLL_BUDGET);
    assert!(!report.completed);
    assert!(report.variants.is_empty());
}

#[test]
fn extract_variants_skips_malformed_rows() {
    let rows = vec![
        JsonValue::Obj(vec![(
            String::from("data"),
            JsonValue::Obj(vec![(String::from("col-1"), JsonValue::Text(String::from("kept")))]),
        )]),
        JsonValue::Obj(vec![(
            String::from("data"),
            JsonValue::Obj(vec![(String::from("col-1"), JsonValue::Int(7))]),
        )]),
        JsonValue::Obj(vec![(String::from("other"), JsonValue::Null)]),
        JsonValue::Null,
    ];
    let status = JsonValue::Obj(vec![
        (String::from("complete"), JsonValue::Bool(true)),
        (
            String::from("data"),
            JsonValue::Obj(vec![(String::from("results"), JsonValue::Arr(rows))]),
        ),
    ]);
    assert_eq!(extract_variants(&status, "col-1"), vec!["kept"]);
}

#[test]
fn extract_variants_of_bare_status_is_empty() {
    let status = JsonValue::Obj(vec![(String::from("complete"), JsonValue::Bool(true))]);
    let variants = extract_variants(&status, "col-1");
    assert!(variants.is_empty());
}

#[test]
fn ordered_delivery_matches_input_order() {
    let items = vec![String::from("a"), String::from("b"), String::from("c")];
    // Fetch latencies 30ms, 10ms, 20ms: completions arrive as b, c, a.
    let completions = vec![
        (1usize, String::from("B")),
        (2usize, String::from("C")),
        (0usize, String::from("A")),
    ];
    let delivered = deliver_ordered(&items, completions);
    assert_eq!(delivered.len(), 3);
    assert_eq!(delivered[0], (String::from("a"), String::from("A")));
    assert_eq!(delivered[1], (String::from("b"), String::from("B")));
    assert_eq!(delivered[2], (String::from("c"), String::from("C")));
}

#[test]
fn ordered_delivery_keeps_failure_placeholders_in_place() {
    let items = vec![String::from("d1"), String::from("d2")];
    let completions: Vec<(usize, Vec<String>)> =
        vec![(1, vec![String::from("col")]), (0, Vec::new())];
    let delivered = deliver_ordered(&items, completions);
    assert_eq!(delivered[0].0, "d1");
    assert!(delivered[0].1.is_empty());
    assert_eq!(delivered[1].0, "d2");
    assert_eq!(delivered[1].1, vec!["col"]);
}

#[test]
fn ordered_delivery_of_single_item() {
    let items = vec![String::from("only")];
    let delivered = deliver_ordered(&items, vec![(0usize, String::from("O"))]);
    assert_eq!(delivered, vec![(String::from("only"), String::from("O"))]);
}

#[test]
fn bounded_covers_input_exactly_once() {
    let items = vec![
        String::from("c1"),
        String::from("c2"),
        String::from("c3"),
        String::from("c4"),
        String::from("c5"),
    ];
    // A completion order a cap of 3 allows: each index is started before it finishes.
    let completions = vec![
        (2usize, String::from("v3")),
        (0usize, String::from("v1")),
        (3usize, String::from("v4")),
        (1usize, String::from("v2")),
        (4usize, String::from("v5")),
    ];
    let report = aggregate_bounded(&items, CONCURRENCY_LIMIT, completions);
    assert_eq!(report.peak_in_flight, CONCURRENCY_LIMIT);
    assert_eq!(report.results.len(), items.len());
    let mut names: Vec<String> = report.results.iter().map(|p| p.0.clone()).collect();
    names.sort();
    assert_eq!(names, items);
    for (item, outcome) in &report.results {
        let expected = item.replace('c', "v");
        assert_eq!(*outcome, expected);
    }
}

#[test]
fn bounded_aggregation_of_empty_input() {
    let items: Vec<String> = Vec::new();
    let report = aggregate_bounded::<String>(&items, CONCURRENCY_LIMIT, Vec::new());
    assert_eq!(report.results.len(), 0);
    assert_eq!(report.peak_in_flight, 0);
}

#[test]
fn bounded_aggregation_of_single_item() {
    let items = vec![String::from("solo")];
    let report = aggregate_bounded(&items, CONCURRENCY_LIMIT, vec![(0usize, String::from("s"))]);
    assert_eq!(report.peak_in_flight, 1);
    assert_eq!(report.results, vec![(String::from("solo"), String::from("s"))]);
}

#[test]
fn bounded_peak_never_exceeds_limit() {
    let items = vec![
        String::from("a"),
        String::from("b"),
        String::from("c"),
        String::from("d"),
    ];
    let completions = vec![
        (1usize, ()),
        (0usize, ()),
        (2usize, ()),
        (3usize, ()),
    ];
    let report = aggregate_bounded(&items, 2, completions);
    assert_eq!(report.peak_in_flight, 2);
    assert!(report.peak_in_flight <= 2);
}

#[test]
fn execute_with_zero_budget_fails_without_sending() {
    let events: Vec<TransportEvent> = Vec::new();
    let report = execute_script(&events, 0);
    assert_eq!(report.sleeps, 0);
    assert!(matches!(report.outcome, Err(FetchError::TooManyRetries)));
}

#[test]
fn poll_with_zero_budget_reports_nothing() {
    let polls: Vec<JsonValue> = Vec::new();
    let report = poll_script(&polls, "col-1", 0);
    assert_eq!(report.fetches, 0);
    assert!(!report.completed);
    assert!(report.variants.is_empty());
}

#[test]
fn ordered_delivery_of_empty_input() {
    let items: Vec<String> = Vec::new();
    let delivered = deliver_ordered::<String>(&items, Vec::new());
    assert!(delivered.is_empty());
}
