//! Tests of the test-run helpers: timer defaults, verbs, messages and what
//! a finished run records.

use edms::db::{history_count, insert_endpoint, list_history_endpoint_ids, EndpointDto};
use edms::queries::QueryMap;
use edms::run_test::{
    history_details, http_error_message, parse_verb, plan_run_test, prepare_test_run, record_test_response,
    register_request, response_file_name, run_test_request, test_view_request, timeout_message, HttpVerb,
    RunMessage, RunTestReport, RunTestStep, TimerConfig,
};
use edms::schema::initialize_schema_from_core;
use edms::store::{EdmsCore, EdmsError};
use tempfile::TempDir;

fn queries() -> QueryMap {
    let mut q = QueryMap::new();
    q.endpoints.insert(
        "E1".into(),
        "INSERT INTO endpoints (endpoint_id, endpoint_str, annotation) VALUES (?, ?, ?)".into(),
    );
    q.endpoints.insert(
        "E2".into(),
        "SELECT rowid, endpoint_id, endpoint_str, annotation FROM endpoints WHERE endpoint_id = ?".into(),
    );
    q.requests.insert(
        "R1".into(),
        "INSERT INTO request_metadata (endpoint_id, request_number, file_path, method) VALUES (?, ?, ?, ?)".into(),
    );
    q.requests.insert(
        "R6".into(),
        "SELECT MAX(request_number) FROM request_metadata WHERE endpoint_id = ?".into(),
    );
    q.responses.insert(
        "RES1".into(),
        "INSERT INTO response_metadata (endpoint_id, request_number, file_path, status_code, response_time_ms) VALUES (?, ?, ?, ?, ?)".into(),
    );
    q
}

fn open_db() -> (TempDir, EdmsCore) {
    let dir = TempDir::new().unwrap();
    let path = dir.path().join("edms.db");
    let mut core = EdmsCore::new(path.to_str().unwrap());
    core.connect().unwrap();
    initialize_schema_from_core(&mut core).unwrap();
    (dir, core)
}

fn msg(timeout_ms: u64, tick_interval_ms: u64) -> RunMessage {
    RunMessage {
        endpoint_id: "E1".into(),
        method: "get".into(),
        body: "null".into(),
        timeout_ms,
        tick_interval_ms,
    }
}

#[test]
fn timer_config_uses_defaults_for_zero() {
    assert_eq!(msg(0, 0).timer_config(), TimerConfig { limit_ms: 30_000, tick_interval_ms: 500 });
    assert_eq!(msg(1200, 0).timer_config(), TimerConfig { limit_ms: 1200, tick_interval_ms: 500 });
    assert_eq!(msg(0, 50).timer_config(), TimerConfig { limit_ms: 30_000, tick_interval_ms: 50 });
}

#[test]
fn verbs_are_read_in_any_case() {
    assert_eq!(parse_verb("get"), Some(HttpVerb::Get));
    assert_eq!(parse_verb("Patch"), Some(HttpVerb::Patch));
    assert_eq!(parse_verb("DELETE"), Some(HttpVerb::Delete));
    assert_eq!(parse_verb("trace"), None);
}

#[test]
fn test_view_sends_unknown_methods_as_post() {
    let p = test_view_request("options");
    assert_eq!(p.verb, HttpVerb::Post);
    assert!(p.with_body);
    let d = test_view_request("delete");
    assert_eq!(d.verb, HttpVerb::Delete);
    assert!(d.with_body);
    let h = test_view_request("head");
    assert_eq!(h.verb, HttpVerb::Head);
    assert!(!h.with_body);
}

#[test]
fn child_runs_send_unknown_methods_as_get() {
    let p = run_test_request("bogus");
    assert_eq!(p.verb, HttpVerb::Get);
    assert!(!p.with_body);
    let d = run_test_request("delete");
    assert_eq!(d.verb, HttpVerb::Delete);
    assert!(!d.with_body);
    let u = run_test_request("put");
    assert_eq!(u.verb, HttpVerb::Put);
    assert!(u.with_body);
}

#[test]
fn messages_and_names() {
    assert_eq!(timeout_message("E1", 3, 30_000), "E1 request #3 timed out after 30000ms");
    assert_eq!(http_error_message("E1", "connection refused"), "HTTP error for E1: connection refused");
    assert_eq!(response_file_name("E0001-AAA", 7), "E0001-AAA-response-7.json");
    assert_eq!(response_file_name("E1", -2), "E1-response--2.json");
    assert_eq!(history_details(200, 35), "200 in 35ms");
    assert_eq!(history_details(-1, 0), "-1 in 0ms");
}

#[test]
fn plan_of_a_timed_out_run() {
    let r = RunTestReport {
        endpoint_id: "E1".into(),
        request_number: 4,
        timed_out: true,
        status_code: 0,
        response_time_ms: 0,
    };
    match plan_run_test(r) {
        RunTestStep::TimedOut { endpoint_id, request_number } => {
            assert_eq!(endpoint_id, "E1");
            assert_eq!(request_number, 4);
        }
        other => panic!("unexpected step {other:?}"),
    }
}

#[test]
fn plan_of_a_finished_run_cuts_numbers_to_32_bits() {
    let r = RunTestReport {
        endpoint_id: "E1".into(),
        request_number: (1i64 << 32) + 5,
        timed_out: false,
        status_code: 201,
        response_time_ms: 12,
    };
    match plan_run_test(r) {
        RunTestStep::Finished { endpoint_id, request_number, status_code, response_time_ms, response_file_name } => {
            assert_eq!(endpoint_id, "E1");
            assert_eq!(request_number, 5);
            assert_eq!(status_code, 201);
            assert_eq!(response_time_ms, 12);
            assert_eq!(response_file_name, "E1-response-5.json");
        }
        other => panic!("unexpected step {other:?}"),
    }
}

#[test]
fn record_test_response_adds_history() {
    let (_dir, mut core) = open_db();
    let q = queries();
    assert_eq!(record_test_response(&mut core, &q, "E1", 1, "E1-response-1.json", 200, 35), Some(1));
    assert_eq!(record_test_response(&mut core, &q, "E1", 2, "E1-response-2.json", 404, 9), Some(2));
    assert_eq!(history_count(&mut core).unwrap(), 2);
    assert_eq!(list_history_endpoint_ids(&mut core).unwrap().len(), 2);
    let none = QueryMap::new();
    assert_eq!(record_test_response(&mut core, &none, "E2", 1, "E2-response-1.json", 200, 1), Some(3));
}

#[test]
fn record_test_response_needs_a_connection() {
    let mut core = EdmsCore::new("/nonexistent/edms.db");
    assert_eq!(record_test_response(&mut core, &queries(), "E1", 1, "f", 200, 1), None);
}

#[test]
fn prepare_and_register_requests() {
    let (_dir, mut core) = open_db();
    let q = queries();
    assert!(matches!(prepare_test_run(&mut core, &q, "E1"), Err(EdmsError::UnknownError)));
    let ep = EndpointDto { endpoint_id: "E1".into(), endpoint_str: "https://a/x".into(), annotation: None };
    insert_endpoint(&mut core, &q, &ep).unwrap();
    let (found, n) = prepare_test_run(&mut core, &q, "E1").unwrap();
    assert_eq!(found.endpoint_str, "https://a/x");
    assert_eq!(n, 1);
    register_request(&mut core, &q, "E1", n, "E1-request-1.json", "post").unwrap();
    let (_, n2) = prepare_test_run(&mut core, &q, "E1").unwrap();
    assert_eq!(n2, 2);
    assert!(matches!(register_request(&mut core, &QueryMap::new(), "E1", 2, "f", "get"), Err(EdmsError::UnknownError)));
}

#[test]
fn verb_named_takes_uppercase_names_only() {
    assert_eq!(edms::run_test::verb_named("HEAD"), Some(HttpVerb::Head));
    assert_eq!(edms::run_test::verb_named("PUT"), Some(HttpVerb::Put));
    assert_eq!(edms::run_test::verb_named("put"), None);
}
