//! Tests of report routing and the dashboard's grouped views.

use edms::api::{ChildTask, CrudOperationsRowOut};
use edms::callback::{ready_notice, requested_refresh, route_callback, view_refresh, CallbackRoute, JsonField, ReadyNotice};
use edms::dashboard::{group_crud_rows, missing_snapshot_message};

#[test]
fn failed_reports_become_errors() {
    match route_callback(false, "export_merge", Some("disk full")) {
        CallbackRoute::Failed { message } => assert_eq!(message, "IPC task 'export_merge' failed: disk full"),
        other => panic!("unexpected route {other:?}"),
    }
    match route_callback(false, "run_test", None) {
        CallbackRoute::Failed { message } => assert_eq!(message, "IPC task 'run_test' failed: unknown error"),
        other => panic!("unexpected route {other:?}"),
    }
}

#[test]
fn finished_reports_go_to_their_handler() {
    assert!(matches!(route_callback(true, "run_test", None), CallbackRoute::Handle { task: Some(ChildTask::RunTest) }));
    assert!(matches!(
        route_callback(true, "compute_crud_operations", None),
        CallbackRoute::Handle { task: Some(ChildTask::ComputeCrudOperations) }
    ));
    assert!(matches!(route_callback(true, "write_headers", None), CallbackRoute::Handle { task: None }));
    assert!(matches!(route_callback(true, "nonsense", Some("x")), CallbackRoute::Handle { task: None }));
}

#[test]
fn ready_notices() {
    assert_eq!(
        ready_notice(ChildTask::ExportCollection),
        Some(ReadyNotice::ExportReady { message: "Collection export complete".into() })
    );
    assert_eq!(
        ready_notice(ChildTask::ImportZip),
        Some(ReadyNotice::ImportReady { message: "Collection import complete".into() })
    );
    assert_eq!(
        ready_notice(ChildTask::GenerateMarkdown),
        Some(ReadyNotice::ExportReady { message: "Markdown generation complete".into() })
    );
    assert_eq!(ready_notice(ChildTask::ExportMerge), Some(ReadyNotice::ExportReady { message: "Merge export complete".into() }));
    assert_eq!(ready_notice(ChildTask::RunTest), None);
}

#[test]
fn view_refresh_reads_either_field() {
    assert_eq!(view_refresh(JsonField::Text("tags".into()), JsonField::Absent, Some(3)), Some(("tags".to_string(), 3)));
    assert_eq!(view_refresh(JsonField::Absent, JsonField::Text("Repo".into()), None), Some(("Repo".to_string(), 1)));
    assert_eq!(view_refresh(JsonField::Other, JsonField::Text("Repo".into()), Some(2)), None);
    assert_eq!(view_refresh(JsonField::Absent, JsonField::Absent, Some(2)), None);
}

fn row(e: &str, m: &str, c: i64) -> CrudOperationsRowOut {
    CrudOperationsRowOut { entity_type: e.into(), method: m.into(), count: c }
}

#[test]
fn crud_rows_grouped_by_entity() {
    let rows = vec![row("endpoint", "GET", 3), row("request", "POST", 2), row("endpoint", "POST", 1), row("request", "GET", 0)];
    let g = group_crud_rows(&rows);
    assert_eq!(g.len(), 2);
    assert_eq!(g[0].entity_type, "endpoint");
    assert_eq!(g[0].cells, vec![("GET".to_string(), 3), ("POST".to_string(), 1)]);
    assert_eq!(g[0].total, 4);
    assert_eq!(g[1].entity_type, "request");
    assert_eq!(g[1].total, 2);
    assert!(group_crud_rows(&[]).is_empty());
}

#[test]
fn missing_snapshot_messages() {
    assert_eq!(
        missing_snapshot_message("2024-01-01", "2024-02-01"),
        "no snapshot for 2024-01-01 — outside the 30-day retention window"
    );
    assert_eq!(missing_snapshot_message("2024-02-01", "2024-02-01"), "no snapshot for 2024-02-01 yet");
    assert_eq!(missing_snapshot_message("2024-03-01", "2024-02-01"), "no snapshot for 2024-03-01 yet");
}

#[test]
fn requested_refresh_defaults_to_general() {
    assert_eq!(requested_refresh(JsonField::Absent, JsonField::Absent, None), ("general".to_string(), 1));
    assert_eq!(requested_refresh(JsonField::Other, JsonField::Text("x".into()), Some(4)), ("general".to_string(), 4));
    assert_eq!(requested_refresh(JsonField::Absent, JsonField::Text("Tags".into()), Some(2)), ("Tags".to_string(), 2));
}
