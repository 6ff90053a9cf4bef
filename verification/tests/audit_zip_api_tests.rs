//! Tests of the orphan audit, archive-name handling, child task names and
//! the CRUD breakdown.

use edms::api::{compute_crud_operations, unknown_task_message, ApiError, ChildTask};
use edms::audit::{find_orphans, purge_orphaned_endpoints, purge_result, read_audit_ids};
use edms::schema::initialize_schema;
use edms::store::{EdmsCore, EdmsError};
use edms::text::sort_strings;
use edms::zipops::{active_folder_yaml, safe_relative_components, selected_by_eid, validate_identifier};
use tempfile::TempDir;

fn s(v: &[&str]) -> Vec<String> {
    v.iter().map(|x| x.to_string()).collect()
}

#[test]
fn orphans_are_found_and_sorted() {
    let f = find_orphans(
        &s(&["E0002-AAA", "E0001-AAA", "E0002-AAA"]),
        &s(&["E0001-AAA"]),
        &s(&["E9999-ZZZ", "E0001-AAA", "E0003-AAA", "E0002-AAA"]),
    );
    assert_eq!(f.total_disk_eids, 4);
    assert_eq!(f.total_db_endpoints, 2);
    assert_eq!(f.total_db_bookmarks, 1);
    assert_eq!(f.orphaned_disk_eids, s(&["E0003-AAA", "E9999-ZZZ"]));
    assert_eq!(f.orphaned_db_endpoints, s(&["E0002-AAA"]));
}

#[test]
fn sorting_matches_string_order() {
    let input = s(&["b", "a", "ab", "", "B", "é", "z", "aa", "a"]);
    let mut expected = input.clone();
    expected.sort();
    assert_eq!(sort_strings(input), expected);
}

#[test]
fn audit_and_purge_against_a_database() {
    let dir = TempDir::new().unwrap();
    let path = dir.path().join("edms.db");
    let mut core = EdmsCore::new(path.to_str().unwrap());
    core.connect().unwrap();
    initialize_schema(&mut core).unwrap();
    {
        let conn = rusqlite::Connection::open(&path).unwrap();
        conn.execute_batch(
            "INSERT INTO endpoints (endpoint_id, endpoint_str) VALUES ('E0001-AAA', '/a');
             INSERT INTO endpoints (endpoint_id, endpoint_str) VALUES ('E0002-AAA', '/b');
             INSERT INTO tags (endpoint_id, tag) VALUES ('E0002-AAA', 'obsolete');
             INSERT INTO tags (endpoint_id, tag) VALUES ('E0002-AAA', 'old');
             INSERT INTO bookmarks (endpoint_id, folder) VALUES ('E0001-AAA', 'col-1');",
        )
        .unwrap();
    }
    let (eps, bms) = read_audit_ids(&mut core).unwrap();
    let f = find_orphans(&eps, &bms, &s(&["E0001-AAA", "E8888-ZZZ"]));
    assert_eq!(f.orphaned_db_endpoints, s(&["E0002-AAA"]));
    assert_eq!(f.orphaned_disk_eids, s(&["E8888-ZZZ"]));

    let (ep_purged, tags_purged) = purge_orphaned_endpoints(&mut core, &f.orphaned_db_endpoints).unwrap();
    assert_eq!((ep_purged, tags_purged), (1, 2));
    let (eps, _) = read_audit_ids(&mut core).unwrap();
    assert_eq!(eps, s(&["E0001-AAA"]));

    let r = purge_result(1, ep_purged, tags_purged);
    assert!(r.success);
    assert_eq!(r.message, "Purge completed: 1 disk directories removed, 1 database endpoints deleted, 2 tags cleaned");

    core.disconnect().unwrap();
    assert!(matches!(purge_orphaned_endpoints(&mut core, &s(&["x"])), Err(EdmsError::UnknownError)));
}

#[test]
fn archive_entry_names_are_made_safe() {
    assert_eq!(safe_relative_components("a/b/c.txt"), s(&["a", "b", "c.txt"]));
    assert_eq!(safe_relative_components("/etc/passwd"), s(&["etc", "passwd"]));
    assert_eq!(safe_relative_components("../../x/../y"), s(&["x", "y"]));
    assert_eq!(safe_relative_components("dir/"), s(&["dir"]));
    assert_eq!(safe_relative_components(""), Vec::<String>::new());
    assert_eq!(safe_relative_components("./a//b"), s(&[".", "a", "b"]));
    assert_eq!(safe_relative_components("..."), s(&["..."]));
}

#[test]
fn bookmark_export_selection_and_identifiers() {
    let eids = s(&["eid123", "eid456"]);
    assert!(selected_by_eid("eid123_file.txt", &eids));
    assert!(selected_by_eid("eid456_file.txt", &eids));
    assert!(!selected_by_eid("other.txt", &eids));
    assert!(!selected_by_eid("eid12", &eids));
    assert!(!selected_by_eid("anything", &[]));

    assert!(validate_identifier("users_2024"));
    assert!(validate_identifier("Ünïcode"));
    assert!(validate_identifier(""));
    assert!(!validate_identifier("users; DROP TABLE x"));
    assert!(!validate_identifier("a-b"));

    assert_eq!(active_folder_yaml("test_folder"), "active_folder: test_folder\n");
}

#[test]
fn child_task_names() {
    assert_eq!(ChildTask::parse("export_collection"), Some(ChildTask::ExportCollection));
    assert_eq!(ChildTask::parse("purge_orphaned_eids"), Some(ChildTask::PurgeOrphanedEids));
    assert_eq!(ChildTask::parse("tagops_create_from_tags"), Some(ChildTask::TagopsCreateFromTags));
    assert_eq!(ChildTask::parse("unknown_task_xyz"), None);
    let m = unknown_task_message("unknown_task_xyz");
    assert_eq!(m, "unknown task: 'unknown_task_xyz'");
    assert!(m.contains("unknown task"));
}

#[test]
fn api_errors_map_to_statuses() {
    let (code, body) = ApiError::BadRequest("x".into()).into_parts();
    assert_eq!((code, body.error, body.message.as_str()), (400, "bad_request", "x"));
    let (code, body) = ApiError::NotFound("y".into()).into_parts();
    assert_eq!((code, body.error), (404, "not_found"));
    let (code, body) = ApiError::Internal("z".into()).into_parts();
    assert_eq!((code, body.error), (500, "internal_server_error"));
}

#[test]
fn crud_breakdown_counts_by_method() {
    let dir = TempDir::new().unwrap();
    let path = dir.path().join("edms.db");
    let mut core = EdmsCore::new(path.to_str().unwrap());
    core.connect().unwrap();
    initialize_schema(&mut core).unwrap();
    {
        let conn = rusqlite::Connection::open(&path).unwrap();
        conn.execute_batch(
            "INSERT INTO endpoints (endpoint_id, endpoint_str, method) VALUES ('E1', '/a', 'GET');
             INSERT INTO endpoints (endpoint_id, endpoint_str, method) VALUES ('E2', '/b', 'POST');
             INSERT INTO endpoints (endpoint_id, endpoint_str, method) VALUES ('E3', '/c', 'GET');
             INSERT INTO tags (endpoint_id, tag) VALUES ('E1', 't');",
        )
        .unwrap();
    }
    let res = compute_crud_operations(&mut core).unwrap();
    let mut rows: Vec<(String, String, i64)> =
        res.rows.iter().map(|r| (r.entity_type.clone(), r.method.clone(), r.count)).collect();
    rows.sort();
    assert_eq!(
        rows,
        vec![
            ("endpoint_segments".to_string(), "GET".to_string(), 2),
            ("endpoint_segments".to_string(), "POST".to_string(), 1),
            ("tags".to_string(), "GET".to_string(), 1),
        ]
    );
}
