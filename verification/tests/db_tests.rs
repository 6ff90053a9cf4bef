//! Tests of the database operations against real SQLite files.

use edms::db::{
    clear_bookmarks_active, clear_history, create_collection_from_active, delete_bookmark_active, delete_endpoint,
    endpoints_for_ids, get_endpoint, get_next_request_number, history_count, insert_bookmark_active,
    insert_endpoint, insert_history, insert_request_metadata, insert_response_metadata, list_bookmarked_endpoints_active,
    list_endpoints, list_history_endpoint_ids, load_collection_into_active, update_annotation, bookmarks_count_active,
    EndpointDto,
};
use edms::queries::QueryMap;
use edms::schema::{initialize_schema, initialize_schema_from_core};
use edms::store::{EdmsCore, EdmsError};
use tempfile::TempDir;

fn queries() -> QueryMap {
    let mut q = QueryMap::new();
    q.endpoints.insert(
        "E1".into(),
        "INSERT INTO endpoints (endpoint_id, endpoint_str, annotation) VALUES (?, ?, ?)".into(),
    );
    q.endpoints.insert(
        "E2".into(),
        "SELECT rowid, endpoint_id, endpoint_str, annotation FROM endpoints WHERE endpoint_id = ?".into(),
    );
    q.endpoints.insert(
        "E3".into(),
        "SELECT rowid, endpoint_id, endpoint_str, annotation FROM endpoints ORDER BY endpoint_id".into(),
    );
    q.endpoints.insert("E4".into(), "UPDATE endpoints SET annotation = ? WHERE endpoint_id = ?".into());
    q.endpoints.insert("E5".into(), "DELETE FROM endpoints WHERE endpoint_id = ?".into());
    q.requests.insert(
        "R1".into(),
        "INSERT INTO request_metadata (endpoint_id, request_number, file_path, method) VALUES (?, ?, ?, ?)".into(),
    );
    q.requests.insert(
        "R6".into(),
        "SELECT MAX(request_number) FROM request_metadata WHERE endpoint_id = ?".into(),
    );
    q.responses.insert(
        "RES1".into(),
        "INSERT INTO response_metadata (endpoint_id, request_number, file_path, status_code, response_time_ms) VALUES (?, ?, ?, ?, ?)".into(),
    );
    q
}

fn open_db() -> (TempDir, EdmsCore) {
    let dir = TempDir::new().unwrap();
    let path = dir.path().join("edms.db");
    let mut core = EdmsCore::new(path.to_str().unwrap());
    core.connect().unwrap();
    initialize_schema_from_core(&mut core).unwrap();
    (dir, core)
}

fn ep(id: &str, s: &str, ann: Option<&str>) -> EndpointDto {
    EndpointDto { endpoint_id: id.into(), endpoint_str: s.into(), annotation: ann.map(|a| a.to_string()) }
}

#[test]
fn endpoints_round_trip() {
    let (_d, mut core) = open_db();
    let q = queries();
    assert_eq!(insert_endpoint(&mut core, &q, &ep("E0001-AAA", "/a", None)).unwrap(), 1);
    assert_eq!(insert_endpoint(&mut core, &q, &ep("E0002-AAA", "/b", Some("note"))).unwrap(), 1);
    assert!(insert_endpoint(&mut core, &q, &ep("E0001-AAA", "/dup", None)).is_err());

    let got = get_endpoint(&mut core, &q, "E0002-AAA").unwrap().unwrap();
    assert_eq!(got.endpoint_str, "/b");
    assert_eq!(got.annotation.as_deref(), Some("note"));
    assert!(get_endpoint(&mut core, &q, "E9999").unwrap().is_none());

    assert_eq!(update_annotation(&mut core, &q, "E0001-AAA", "hello").unwrap(), 1);
    let all = list_endpoints(&mut core, &q).unwrap();
    assert_eq!(all.len(), 2);
    assert_eq!(all[0].annotation.as_deref(), Some("hello"));

    let some = endpoints_for_ids(&mut core, &q, &["E0002-AAA".into(), "E4242".into(), "E0001-AAA".into()]).unwrap();
    let ids: Vec<&str> = some.iter().map(|e| e.endpoint_id.as_str()).collect();
    assert_eq!(ids, vec!["E0002-AAA", "E0001-AAA"]);
    assert!(endpoints_for_ids(&mut core, &q, &[]).unwrap().is_empty());

    assert_eq!(delete_endpoint(&mut core, &q, "E0001-AAA").unwrap(), 1);
    assert_eq!(list_endpoints(&mut core, &q).unwrap().len(), 1);
}

#[test]
fn missing_query_or_closed_core_is_unknown_error() {
    let (_d, mut core) = open_db();
    let empty = QueryMap::new();
    assert!(matches!(insert_endpoint(&mut core, &empty, &ep("E1", "/", None)), Err(EdmsError::UnknownError)));
    assert!(matches!(list_endpoints(&mut core, &empty), Err(EdmsError::UnknownError)));
    assert!(matches!(endpoints_for_ids(&mut core, &empty, &["E1".into()]), Err(EdmsError::UnknownError)));
    core.disconnect().unwrap();
    assert!(matches!(history_count(&mut core), Err(EdmsError::UnknownError)));
    assert!(matches!(initialize_schema(&mut core), Err(EdmsError::UnknownError)));
}

#[test]
fn request_numbers_and_metadata() {
    let (_d, mut core) = open_db();
    let q = queries();
    assert_eq!(get_next_request_number(&mut core, &q, "E1").unwrap(), 1);
    insert_request_metadata(&mut core, &q, "E1", 1, "/r/1.json", "GET").unwrap();
    insert_request_metadata(&mut core, &q, "E1", 7, "/r/7.json", "GET").unwrap();
    assert_eq!(get_next_request_number(&mut core, &q, "E1").unwrap(), 8);
    insert_request_metadata(&mut core, &q, "E2", i32::MAX, "/r/max.json", "GET").unwrap();
    assert!(matches!(get_next_request_number(&mut core, &q, "E2"), Err(EdmsError::UnknownError)));
    assert_eq!(insert_response_metadata(&mut core, &q, "E1", 1, "/r/1-res.json", 200, Some(12)).unwrap(), 1);
    assert_eq!(insert_response_metadata(&mut core, &q, "E1", 7, "/r/7-res.json", 404, None).unwrap(), 1);
}

#[test]
fn history_rows() {
    let (_d, mut core) = open_db();
    assert_eq!(history_count(&mut core).unwrap(), 0);
    insert_history(&mut core, "E1", "created", None).unwrap();
    insert_history(&mut core, "E2", "tested", Some("ok")).unwrap();
    assert_eq!(history_count(&mut core).unwrap(), 2);
    let ids = list_history_endpoint_ids(&mut core).unwrap();
    assert_eq!(ids.len(), 2);
    assert_eq!(clear_history(&mut core).unwrap(), 2);
    assert_eq!(history_count(&mut core).unwrap(), 0);
}

#[test]
fn active_bookmarks_and_collections() {
    let (_d, mut core) = open_db();
    assert_eq!(bookmarks_count_active(&mut core).unwrap(), 0);
    insert_bookmark_active(&mut core, "E1", None).unwrap();
    insert_bookmark_active(&mut core, "E2", Some("n")).unwrap();
    assert_eq!(bookmarks_count_active(&mut core).unwrap(), 2);

    assert_eq!(create_collection_from_active(&mut core, "col-1").unwrap(), 2);

    assert_eq!(delete_bookmark_active(&mut core, "E1").unwrap(), 1);
    assert_eq!(list_bookmarked_endpoints_active(&mut core).unwrap(), vec!["E2".to_string()]);

    let (moved, loaded) = load_collection_into_active(&mut core, "col-1").unwrap();
    assert!(moved);
    assert_eq!(loaded, 2);
    let mut active = list_bookmarked_endpoints_active(&mut core).unwrap();
    active.sort();
    assert_eq!(active, vec!["E1".to_string(), "E2".to_string()]);

    assert_eq!(clear_bookmarks_active(&mut core).unwrap(), 2);
    let (moved, loaded) = load_collection_into_active(&mut core, "col-1").unwrap();
    assert!(!moved);
    assert_eq!(loaded, 2);
}

#[test]
fn copying_into_a_folder_that_has_the_endpoint_fails() {
    let (_d, mut core) = open_db();
    insert_bookmark_active(&mut core, "E1", None).unwrap();
    assert_eq!(create_collection_from_active(&mut core, "col-2").unwrap(), 1);
    assert!(matches!(create_collection_from_active(&mut core, "col-2"), Err(EdmsError::SqliteError(_))));
    clear_bookmarks_active(&mut core).unwrap();
    let (moved, loaded) = load_collection_into_active(&mut core, "col-2").unwrap();
    assert!(!moved);
    assert_eq!(loaded, 1);
}

#[test]
fn schema_is_idempotent() {
    let (_d, mut core) = open_db();
    initialize_schema(&mut core).unwrap();
    initialize_schema(&mut core).unwrap();
    assert_eq!(history_count(&mut core).unwrap(), 0);
}

#[test]
fn schema_migrates_old_layouts() {
    let dir = TempDir::new().unwrap();
    let path = dir.path().join("old.db");
    {
        let conn = rusqlite::Connection::open(&path).unwrap();
        conn.execute_batch(
            "CREATE TABLE endpoints (id INTEGER PRIMARY KEY, endpoint_id TEXT, endpoint_str TEXT NOT NULL, annotation TEXT, method TEXT, created_at TIMESTAMP, updated_at TIMESTAMP);
             INSERT INTO endpoints (endpoint_id, endpoint_str, method) VALUES ('E1', '/a', NULL);
             CREATE TABLE bookmarks (id INTEGER PRIMARY KEY, endpoint_id TEXT NOT NULL, folder TEXT, notes TEXT, timestamp TIMESTAMP);
             INSERT INTO bookmarks (endpoint_id, folder, notes) VALUES ('E1', 'f', NULL);
             INSERT INTO bookmarks (endpoint_id, folder, notes) VALUES ('E1', 'f', 'keep');",
        )
        .unwrap();
    }
    let mut core = EdmsCore::new(path.to_str().unwrap());
    core.connect().unwrap();
    initialize_schema(&mut core).unwrap();
    core.disconnect().unwrap();
    let conn = rusqlite::Connection::open(&path).unwrap();
    let method: String = conn.query_row("SELECT method FROM endpoints WHERE endpoint_id = 'E1'", [], |r| r.get(0)).unwrap();
    assert_eq!(method, "GET");
    let has_id: i64 = conn
        .query_row("SELECT COUNT(*) FROM pragma_table_info('endpoints') WHERE name = 'id'", [], |r| r.get(0))
        .unwrap();
    assert_eq!(has_id, 0);
    let notes: Vec<Option<String>> = {
        let mut st = conn.prepare("SELECT notes FROM bookmarks").unwrap();
        let rows = st.query_map([], |r| r.get(0)).unwrap();
        rows.map(|r| r.unwrap()).collect()
    };
    assert_eq!(notes, vec![Some("keep".to_string())]);
}
