//! Tests of the format reports.

use edms::table_view::ViewPurpose;
use edms::validate::{
    check_item_format, edms_tables_present, failed_check, is_sqlite_db_ext, is_valid_json_content, validate_bookmark_format,
    validate_webview_format, ComponentStatus, FileEntry, SqliteProbe,
};

fn valid() -> SqliteProbe {
    SqliteProbe::Opened {
        quick_check: Some("ok".into()),
        tables: vec!["endpoints".into(), "tags".into(), "bookmarks".into(), "history".into()],
    }
}

fn missing_tables() -> SqliteProbe {
    SqliteProbe::Opened { quick_check: Some("ok".into()), tables: vec!["endpoints".into(), "bookmarks".into()] }
}

fn integrity_failed() -> SqliteProbe {
    SqliteProbe::Opened { quick_check: Some("*** in database main ***".into()), tables: vec![] }
}

fn file(path: &str, ext: Option<&str>, sqlite: Option<SqliteProbe>, json: Option<bool>) -> FileEntry {
    FileEntry {
        path: path.to_string(),
        file_name: path.rsplit('/').next().unwrap().to_string(),
        extension: ext.map(|e| e.to_string()),
        sqlite,
        json_valid: json,
    }
}

#[test]
fn bookmark_folder_valid() {
    let files = vec![
        file("/c/collection.sqlite", Some("sqlite"), Some(valid()), None),
        file("/c/E1/req.json", Some("json"), None, Some(true)),
        file("/c/E1/res.JSON", Some("JSON"), None, Some(true)),
    ];
    let r = validate_bookmark_format(true, "/c", &files);
    assert!(r.passed);
    assert_eq!(r.sqlite_status, ComponentStatus::Pass);
    assert_eq!(r.edms_data_status, ComponentStatus::Pass);
    assert_eq!(
        r.details,
        vec![
            "Valid SQLite database verified: \"collection.sqlite\"".to_string(),
            "Verified 2 JSON data files successfully".to_string()
        ]
    );
}

#[test]
fn bookmark_folder_failures() {
    let files = vec![file("/c/data.json", Some("json"), None, Some(true))];
    let r = validate_bookmark_format(true, "/c", &files);
    assert!(!r.passed);
    assert_eq!(r.sqlite_status, ComponentStatus::Fail);
    assert_eq!(r.details[0], "No SQLite database (.sqlite / .db) found in target directory");

    let files = vec![
        file("/c/a.db", Some("db"), Some(missing_tables()), None),
        file("/c/b.sqlite", Some("sqlite"), Some(integrity_failed()), None),
        file("/c/c.sqlitedb", Some("SQLITEDB"), Some(SqliteProbe::OpenFailed("busy".into())), None),
        file("/c/bad.json", Some("json"), None, Some(false)),
        file("/c/gone.json", Some("json"), None, None),
    ];
    let r = validate_bookmark_format(true, "/c", &files);
    assert!(!r.passed);
    assert_eq!(r.sqlite_status, ComponentStatus::Fail);
    assert_eq!(r.edms_data_status, ComponentStatus::Fail);
    assert_eq!(
        r.details,
        vec![
            "SQLite database at \"a.db\" is missing required EDMS tables".to_string(),
            "SQLite integrity check failed for \"/c/b.sqlite\"".to_string(),
            "Failed to open SQLite database at \"/c/c.sqlitedb\": busy".to_string(),
            "Corrupted or invalid JSON file: \"/c/bad.json\"".to_string(),
            "Corrupted or invalid JSON file: \"/c/gone.json\"".to_string(),
        ]
    );

    let r = validate_bookmark_format(false, "/nope", &[]);
    assert!(!r.passed);
    assert_eq!(r.details, vec!["Directory does not exist: \"/nope\"".to_string()]);
}

#[test]
fn bookmark_scan_stops_at_first_valid_database() {
    let files = vec![
        file("/c/a.db", Some("db"), Some(valid()), None),
        file("/c/b.db", Some("db"), Some(integrity_failed()), None),
    ];
    let r = validate_bookmark_format(true, "/c", &files);
    assert!(r.passed);
    assert_eq!(r.details, vec!["Valid SQLite database verified: \"a.db\"".to_string()]);
}

#[test]
fn webview_folder() {
    let files = vec![
        file("/w/site.json", Some("json"), None, Some(true)),
        file("/w/endpoints.json", Some("json"), None, Some(true)),
    ];
    let r = validate_webview_format(true, "/w", &files);
    assert!(r.passed);
    assert_eq!(r.sqlite_status, ComponentStatus::NotApplicable);
    assert_eq!(r.details, vec!["Verified 2 WebView JSON data files successfully".to_string()]);

    let files = vec![
        file("/w/site.json", Some("json"), None, Some(true)),
        file("/w/rogue.sqlite", Some("sqlite"), None, None),
    ];
    let r = validate_webview_format(true, "/w", &files);
    assert!(!r.passed);
    assert_eq!(r.sqlite_status, ComponentStatus::Fail);
    assert_eq!(r.details[0], "WebView format violation: unexpected SQLite file found: \"/w/rogue.sqlite\"");

    let r = validate_webview_format(false, "/w", &[]);
    assert_eq!(r.sqlite_status, ComponentStatus::NotApplicable);
    assert_eq!(r.edms_data_status, ComponentStatus::Fail);
}

#[test]
fn dispatch_by_purpose_and_helpers() {
    let files = vec![file("/x/a.sqlite", Some("sqlite"), Some(valid()), None)];
    assert!(check_item_format(true, "/x", &files, ViewPurpose::Collections).passed);
    assert!(check_item_format(true, "/x", &files, ViewPurpose::RepoView).passed);
    assert!(!check_item_format(true, "/x", &files, ViewPurpose::WebView).passed);

    let r = failed_check("Path does not exist: \"/x\"".to_string());
    assert!(!r.passed && r.sqlite_status == ComponentStatus::Fail);

    assert!(is_sqlite_db_ext(Some("SQLite")));
    assert!(!is_sqlite_db_ext(Some("sqlite-wal")));
    assert!(!is_sqlite_db_ext(None));
    assert!(is_valid_json_content(Some("{\"a\":1}")));
    assert!(!is_valid_json_content(Some("{ invalid json:")));
    assert!(!is_valid_json_content(None));
}

#[test]
fn sqlite_db_names() {
    assert!(edms::validate::is_sqlite_db_name("sqlitedb"));
    assert!(!edms::validate::is_sqlite_db_name("sqlite-wal"));
    assert!(edms::validate::is_sqlite_db_ext(Some("DB")));
    assert!(!edms::validate::is_sqlite_db_ext(None));
}

#[test]
fn edms_tables_are_all_three() {
    assert!(edms_tables_present(&vec!["tags".into(), "bookmarks".into(), "endpoints".into()]));
    assert!(!edms_tables_present(&vec!["endpoints".into(), "collection_members".into()]));
    assert!(!edms_tables_present(&vec![]));
}
