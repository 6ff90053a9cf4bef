//! Tests of the imports table helpers.

use edms::table_view::{
    dest_folder_name, format_size, infer_purpose, is_stripped_in_takeout, move_result, purpose_from_lowercase,
    takeout_collision, takeout_done, takeout_start, TakeoutStart, ViewPurpose,
};

#[test]
fn test_size_helpers() {
    assert_eq!(format_size(500), "500 B");
    assert_eq!(format_size(1536), "1.50 KB");
    assert_eq!(format_size(2 * 1024 * 1024), "2.00 MB");
}

fn float_format(bytes: u64) -> String {
    const KB: u64 = 1024;
    const MB: u64 = 1024 * KB;
    const GB: u64 = 1024 * MB;
    if bytes >= GB {
        format!("{:.2} GB", bytes as f64 / GB as f64)
    } else if bytes >= MB {
        format!("{:.2} MB", bytes as f64 / MB as f64)
    } else if bytes >= KB {
        format!("{:.2} KB", bytes as f64 / KB as f64)
    } else {
        format!("{} B", bytes)
    }
}

#[test]
fn format_size_matches_float_formatting() {
    let mut samples: Vec<u64> = vec![
        0, 1, 9, 10, 1023, 1024, 1025, 1034, 1035, 1152, 1280, 1536, 1546, 1547, 10_000, 1_048_575, 1_048_576,
        1_053_818, 1_179_648, 5_000_000, 1_073_741_823, 1_073_741_824, 1_084_479_242, 1_207_959_552,
        5_000_000_000, 9_007_199_254_740_991, 9_007_199_254_740_993, 18_014_398_509_481_985,
        u64::MAX / 3, u64::MAX - 1, u64::MAX,
    ];
    let mut x: u64 = 0x9E37_79B9_7F4A_7C15;
    for _ in 0..2000 {
        x ^= x << 13;
        x ^= x >> 7;
        x ^= x << 17;
        samples.push(x >> (x % 60));
    }
    for b in samples {
        assert_eq!(format_size(b), float_format(b), "bytes = {}", b);
    }
}

#[test]
fn format_size_exact_values() {
    assert_eq!(format_size(1152), "1.12 KB");
    assert_eq!(format_size(1024), "1.00 KB");
    assert_eq!(format_size(1023), "1023 B");
    assert_eq!(format_size(3 * 1024 * 1024 * 1024), "3.00 GB");
    assert_eq!(format_size(u64::MAX), "17179869184.00 GB");
}

#[test]
fn infer_purpose_by_path_names() {
    assert_eq!(infer_purpose("/imports/Collections/a.zip"), Some(ViewPurpose::Collections));
    assert_eq!(infer_purpose("/imports/repoview/x"), Some(ViewPurpose::RepoView));
    assert_eq!(infer_purpose("/imports/my-REPO/x"), Some(ViewPurpose::RepoView));
    assert_eq!(infer_purpose("/imports/WebView/site"), Some(ViewPurpose::WebView));
    assert_eq!(infer_purpose("/imports/other/thing"), None);
    assert_eq!(infer_purpose("/collection/repo/webview"), Some(ViewPurpose::Collections));
    assert_eq!(purpose_from_lowercase("WEBVIEW"), None);
}

#[test]
fn move_and_takeout_helpers() {
    assert_eq!(dest_folder_name(ViewPurpose::Collections), "collections");
    assert_eq!(dest_folder_name(ViewPurpose::RepoView), "repoview");
    assert_eq!(dest_folder_name(ViewPurpose::WebView), "webview");

    let m = move_result("a.zip", "/s/collections/a");
    assert!(m.success);
    assert_eq!(m.message, "Successfully moved \"a.zip\" to \"/s/collections/a\"");

    for (ext, stripped) in [
        (Some("sqlite"), true),
        (Some("SQLITE-WAL"), true),
        (Some("sqlite-shm"), true),
        (Some("Db"), true),
        (Some("sqlitedb"), true),
        (Some("json"), false),
        (Some("md"), false),
        (None, false),
    ] {
        assert_eq!(is_stripped_in_takeout(ext), stripped, "{:?}", ext);
    }

    assert_eq!(takeout_start(false, false), TakeoutStart::Fresh);
    assert_eq!(takeout_start(true, true), TakeoutStart::Replace);
    assert_eq!(takeout_start(true, false), TakeoutStart::Collision);

    let c = takeout_collision("/s/takeout/x", "x");
    assert!(!c.success && c.collision);
    assert_eq!(c.message, "Destination folder already exists: \"x\". Rename or enable overwrite.");

    let d = takeout_done("/s/takeout/x", 2, 3);
    assert!(d.success && !d.collision);
    assert_eq!(d.message, "Takeout complete: 2 files copied, 3 SQLite database files stripped");
}

fn cand(rel: &str, full: &str, has_file: bool) -> edms::table_view::DirCandidate {
    edms::table_view::DirCandidate { relative_path: rel.into(), full_path: full.into(), has_file }
}

#[test]
fn uncompressed_selection_rule() {
    let cands = vec![
        cand("top", "/r/top", false),
        cand("leaf", "/r/leaf", true),
        cand("top/inner", "/r/top/inner", false),
        cand("a\\b", "/r/a\\b", false),
        cand("top/inner", "/r/top/inner", true),
        cand("x/y/z", "/r/x/y/z", false),
    ];
    assert_eq!(edms::table_view::select_uncompressed(&cands), vec![1, 2, 3, 5]);
    assert!(edms::table_view::select_uncompressed(&[]).is_empty());
}

#[test]
fn zip_extension_in_any_case() {
    assert!(edms::table_view::is_zip_extension(Some("zip")));
    assert!(edms::table_view::is_zip_extension(Some("ZiP")));
    assert!(!edms::table_view::is_zip_extension(Some("zipx")));
    assert!(!edms::table_view::is_zip_extension(None));
}

#[test]
fn sqlite_family_names() {
    assert!(edms::table_view::is_sqlite_family_name("sqlite-wal"));
    assert!(edms::table_view::is_sqlite_family_name("db"));
    assert!(!edms::table_view::is_sqlite_family_name("SQLITE"));
    assert!(!edms::table_view::is_sqlite_family_name("json"));
    assert!(edms::table_view::is_stripped_in_takeout(Some("SQLite-SHM")));
}

fn entry(is_dir: bool, is_file: bool, ext: Option<&str>) -> edms::table_view::TakeoutEntry {
    edms::table_view::TakeoutEntry { is_dir, is_file, extension: ext.map(|e| e.to_string()) }
}

#[test]
fn takeout_plan_copies_all_but_sqlite() {
    let entries = vec![
        entry(true, false, None),
        entry(false, true, Some("json")),
        entry(false, true, Some("SQLite")),
        entry(false, true, Some("sqlite-wal")),
        entry(false, true, None),
        entry(false, false, Some("db")),
    ];
    let (actions, copied, stripped) = edms::table_view::takeout_plan(&entries);
    assert_eq!(copied, 2);
    assert_eq!(stripped, 2);
    assert_eq!(
        actions,
        vec![
            edms::table_view::TakeoutAction::MakeDir,
            edms::table_view::TakeoutAction::Copy,
            edms::table_view::TakeoutAction::Strip,
            edms::table_view::TakeoutAction::Strip,
            edms::table_view::TakeoutAction::Copy,
            edms::table_view::TakeoutAction::Skip,
        ]
    );
}

#[test]
fn move_message_quotes_paths_as_paths() {
    let m = move_result("it's.zip", "/s/collections/it's");
    assert_eq!(m.message, "Successfully moved \"it's.zip\" to \"/s/collections/it's\"");
}
