//! Format validation of stored collections and webviews. A walk of the
//! folder (done by the caller) lists its files, with the outcome of probing
//! each SQLite database and of parsing each JSON file; the report is built
//! from that list here.
use vstd::prelude::*;
use crate::text::{
    strings_view, lowercase, to_lowercase, path_debug_quoted, debug_path, str_eq, concat, append_str, push_decimal,
    decimal, chars_of, contains_text,
};

verus! {

/// The verdict on one component of a format.
#[derive(Debug, Clone, Copy, PartialEq, Eq, Structural)]
pub enum ComponentStatus {
    Pass,
    Fail,
    NotApplicable,
}

/// The verdict on a folder's format, with the findings behind it.
#[derive(Debug, Clone)]
pub struct ValidationReport {
    pub passed: bool,
    pub sqlite_status: ComponentStatus,
    pub edms_data_status: ComponentStatus,
    pub details: Vec<String>,
}

impl View for ValidationReport {
    type V = (bool, ComponentStatus, ComponentStatus, Seq<Seq<char>>);

    open spec fn view(&self) -> Self::V {
        (self.passed, self.sqlite_status, self.edms_data_status, strings_view(self.details@))
    }
}

/// What probing a SQLite database file found.
#[derive(Debug, Clone)]
pub enum SqliteProbe {
    /// It could not be opened; the error's text.
    OpenFailed(String),
    /// It was opened: the answer of `PRAGMA quick_check` (none when it could
    /// not be read) and the names of its tables.
    Opened { quick_check: Option<String>, tables: Vec<String> },
}

/// A database holds the tables every EDMS collection needs: `endpoints`,
/// `tags` and `bookmarks`.
pub open spec fn has_edms_tables(tables: Seq<Seq<char>>) -> bool {
    tables.contains("endpoints"@) && tables.contains("tags"@) && tables.contains("bookmarks"@)
}

/// The integrity check passed: it answered `ok`.
pub open spec fn is_intact(quick_check: Option<String>) -> bool {
    quick_check matches Some(a) && a@ == "ok"@
}

/// One file found by the walk of a folder.
#[derive(Debug, Clone)]
pub struct FileEntry {
    /// The file's path, as the findings show it.
    pub path: String,
    /// The file's name.
    pub file_name: String,
    /// Its extension, when it has one that is UTF-8.
    pub extension: Option<String>,
    /// The probe of a SQLite database file (none: it could not be opened).
    pub sqlite: Option<SqliteProbe>,
    /// Whether a JSON file parses (none: it could not be read).
    pub json_valid: Option<bool>,
}

/// The lowercased extensions of SQLite database files.
pub open spec fn is_sqlite_db(lower: Seq<char>) -> bool {
    lower == "sqlite"@ || lower == "db"@ || lower == "sqlitedb"@
}

pub open spec fn names_sqlite_db(ext: Option<String>) -> bool {
    ext matches Some(e) && is_sqlite_db(lowercase(e@))
}

pub open spec fn ascii_lower(c: char) -> char {
    if 'A' <= c && c <= 'Z' { ((c as u8) + 32u8) as char } else { c }
}

/// `a` and `b` are equal but for ASCII letter case.
pub open spec fn eq_ignore_ascii_case(a: Seq<char>, b: Seq<char>) -> bool {
    a.len() == b.len() && forall|i: int| 0 <= i < a.len() ==> ascii_lower(#[trigger] a[i]) == ascii_lower(b[i])
}

pub open spec fn names_json_ascii(ext: Option<String>) -> bool {
    ext matches Some(e) && eq_ignore_ascii_case(e@, "json"@)
}

pub open spec fn names_json_lower(ext: Option<String>) -> bool {
    ext matches Some(e) && lowercase(e@) == "json"@
}

pub open spec fn json_ok(f: FileEntry) -> bool {
    f.json_valid == Some(true)
}

pub open spec fn invalid_json_msg(f: FileEntry) -> Seq<char> {
    "Corrupted or invalid JSON file: "@ + path_debug_quoted(f.path@)
}

/// The finding for a probed SQLite file, and whether it is a valid one.
pub open spec fn probe_finding(f: FileEntry) -> (bool, Seq<char>) {
    match f.sqlite {
        Some(SqliteProbe::Opened { quick_check, tables }) => if !is_intact(quick_check) {
            (false, "SQLite integrity check failed for "@ + path_debug_quoted(f.path@))
        } else if has_edms_tables(strings_view(tables@)) {
            (true, "Valid SQLite database verified: "@ + path_debug_quoted(f.file_name@))
        } else {
            (false, "SQLite database at "@ + path_debug_quoted(f.file_name@) + " is missing required EDMS tables"@)
        },
        Some(SqliteProbe::OpenFailed(e)) => (false, "Failed to open SQLite database at "@ + path_debug_quoted(f.path@) + ": "@ + e@),
        None => (false, "Failed to open SQLite database at "@ + path_debug_quoted(f.path@) + ": "@),
    }
}

/// The SQLite pass over `files[..n]`: whether a database was found,
/// whether a valid one was (the pass stops there), and the findings.
pub open spec fn sqlite_pass(files: Seq<FileEntry>, n: int) -> (bool, bool, Seq<Seq<char>>)
    decreases n,
{
    if n <= 0 {
        (false, false, seq![])
    } else {
        let (found, valid, d) = sqlite_pass(files, n - 1);
        let f = files[n - 1];
        if valid || !names_sqlite_db(f.extension) {
            (found, valid, d)
        } else {
            let (ok, msg) = probe_finding(f);
            (true, ok, d.push(msg))
        }
    }
}

/// The JSON pass over `files[..n]` (JSON files recognised by `is_json`):
/// how many there are, whether all parse, and the findings.
pub open spec fn json_pass(files: Seq<FileEntry>, n: int, lower_match: bool) -> (int, bool, Seq<Seq<char>>)
    decreases n,
{
    if n <= 0 {
        (0, true, seq![])
    } else {
        let (count, valid, d) = json_pass(files, n - 1, lower_match);
        let f = files[n - 1];
        let is_json = if lower_match { names_json_lower(f.extension) } else { names_json_ascii(f.extension) };
        if !is_json {
            (count, valid, d)
        } else if json_ok(f) {
            (count + 1, valid, d)
        } else {
            (count + 1, false, d.push(invalid_json_msg(f)))
        }
    }
}

pub open spec fn status_of(pass: bool) -> ComponentStatus {
    if pass { ComponentStatus::Pass } else { ComponentStatus::Fail }
}

/// The report on a collection (or repo) folder: it needs a valid SQLite
/// database with the EDMS tables, and every JSON file must parse.
pub open spec fn bookmark_report_spec(root_exists: bool, root: Seq<char>, files: Seq<FileEntry>) -> (bool, ComponentStatus, ComponentStatus, Seq<Seq<char>>) {
    if !root_exists {
        (false, ComponentStatus::Fail, ComponentStatus::Fail, seq!["Directory does not exist: "@ + path_debug_quoted(root)])
    } else {
        let (found, valid, d1) = sqlite_pass(files, files.len() as int);
        let d2 = if found { d1 } else { d1.push("No SQLite database (.sqlite / .db) found in target directory"@) };
        let (count, data_ok, d3) = json_pass(files, files.len() as int, false);
        let d4 = if data_ok && count > 0 {
            d2 + d3 + seq!["Verified "@ + decimal(count as nat) + " JSON data files successfully"@]
        } else {
            d2 + d3
        };
        (found && valid && data_ok, status_of(found && valid), status_of(data_ok), d4)
    }
}

/// The webview pass over `files[..n]`: whether a SQLite database was
/// found, how many JSON files there are, whether all parse, and the
/// findings in file order.
pub open spec fn webview_pass(files: Seq<FileEntry>, n: int) -> (bool, int, bool, Seq<Seq<char>>)
    decreases n,
{
    if n <= 0 {
        (false, 0, true, seq![])
    } else {
        let (found, count, valid, d) = webview_pass(files, n - 1);
        let f = files[n - 1];
        if names_sqlite_db(f.extension) {
            (true, count, valid, d.push("WebView format violation: unexpected SQLite file found: "@ + path_debug_quoted(f.path@)))
        } else if names_json_lower(f.extension) {
            if json_ok(f) {
                (found, count + 1, valid, d)
            } else {
                (found, count + 1, false, d.push(invalid_json_msg(f)))
            }
        } else {
            (found, count, valid, d)
        }
    }
}

/// The report on a webview folder: it may hold no SQLite database, and
/// every JSON file must parse.
pub open spec fn webview_report_spec(root_exists: bool, root: Seq<char>, files: Seq<FileEntry>) -> (bool, ComponentStatus, ComponentStatus, Seq<Seq<char>>) {
    if !root_exists {
        (false, ComponentStatus::NotApplicable, ComponentStatus::Fail, seq!["Directory does not exist: "@ + path_debug_quoted(root)])
    } else {
        let (found, count, data_ok, d) = webview_pass(files, files.len() as int);
        let d2 = if data_ok && count > 0 {
            d.push("Verified "@ + decimal(count as nat) + " WebView JSON data files successfully"@)
        } else {
            d
        };
        (!found && data_ok, if found { ComponentStatus::Fail } else { ComponentStatus::NotApplicable }, status_of(data_ok), d2)
    }
}

/// Whether `ext`, lowercased, names a SQLite database file.
pub fn is_sqlite_db_ext(ext: Option<&str>) -> (b: bool)
    ensures
        b == (ext matches Some(e) && is_sqlite_db(lowercase(e@))),
{
    match ext {
        None => false,
        Some(e) => {
            let lower = to_lowercase(e);
            is_sqlite_db_name(lower.as_str())
        },
    }
}

/// Whether a lowercased extension names a SQLite database file
/// (`is_sqlite_db`).
pub fn is_sqlite_db_name(lower: &str) -> (b: bool)
    ensures
        b == is_sqlite_db(lower@),
{
    str_eq(lower, "sqlite") || str_eq(lower, "db") || str_eq(lower, "sqlitedb")
}

fn ascii_lower_char(c: char) -> (r: char)
    ensures
        r == ascii_lower(c),
{
    if 'A' <= c && c <= 'Z' {
        ((c as u8) + 32u8) as char
    } else {
        c
    }
}

/// Whether `a` and `b` are equal but for ASCII letter case (`str::eq_ignore_ascii_case`).
pub fn eq_ignore_ascii_case_exec(a: &str, b: &str) -> (r: bool)
    ensures
        r == eq_ignore_ascii_case(a@, b@),
{
    let av = chars_of(a);
    let bv = chars_of(b);
    if av.len() != bv.len() {
        return false;
    }
    let mut i: usize = 0;
    while i < av.len()
        invariant
            av@ == a@,
            bv@ == b@,
            av@.len() == bv@.len(),
            i <= av@.len(),
            forall|k: int| 0 <= k < i ==> ascii_lower(#[trigger] a@[k]) == ascii_lower(b@[k]),
        decreases av@.len() - i,
    {
        if ascii_lower_char(av[i]) != ascii_lower_char(bv[i]) {
            return false;
        }
        i += 1;
    }
    true
}

fn sqlite_ext(f: &FileEntry) -> (b: bool)
    ensures
        b == names_sqlite_db(f.extension),
{
    match &f.extension {
        None => false,
        Some(e) => is_sqlite_db_ext(Some(e.as_str())),
    }
}

fn json_ext_lower(f: &FileEntry) -> (b: bool)
    ensures
        b == names_json_lower(f.extension),
{
    match &f.extension {
        None => false,
        Some(e) => {
            let lower = to_lowercase(e.as_str());
            str_eq(lower.as_str(), "json")
        },
    }
}

fn json_ext_ascii(f: &FileEntry) -> (b: bool)
    ensures
        b == names_json_ascii(f.extension),
{
    match &f.extension {
        None => false,
        Some(e) => eq_ignore_ascii_case_exec(e.as_str(), "json"),
    }
}

fn json_is_ok(f: &FileEntry) -> (b: bool)
    ensures
        b == json_ok(*f),
{
    match f.json_valid {
        Some(v) => v,
        None => false,
    }
}

fn invalid_json_finding(f: &FileEntry) -> (m: String)
    ensures
        m@ == invalid_json_msg(*f),
{
    concat("Corrupted or invalid JSON file: ", debug_path(f.path.as_str()).as_str())
}

/// Whether `tables` names all the tables of an EDMS collection
/// (`has_edms_tables`).
pub fn edms_tables_present(tables: &Vec<String>) -> (b: bool)
    ensures
        b == has_edms_tables(strings_view(tables@)),
{
    contains_text(tables, "endpoints") && contains_text(tables, "tags") && contains_text(tables, "bookmarks")
}

fn probe_message(f: &FileEntry) -> (r: (bool, String))
    ensures
        (r.0, r.1@) == probe_finding(*f),
{
    match &f.sqlite {
        Some(SqliteProbe::Opened { quick_check, tables }) => {
            let intact = match quick_check {
                Some(a) => str_eq(a.as_str(), "ok"),
                None => false,
            };
            if !intact {
                (false, concat("SQLite integrity check failed for ", debug_path(f.path.as_str()).as_str()))
            } else if edms_tables_present(tables) {
                (true, concat("Valid SQLite database verified: ", debug_path(f.file_name.as_str()).as_str()))
            } else {
                let mut m = concat("SQLite database at ", debug_path(f.file_name.as_str()).as_str());
                append_str(&mut m, " is missing required EDMS tables");
                (false, m)
            }
        },
        Some(SqliteProbe::OpenFailed(e)) => {
            let mut m = concat("Failed to open SQLite database at ", debug_path(f.path.as_str()).as_str());
            append_str(&mut m, ": ");
            append_str(&mut m, e.as_str());
            (false, m)
        },
        None => {
            let mut m = concat("Failed to open SQLite database at ", debug_path(f.path.as_str()).as_str());
            append_str(&mut m, ": ");
            (false, m)
        },
    }
}

fn verified_count_message(count: usize, webview: bool) -> (m: String)
    ensures
        m@ == "Verified "@ + decimal(count as nat) + (if webview { " WebView JSON data files successfully"@ } else {
            " JSON data files successfully"@
        }),
{
    let mut m = String::new();
    append_str(&mut m, "Verified ");
    push_decimal(&mut m, count as u128);
    if webview {
        append_str(&mut m, " WebView JSON data files successfully");
    } else {
        append_str(&mut m, " JSON data files successfully");
    }
    m
}

fn missing_root_report(root: &str, sqlite_status: ComponentStatus) -> (r: ValidationReport)
    ensures
        r@ == (false, sqlite_status, ComponentStatus::Fail, seq!["Directory does not exist: "@ + path_debug_quoted(root@)]),
{
    let d = vec![concat("Directory does not exist: ", debug_path(root).as_str())];
    let r = ValidationReport { passed: false, sqlite_status, edms_data_status: ComponentStatus::Fail, details: d };
    assert(strings_view(r.details@) =~= seq!["Directory does not exist: "@ + path_debug_quoted(root@)]);
    r
}

fn push_finding(details: &mut Vec<String>, m: String)
    ensures
        strings_view(final(details)@) == strings_view(old(details)@).push(m@),
{
    details.push(m);
    assert(strings_view(details@) =~= strings_view(old(details)@).push(m@));
}

/// The report on a collection (or repo) folder (`bookmark_report_spec`).
pub fn validate_bookmark_format(root_exists: bool, root: &str, files: &[FileEntry]) -> (r: ValidationReport)
    ensures
        r@ == bookmark_report_spec(root_exists, root@, files@),
{
    if !root_exists {
        return missing_root_report(root, ComponentStatus::Fail);
    }
    let mut details: Vec<String> = Vec::new();
    let mut found = false;
    let mut valid = false;
    let mut i: usize = 0;
    while i < files.len()
        invariant
            i <= files@.len(),
            (found, valid, strings_view(details@)) == sqlite_pass(files@, i as int),
        decreases files@.len() - i,
    {
        if !valid && sqlite_ext(&files[i]) {
            let (ok, m) = probe_message(&files[i]);
            found = true;
            valid = ok;
            push_finding(&mut details, m);
        }
        i += 1;
    }
    if !found {
        push_finding(&mut details, "No SQLite database (.sqlite / .db) found in target directory".to_owned());
    }
    let ghost d2 = strings_view(details@);
    let mut count: usize = 0;
    let mut data_ok = true;
    let mut i: usize = 0;
    assert(strings_view(details@) =~= d2 + json_pass(files@, 0, false).2);
    while i < files.len()
        invariant
            i <= files@.len(),
            count <= i,
            (count as int, data_ok) == (json_pass(files@, i as int, false).0, json_pass(files@, i as int, false).1),
            strings_view(details@) == d2 + json_pass(files@, i as int, false).2,
        decreases files@.len() - i,
    {
        if json_ext_ascii(&files[i]) {
            count = count + 1;
            if !json_is_ok(&files[i]) {
                data_ok = false;
                let m = invalid_json_finding(&files[i]);
                push_finding(&mut details, m);
                assert(strings_view(details@) =~= d2 + json_pass(files@, i + 1, false).2);
            }
        }
        i += 1;
    }
    if data_ok && count > 0 {
        push_finding(&mut details, verified_count_message(count, false));
    }
    let sqlite_ok = found && valid;
    let r = ValidationReport {
        passed: sqlite_ok && data_ok,
        sqlite_status: if sqlite_ok { ComponentStatus::Pass } else { ComponentStatus::Fail },
        edms_data_status: if data_ok { ComponentStatus::Pass } else { ComponentStatus::Fail },
        details,
    };
    proof {
        let (c, ok, d3) = json_pass(files@, files@.len() as int, false);
        if ok && c > 0 {
            assert(r@.3 =~= d2 + d3 + seq!["Verified "@ + decimal(c as nat) + " JSON data files successfully"@]);
        }
    }
    r
}

/// The report on a webview folder (`webview_report_spec`).
pub fn validate_webview_format(root_exists: bool, root: &str, files: &[FileEntry]) -> (r: ValidationReport)
    ensures
        r@ == webview_report_spec(root_exists, root@, files@),
{
    if !root_exists {
        return missing_root_report(root, ComponentStatus::NotApplicable);
    }
    let mut details: Vec<String> = Vec::new();
    let mut found = false;
    let mut count: usize = 0;
    let mut data_ok = true;
    let mut i: usize = 0;
    while i < files.len()
        invariant
            i <= files@.len(),
            count <= i,
            (found, count as int, data_ok, strings_view(details@)) == webview_pass(files@, i as int),
        decreases files@.len() - i,
    {
        if sqlite_ext(&files[i]) {
            found = true;
            let m = concat("WebView format violation: unexpected SQLite file found: ", debug_path(files[i].path.as_str()).as_str());
            push_finding(&mut details, m);
        } else if json_ext_lower(&files[i]) {
            count = count + 1;
            if !json_is_ok(&files[i]) {
                data_ok = false;
                let m = invalid_json_finding(&files[i]);
                push_finding(&mut details, m);
            }
        }
        i += 1;
    }
    if data_ok && count > 0 {
        push_finding(&mut details, verified_count_message(count, true));
    }
    ValidationReport {
        passed: !found && data_ok,
        sqlite_status: if found { ComponentStatus::Fail } else { ComponentStatus::NotApplicable },
        edms_data_status: if data_ok { ComponentStatus::Pass } else { ComponentStatus::Fail },
        details,
    }
}

/// What `serde_json::from_str::<serde_json::Value>` decides for `s`:
/// whether it is one JSON document.
pub uninterp spec fn json_parses(s: Seq<char>) -> bool;

/// Whether `s` parses as a JSON document (`serde_json::from_str` into
/// `serde_json::Value`); named by `json_parses`.
#[verifier::external_body]
fn parses_as_json(s: &str) -> (b: bool)
    ensures
        b == json_parses(s@),
{
    serde_json::from_str::<serde_json::Value>(s).is_ok()
}

/// Whether a file's content (none: it could not be read) is a valid JSON
/// document.
pub fn is_valid_json_content(content: Option<&str>) -> (b: bool)
    ensures
        b == (content matches Some(c) && json_parses(c@)),
{
    match content {
        None => false,
        Some(c) => parses_as_json(c),
    }
}

/// The report on a folder for the given view purpose: collections and
/// repos are checked as bookmark folders, webviews as webview folders.
pub fn check_item_format(root_exists: bool, root: &str, files: &[FileEntry], purpose: crate::table_view::ViewPurpose) -> (r: ValidationReport)
    ensures
        r@ == (match purpose {
            crate::table_view::ViewPurpose::WebView => webview_report_spec(root_exists, root@, files@),
            _ => bookmark_report_spec(root_exists, root@, files@),
        }),
{
    match purpose {
        crate::table_view::ViewPurpose::WebView => validate_webview_format(root_exists, root, files),
        _ => validate_bookmark_format(root_exists, root, files),
    }
}

/// The report on an item that cannot be checked (it does not exist, or
/// its archive cannot be unpacked): everything fails, with one finding.
pub fn failed_check(finding: String) -> (r: ValidationReport)
    ensures
        r@ == (false, ComponentStatus::Fail, ComponentStatus::Fail, seq![finding@]),
{
    let r = ValidationReport {
        passed: false,
        sqlite_status: ComponentStatus::Fail,
        edms_data_status: ComponentStatus::Fail,
        details: vec![finding],
    };
    assert(strings_view(r.details@) =~= seq![r.details@[0]@]);
    r
}

proof fn lemma_json_pass_all_ok(files: Seq<FileEntry>, n: int, lower_match: bool)
    requires
        0 <= n <= files.len(),
    ensures
        json_pass(files, n, lower_match).1 <==> forall|i: int| 0 <= i < n && (if lower_match {
            names_json_lower(files[i].extension)
        } else {
            names_json_ascii(files[i].extension)
        }) ==> #[trigger] json_ok(files[i]),
    decreases n,
{
    if n > 0 {
        lemma_json_pass_all_ok(files, n - 1, lower_match);
    }
}

proof fn lemma_sqlite_pass_valid(files: Seq<FileEntry>, n: int)
    requires
        0 <= n <= files.len(),
    ensures
        sqlite_pass(files, n).1 <==> exists|i: int| 0 <= i < n && names_sqlite_db(files[i].extension)
            && #[trigger] probe_finding(files[i]).0,
        sqlite_pass(files, n).1 ==> sqlite_pass(files, n).0,
    decreases n,
{
    if n > 0 {
        lemma_sqlite_pass_valid(files, n - 1);
        let (found, valid, d) = sqlite_pass(files, n - 1);
        if valid {
            let i = choose|i: int| 0 <= i < n - 1 && names_sqlite_db(files[i].extension) && #[trigger] probe_finding(files[i]).0;
            assert(0 <= i < n && names_sqlite_db(files[i].extension) && probe_finding(files[i]).0);
        } else if names_sqlite_db(files[n - 1].extension) && probe_finding(files[n - 1]).0 {
            assert(0 <= n - 1 < n && names_sqlite_db(files[n - 1].extension) && probe_finding(files[n - 1]).0);
        }
    }
}

proof fn lemma_webview_pass(files: Seq<FileEntry>, n: int)
    requires
        0 <= n <= files.len(),
    ensures
        webview_pass(files, n).0 <==> exists|i: int| 0 <= i < n && #[trigger] names_sqlite_db(files[i].extension),
        webview_pass(files, n).2 <==> forall|i: int| 0 <= i < n && names_json_lower(files[i].extension)
            ==> #[trigger] json_ok(files[i]),
    decreases n,
{
    reveal_strlit("json");
    reveal_strlit("sqlite");
    reveal_strlit("db");
    reveal_strlit("sqlitedb");
    if n > 0 {
        lemma_webview_pass(files, n - 1);
        let f = files[n - 1];
        if names_sqlite_db(f.extension) {
            assert(0 <= n - 1 < n && names_sqlite_db(files[n - 1].extension));
            assert("json"@.len() == 4);
            assert("sqlite"@.len() == 6);
            assert("db"@.len() == 2);
            assert("sqlitedb"@.len() == 8);
            assert(!names_json_lower(f.extension));
        }
        if webview_pass(files, n - 1).0 {
            let i = choose|i: int| 0 <= i < n - 1 && #[trigger] names_sqlite_db(files[i].extension);
            assert(0 <= i < n && names_sqlite_db(files[i].extension));
        }
    }
}

/// What a collection (or repo) folder's report says: the folder passes
/// exactly when both components pass. The database component passes
/// exactly when the folder exists and one of its SQLite files probes valid
/// (intact, with the EDMS tables); the data component passes exactly when
/// the folder exists and every JSON file in it parses. So a folder holding
/// a JSON file that does not parse never passes.
pub proof fn lemma_bookmark_report_meaning(root_exists: bool, root: Seq<char>, files: Seq<FileEntry>)
    ensures
        ({
            let r = bookmark_report_spec(root_exists, root, files);
            &&& r.0 == (r.1 == ComponentStatus::Pass && r.2 == ComponentStatus::Pass)
            &&& (r.1 == ComponentStatus::Pass) == (root_exists && exists|i: int| 0 <= i < files.len()
                && names_sqlite_db(files[i].extension) && #[trigger] probe_finding(files[i]).0)
            &&& (r.2 == ComponentStatus::Pass) == (root_exists && forall|i: int| 0 <= i < files.len()
                && names_json_ascii(files[i].extension) ==> #[trigger] json_ok(files[i]))
        }),
{
    lemma_sqlite_pass_valid(files, files.len() as int);
    lemma_json_pass_all_ok(files, files.len() as int, false);
}

/// What a webview folder's report says: it passes exactly when no SQLite
/// file is present and every JSON file parses. The database component
/// fails exactly when the folder exists and holds a SQLite file (it is not
/// applicable otherwise); the data component passes exactly when the folder
/// exists and every JSON file parses.
pub proof fn lemma_webview_report_meaning(root_exists: bool, root: Seq<char>, files: Seq<FileEntry>)
    ensures
        ({
            let r = webview_report_spec(root_exists, root, files);
            &&& r.0 == (r.1 != ComponentStatus::Fail && r.2 == ComponentStatus::Pass)
            &&& (r.1 == ComponentStatus::Fail) == (root_exists && exists|i: int| 0 <= i < files.len()
                && #[trigger] names_sqlite_db(files[i].extension))
            &&& (r.2 == ComponentStatus::Pass) == (root_exists && forall|i: int| 0 <= i < files.len()
                && names_json_lower(files[i].extension) ==> #[trigger] json_ok(files[i]))
        }),
{
    lemma_webview_pass(files, files.len() as int);
}

} // verus!
