//! The schema of the central EDMS database: every table and index, and the
//! migrations of older layouts. The schema is written as a plan of steps,
//! some of them guarded by a counting query, and run by a small interpreter
//! whose contract is the plan itself.
use vstd::prelude::*;
use crate::store::{extends, lemma_extends_trans, EdmsCore, EdmsResult, EdmsError, SqlValue, Reply, Exchange, stmt, args_view, last_reply, first_or_zero};

verus! {

pub const ENDPOINTS_TABLE: &'static str = "CREATE TABLE IF NOT EXISTS endpoints (
            endpoint_id TEXT PRIMARY KEY,
            endpoint_str TEXT NOT NULL,
            annotation TEXT,
            method TEXT NOT NULL DEFAULT 'GET',
            created_at TIMESTAMP DEFAULT CURRENT_TIMESTAMP,
            updated_at TIMESTAMP DEFAULT CURRENT_TIMESTAMP
        )";

pub const ENDPOINTS_HAS_ID: &'static str = "SELECT COUNT(*) FROM pragma_table_info('endpoints') WHERE name = 'id'";

pub const ENDPOINTS_NEW_TABLE: &'static str = "CREATE TABLE endpoints_new (
                endpoint_id TEXT PRIMARY KEY,
                endpoint_str TEXT NOT NULL,
                annotation TEXT,
                method TEXT NOT NULL DEFAULT 'GET',
                created_at TIMESTAMP DEFAULT CURRENT_TIMESTAMP,
                updated_at TIMESTAMP DEFAULT CURRENT_TIMESTAMP
            )";

pub const ENDPOINTS_COPY: &'static str = "INSERT INTO endpoints_new (endpoint_id, endpoint_str, annotation, method, created_at, updated_at)
             SELECT endpoint_id, endpoint_str, annotation, COALESCE(method, 'GET'), created_at, updated_at FROM endpoints";

pub const ENDPOINTS_DROP: &'static str = "DROP TABLE endpoints";

pub const ENDPOINTS_RENAME: &'static str = "ALTER TABLE endpoints_new RENAME TO endpoints";

pub const ENDPOINTS_HAS_METHOD: &'static str = "SELECT COUNT(*) FROM pragma_table_info('endpoints') WHERE name = 'method'";

pub const ENDPOINTS_ADD_METHOD: &'static str = "ALTER TABLE endpoints ADD COLUMN method TEXT NOT NULL DEFAULT 'GET'";

pub const DROP_IDX_ENDPOINTS_ID: &'static str = "DROP INDEX IF EXISTS idx_endpoints_id";

pub const IDX_ENDPOINTS_STR: &'static str = "CREATE INDEX IF NOT EXISTS idx_endpoints_str ON endpoints(endpoint_str)";

pub const IDX_ENDPOINTS_STR_METHOD: &'static str = "CREATE INDEX IF NOT EXISTS idx_endpoints_str_method ON endpoints(endpoint_str, method)";

pub const REQUESTS_TABLE: &'static str = "CREATE TABLE IF NOT EXISTS request_metadata (
            endpoint_id TEXT NOT NULL,
            request_number INTEGER NOT NULL,
            file_path TEXT NOT NULL,
            method TEXT,
            timestamp TIMESTAMP DEFAULT CURRENT_TIMESTAMP
        )";

pub const REQUESTS_HAS_ID: &'static str = "SELECT COUNT(*) FROM pragma_table_info('request_metadata') WHERE name = 'id'";

pub const REQUESTS_NEW_TABLE: &'static str = "CREATE TABLE request_metadata_new (
                endpoint_id TEXT NOT NULL,
                request_number INTEGER NOT NULL,
                file_path TEXT NOT NULL,
                method TEXT,
                timestamp TIMESTAMP DEFAULT CURRENT_TIMESTAMP
            )";

pub const REQUESTS_COPY: &'static str = "INSERT INTO request_metadata_new (endpoint_id, request_number, file_path, method, timestamp)
             SELECT endpoint_id, request_number, file_path, method, timestamp FROM request_metadata";

pub const REQUESTS_DROP: &'static str = "DROP TABLE request_metadata";

pub const REQUESTS_RENAME: &'static str = "ALTER TABLE request_metadata_new RENAME TO request_metadata";

pub const IDX_REQUEST_ENDPOINT: &'static str = "CREATE INDEX IF NOT EXISTS idx_request_endpoint ON request_metadata(endpoint_id)";

pub const IDX_REQUEST_TIMESTAMP: &'static str = "CREATE INDEX IF NOT EXISTS idx_request_timestamp ON request_metadata(timestamp)";

pub const IDX_REQUEST_METHOD: &'static str = "CREATE INDEX IF NOT EXISTS idx_request_method ON request_metadata(method)";

pub const RESPONSES_TABLE: &'static str = "CREATE TABLE IF NOT EXISTS response_metadata (
            endpoint_id TEXT NOT NULL,
            request_number INTEGER NOT NULL,
            file_path TEXT NOT NULL,
            status_code INTEGER,
            exit_code INTEGER,
            response_time_ms INTEGER,
            timestamp TIMESTAMP DEFAULT CURRENT_TIMESTAMP
        )";

pub const RESPONSES_HAS_ID: &'static str = "SELECT COUNT(*) FROM pragma_table_info('response_metadata') WHERE name = 'id'";

pub const RESPONSES_NEW_TABLE: &'static str = "CREATE TABLE response_metadata_new (
                endpoint_id TEXT NOT NULL,
                request_number INTEGER NOT NULL,
                file_path TEXT NOT NULL,
                status_code INTEGER,
                exit_code INTEGER,
                response_time_ms INTEGER,
                timestamp TIMESTAMP DEFAULT CURRENT_TIMESTAMP
            )";

pub const RESPONSES_COPY: &'static str = "INSERT INTO response_metadata_new (endpoint_id, request_number, file_path, status_code, exit_code, response_time_ms, timestamp)
             SELECT endpoint_id, request_number, file_path, status_code, exit_code, response_time_ms, timestamp FROM response_metadata";

pub const RESPONSES_DROP: &'static str = "DROP TABLE response_metadata";

pub const RESPONSES_RENAME: &'static str = "ALTER TABLE response_metadata_new RENAME TO response_metadata";

pub const IDX_RESPONSE_ENDPOINT: &'static str = "CREATE INDEX IF NOT EXISTS idx_response_endpoint ON response_metadata(endpoint_id)";

pub const IDX_RESPONSE_STATUS: &'static str = "CREATE INDEX IF NOT EXISTS idx_response_status ON response_metadata(status_code)";

pub const IDX_RESPONSE_TIMESTAMP: &'static str = "CREATE INDEX IF NOT EXISTS idx_response_timestamp ON response_metadata(timestamp)";

pub const METADATA_TABLE: &'static str = "CREATE TABLE IF NOT EXISTS metadata (
            endpoint_id TEXT PRIMARY KEY,
            request_count INTEGER DEFAULT 0,
            response_count INTEGER DEFAULT 0,
            data_size_bytes INTEGER DEFAULT 0,
            last_tested TIMESTAMP,
            avg_response_time_ms INTEGER
        )";

pub const TAGS_TABLE: &'static str = "CREATE TABLE IF NOT EXISTS tags (
            endpoint_id TEXT NOT NULL,
            tag TEXT NOT NULL,
            created_at TIMESTAMP DEFAULT CURRENT_TIMESTAMP,
            PRIMARY KEY (endpoint_id, tag)
        )";

pub const TAGS_HAS_ID: &'static str = "SELECT COUNT(*) FROM pragma_table_info('tags') WHERE name = 'id'";

pub const TAGS_NEW_TABLE: &'static str = "CREATE TABLE tags_new (
                endpoint_id TEXT NOT NULL,
                tag TEXT NOT NULL,
                created_at TIMESTAMP DEFAULT CURRENT_TIMESTAMP,
                PRIMARY KEY (endpoint_id, tag)
            )";

pub const TAGS_COPY: &'static str = "INSERT OR IGNORE INTO tags_new (endpoint_id, tag, created_at)
             SELECT endpoint_id, tag, created_at FROM tags";

pub const TAGS_DROP: &'static str = "DROP TABLE tags";

pub const TAGS_RENAME: &'static str = "ALTER TABLE tags_new RENAME TO tags";

pub const IDX_TAGS_ENDPOINT: &'static str = "CREATE INDEX IF NOT EXISTS idx_tags_endpoint ON tags(endpoint_id)";

pub const IDX_TAGS_TAG: &'static str = "CREATE INDEX IF NOT EXISTS idx_tags_tag ON tags(tag)";

pub const BOOKMARKS_TABLE: &'static str = "CREATE TABLE IF NOT EXISTS bookmarks (
            endpoint_id TEXT NOT NULL,
            folder TEXT,
            notes TEXT,
            timestamp TIMESTAMP DEFAULT CURRENT_TIMESTAMP,
            UNIQUE(endpoint_id, folder)
        )";

pub const BOOKMARKS_HAS_ID: &'static str = "SELECT COUNT(*) FROM pragma_table_info('bookmarks') WHERE name = 'id'";

pub const BOOKMARKS_HAS_UNIQUE: &'static str = "SELECT COUNT(*) FROM pragma_index_list('bookmarks') WHERE origin = 'u'";

pub const BOOKMARKS_DEDUP: &'static str = "
                DELETE FROM bookmarks
                WHERE id NOT IN (
                    SELECT CASE
                        WHEN MAX(CASE WHEN notes IS NOT NULL THEN id ELSE 0 END) > 0
                             THEN MAX(CASE WHEN notes IS NOT NULL THEN id ELSE NULL END)
                        ELSE MAX(id)
                    END
                    FROM bookmarks GROUP BY endpoint_id, folder
                )";

pub const BOOKMARKS_NEW_TABLE: &'static str = "
            CREATE TABLE bookmarks_new (
                endpoint_id TEXT NOT NULL,
                folder      TEXT,
                notes       TEXT,
                timestamp   TIMESTAMP DEFAULT CURRENT_TIMESTAMP,
                UNIQUE(endpoint_id, folder)
            )";

pub const BOOKMARKS_COPY: &'static str = "INSERT OR IGNORE INTO bookmarks_new (endpoint_id, folder, notes, timestamp) SELECT endpoint_id, folder, notes, timestamp FROM bookmarks";

pub const BOOKMARKS_DROP: &'static str = "DROP TABLE bookmarks";

pub const BOOKMARKS_RENAME: &'static str = "ALTER TABLE bookmarks_new RENAME TO bookmarks";

pub const IDX_BOOKMARKS_ENDPOINT: &'static str = "CREATE INDEX IF NOT EXISTS idx_bookmarks_endpoint ON bookmarks(endpoint_id)";

pub const IDX_BOOKMARKS_FOLDER: &'static str = "CREATE INDEX IF NOT EXISTS idx_bookmarks_folder ON bookmarks(folder)";

pub const HISTORY_TABLE: &'static str = "CREATE TABLE IF NOT EXISTS history (
            id INTEGER PRIMARY KEY AUTOINCREMENT,
            endpoint_id TEXT NOT NULL,
            action TEXT NOT NULL,
            details TEXT,
            timestamp TIMESTAMP DEFAULT CURRENT_TIMESTAMP
        )";

pub const IDX_HISTORY_ENDPOINT: &'static str = "CREATE INDEX IF NOT EXISTS idx_history_endpoint ON history(endpoint_id)";

pub const IDX_HISTORY_TIMESTAMP: &'static str = "CREATE INDEX IF NOT EXISTS idx_history_timestamp ON history(timestamp)";

pub const IDX_HISTORY_ACTION: &'static str = "CREATE INDEX IF NOT EXISTS idx_history_action ON history(action)";

pub const COLLECTIONS_TABLE: &'static str = "CREATE TABLE IF NOT EXISTS collections (
                    name TEXT PRIMARY KEY,
                    file_path TEXT,
                    created_at TIMESTAMP DEFAULT CURRENT_TIMESTAMP
                )";

pub const COLLECTIONS_HAS_ID: &'static str = "SELECT COUNT(*) FROM pragma_table_info('collections') WHERE name = 'id'";

pub const COLLECTIONS_NEW_TABLE: &'static str = "CREATE TABLE collections_new (
                        name TEXT PRIMARY KEY,
                        file_path TEXT,
                        created_at TIMESTAMP DEFAULT CURRENT_TIMESTAMP
                    )";

pub const COLLECTIONS_COPY: &'static str = "INSERT OR IGNORE INTO collections_new (name, file_path, created_at) SELECT name, file_path, created_at FROM collections";

pub const COLLECTIONS_DROP: &'static str = "DROP TABLE collections";

pub const COLLECTIONS_RENAME: &'static str = "ALTER TABLE collections_new RENAME TO collections";

pub const WEBVIEW_TABLE: &'static str = "CREATE TABLE IF NOT EXISTS webview (
                    name TEXT PRIMARY KEY,
                    file_path TEXT,
                    created_at TIMESTAMP DEFAULT CURRENT_TIMESTAMP
                )";

pub const WEBVIEW_HAS_ID: &'static str = "SELECT COUNT(*) FROM pragma_table_info('webview') WHERE name = 'id'";

pub const WEBVIEW_NEW_TABLE: &'static str = "CREATE TABLE webview_new (
                        name TEXT PRIMARY KEY,
                        file_path TEXT,
                        created_at TIMESTAMP DEFAULT CURRENT_TIMESTAMP
                    )";

pub const WEBVIEW_COPY: &'static str = "INSERT OR IGNORE INTO webview_new (name, file_path, created_at) SELECT name, file_path, created_at FROM webview";

pub const WEBVIEW_DROP: &'static str = "DROP TABLE webview";

pub const WEBVIEW_RENAME: &'static str = "ALTER TABLE webview_new RENAME TO webview";

pub const REPOVIEW_TABLE: &'static str = "CREATE TABLE IF NOT EXISTS repoview (
                    name TEXT PRIMARY KEY,
                    file_path TEXT,
                    created_at TIMESTAMP DEFAULT CURRENT_TIMESTAMP
                )";

pub const REPOVIEW_HAS_ID: &'static str = "SELECT COUNT(*) FROM pragma_table_info('repoview') WHERE name = 'id'";

pub const REPOVIEW_NEW_TABLE: &'static str = "CREATE TABLE repoview_new (
                        name TEXT PRIMARY KEY,
                        file_path TEXT,
                        created_at TIMESTAMP DEFAULT CURRENT_TIMESTAMP
                    )";

pub const REPOVIEW_COPY: &'static str = "INSERT OR IGNORE INTO repoview_new (name, file_path, created_at) SELECT name, file_path, created_at FROM repoview";

pub const REPOVIEW_DROP: &'static str = "DROP TABLE repoview";

pub const REPOVIEW_RENAME: &'static str = "ALTER TABLE repoview_new RENAME TO repoview";

pub const COLLECTIONS_TAGS_TABLE: &'static str = "CREATE TABLE IF NOT EXISTS collections_tags (
                    tagname TEXT NOT NULL UNIQUE,
                    count INTEGER NOT NULL DEFAULT 0
                )";

pub const WEBVIEW_TAGS_TABLE: &'static str = "CREATE TABLE IF NOT EXISTS webview_tags (
                    tagname TEXT NOT NULL UNIQUE,
                    count INTEGER NOT NULL DEFAULT 0
                )";

pub const REPOVIEW_TAGS_TABLE: &'static str = "CREATE TABLE IF NOT EXISTS repoview_tags (
                    tagname TEXT NOT NULL UNIQUE,
                    count INTEGER NOT NULL DEFAULT 0
                )";

pub const COLLECTION_TAG_MEMBERSHIPS_TABLE: &'static str = "CREATE TABLE IF NOT EXISTS collection_tag_memberships (
            collection_name TEXT NOT NULL,
            tagname TEXT NOT NULL,
            created_at TIMESTAMP DEFAULT CURRENT_TIMESTAMP,
            PRIMARY KEY (collection_name, tagname)
        )";

pub const EID_ALLOCATION_TABLE: &'static str = "CREATE TABLE IF NOT EXISTS eid_allocation (
            id INTEGER PRIMARY KEY CHECK (id = 1),
            watermark INTEGER NOT NULL DEFAULT 0,
            gaps_json TEXT NOT NULL DEFAULT '[]'
        )";

pub const EID_ALLOCATION_SEED: &'static str = "INSERT OR IGNORE INTO eid_allocation (id, watermark, gaps_json) VALUES (1, 0, '[]')";

/// One step of a schema plan.
#[derive(Debug, Clone, Copy)]
pub enum Step {
    /// Runs a statement.
    Run(&'static str),
    /// Runs a counting query. When the count is above 0, the next `if_any`
    /// steps are run and the `if_none` after them skipped; otherwise the
    /// `if_any` steps are skipped and the `if_none` after them run. When
    /// `lenient`, a count that fails is taken as 0.
    Probe { sql: &'static str, lenient: bool, if_any: usize, if_none: usize },
}

/// The count a probe's answer gives: the first row (0 when none), or 0 for
/// a failure when the probe is lenient.
pub open spec fn probe_count(reply: Reply, lenient: bool) -> Option<int> {
    match reply {
        Reply::Ints(rows) => Some(first_or_zero(rows)),
        Reply::Failed => if lenient { Some(0) } else { None },
        _ => None,
    }
}

pub open spec fn clamp(x: int, hi: int) -> int {
    if x < hi { x } else { hi }
}

/// Where the journal `j`, read from index `i`, ends when it follows the
/// steps `plan[k..end]` with every step succeeding; `None` when it does not
/// follow them.
pub open spec fn plan_log(j: Seq<Exchange>, i: int, plan: Seq<Step>, k: int, end: int) -> Option<int>
    decreases end - k,
{
    if k < 0 || k >= end || end > plan.len() {
        Some(i)
    } else {
        match plan[k] {
            Step::Run(sql) => {
                if 0 <= i < j.len() && j[i].stmt == stmt(sql@, seq![]) && j[i].reply is Changed {
                    plan_log(j, i + 1, plan, k + 1, end)
                } else {
                    None
                }
            },
            Step::Probe { sql, lenient, if_any, if_none } => {
                let a_end = clamp(k + 1 + if_any, end);
                let b_end = clamp(a_end + if_none, end);
                if 0 <= i < j.len() && j[i].stmt == stmt(sql@, seq![]) {
                    match probe_count(j[i].reply, lenient) {
                        Some(c) => {
                            let branch = if c > 0 {
                                plan_log(j, i + 1, plan, k + 1, a_end)
                            } else {
                                plan_log(j, i + 1, plan, a_end, b_end)
                            };
                            match branch {
                                Some(e) => plan_log(j, e, plan, b_end, end),
                                None => None,
                            }
                        },
                        None => None,
                    }
                } else {
                    None
                }
            },
        }
    }
}

/// Runs the steps `plan[k..end]` in order, stopping at the first failure.
fn run_plan(core: &mut EdmsCore, plan: &Vec<Step>, k: usize, end: usize) -> (r: EdmsResult<()>)
    requires
        old(core).is_connected(),
        end <= plan@.len(),
    ensures
        final(core).path() == old(core).path(),
        final(core).is_connected(),
        extends(final(core).journal(), old(core).journal()),
        r is Ok ==> forall|j2: Seq<Exchange>| extends(j2, final(core).journal()) ==>
            #[trigger] plan_log(j2, old(core).journal().len() as int, plan@, k as int, end as int)
                == Some(final(core).journal().len() as int),
        r is Err ==> final(core).journal().len() > old(core).journal().len() && last_reply(*final(core)) is Failed,
    decreases end - k,
{
    let ghost j0 = old(core).journal();
    proof { assert(j0.take(j0.len() as int) =~= j0); }
    if k >= end {
        return Ok(());
    }
    match plan[k] {
        Step::Run(sql) => {
            let args: Vec<SqlValue> = Vec::new();
            assert(args_view(args@) =~= seq![]);
            let res = core.proc(sql, args);
            let ghost j1 = core.journal();
            proof {
                assert(j1.drop_last() == j0);
                assert(j1.take(j0.len() as int) =~= j0);
            }
            match res {
                Ok(_) => {},
                Err(e) => {
                    return Err(e);
                },
            }
            let rest = run_plan(core, plan, k + 1, end);
            proof {
                let j2f = core.journal();
                lemma_extends_trans(j0, j1, j2f);
                if rest is Ok {
                    assert forall|j2: Seq<Exchange>| extends(j2, j2f) implies
                        #[trigger] plan_log(j2, j0.len() as int, plan@, k as int, end as int) == Some(j2f.len() as int) by {
                        let s = j0.len() as int;
                        assert(j2[s] == j2.take(j2f.len() as int)[s]);
                        assert(j2f[s] == j2f.take(j1.len() as int)[s]);
                        assert(j2[s] == j1[s]);
                        assert(plan_log(j2, s + 1, plan@, k + 1, end as int) == Some(j2f.len() as int));
                    }
                }
            }
            rest
        },
        Step::Probe { sql, lenient, if_any, if_none } => {
            let args: Vec<SqlValue> = Vec::new();
            assert(args_view(args@) =~= seq![]);
            let res = core.query_ints(sql, args);
            let ghost j1 = core.journal();
            proof {
                assert(j1.drop_last() == j0);
                assert(j1.take(j0.len() as int) =~= j0);
            }
            let count: i64 = match res {
                Ok(rows) => if rows.len() > 0 { rows[0] } else { 0 },
                Err(e) => {
                    if lenient {
                        0
                    } else {
                        return Err(e);
                    }
                },
            };
            proof {
                assert(probe_count(j1.last().reply, lenient) == Some(count as int));
            }
            let a_end: usize = if if_any < end - (k + 1) { k + 1 + if_any } else { end };
            let b_end: usize = if if_none < end - a_end { a_end + if_none } else { end };
            let branch = if count > 0 {
                run_plan(core, plan, k + 1, a_end)
            } else {
                run_plan(core, plan, a_end, b_end)
            };
            let ghost jb = core.journal();
            match branch {
                Ok(()) => {},
                Err(e) => {
                    proof { lemma_extends_trans(j0, j1, jb); }
                    return Err(e);
                },
            }
            let rest = run_plan(core, plan, b_end, end);
            proof {
                let jf = core.journal();
                lemma_extends_trans(j0, j1, jb);
                lemma_extends_trans(j0, jb, jf);
                if rest is Ok {
                    assert forall|j2: Seq<Exchange>| extends(j2, jf) implies
                        #[trigger] plan_log(j2, j0.len() as int, plan@, k as int, end as int) == Some(jf.len() as int) by {
                        let s = j0.len() as int;
                        lemma_extends_trans(jb, jf, j2);
                        lemma_extends_trans(j1, jb, j2);
                        assert(j2[s] == j2.take(j1.len() as int)[s]);
                        assert(j2[s] == j1[s]);
                        assert(a_end as int == clamp(k + 1 + if_any, end as int));
                        assert(b_end as int == clamp(a_end + if_none, end as int));
                        if count > 0 {
                            assert(plan_log(j2, s + 1, plan@, k + 1, a_end as int) == Some(jb.len() as int));
                        } else {
                            assert(plan_log(j2, s + 1, plan@, a_end as int, b_end as int) == Some(jb.len() as int));
                        }
                        assert(plan_log(j2, jb.len() as int, plan@, b_end as int, end as int) == Some(jf.len() as int));
                    }
                }
            }
            rest
        },
    }
}

/// The schema plan: every table and index, each migration of an older
/// layout guarded by the query that detects it.
pub open spec fn schema_plan() -> Seq<Step> {
    seq![
        Step::Run(ENDPOINTS_TABLE),
        Step::Probe { sql: ENDPOINTS_HAS_ID, lenient: false, if_any: 4, if_none: 2 },
        Step::Run(ENDPOINTS_NEW_TABLE),
        Step::Run(ENDPOINTS_COPY),
        Step::Run(ENDPOINTS_DROP),
        Step::Run(ENDPOINTS_RENAME),
        Step::Probe { sql: ENDPOINTS_HAS_METHOD, lenient: false, if_any: 0, if_none: 1 },
        Step::Run(ENDPOINTS_ADD_METHOD),
        Step::Run(DROP_IDX_ENDPOINTS_ID),
        Step::Run(IDX_ENDPOINTS_STR),
        Step::Run(IDX_ENDPOINTS_STR_METHOD),
        Step::Run(REQUESTS_TABLE),
        Step::Probe { sql: REQUESTS_HAS_ID, lenient: false, if_any: 4, if_none: 0 },
        Step::Run(REQUESTS_NEW_TABLE),
        Step::Run(REQUESTS_COPY),
        Step::Run(REQUESTS_DROP),
        Step::Run(REQUESTS_RENAME),
        Step::Run(IDX_REQUEST_ENDPOINT),
        Step::Run(IDX_REQUEST_TIMESTAMP),
        Step::Run(IDX_REQUEST_METHOD),
        Step::Run(RESPONSES_TABLE),
        Step::Probe { sql: RESPONSES_HAS_ID, lenient: false, if_any: 4, if_none: 0 },
        Step::Run(RESPONSES_NEW_TABLE),
        Step::Run(RESPONSES_COPY),
        Step::Run(RESPONSES_DROP),
        Step::Run(RESPONSES_RENAME),
        Step::Run(IDX_RESPONSE_ENDPOINT),
        Step::Run(IDX_RESPONSE_STATUS),
        Step::Run(IDX_RESPONSE_TIMESTAMP),
        Step::Run(METADATA_TABLE),
        Step::Run(TAGS_TABLE),
        Step::Probe { sql: TAGS_HAS_ID, lenient: false, if_any: 4, if_none: 0 },
        Step::Run(TAGS_NEW_TABLE),
        Step::Run(TAGS_COPY),
        Step::Run(TAGS_DROP),
        Step::Run(TAGS_RENAME),
        Step::Run(IDX_TAGS_ENDPOINT),
        Step::Run(IDX_TAGS_TAG),
        Step::Run(BOOKMARKS_TABLE),
        Step::Probe { sql: BOOKMARKS_HAS_ID, lenient: false, if_any: 6, if_none: 0 },
        Step::Probe { sql: BOOKMARKS_HAS_UNIQUE, lenient: true, if_any: 0, if_none: 1 },
        Step::Run(BOOKMARKS_DEDUP),
        Step::Run(BOOKMARKS_NEW_TABLE),
        Step::Run(BOOKMARKS_COPY),
        Step::Run(BOOKMARKS_DROP),
        Step::Run(BOOKMARKS_RENAME),
        Step::Run(IDX_BOOKMARKS_ENDPOINT),
        Step::Run(IDX_BOOKMARKS_FOLDER),
        Step::Run(HISTORY_TABLE),
        Step::Run(IDX_HISTORY_ENDPOINT),
        Step::Run(IDX_HISTORY_TIMESTAMP),
        Step::Run(IDX_HISTORY_ACTION),
        Step::Run(COLLECTIONS_TABLE),
        Step::Probe { sql: COLLECTIONS_HAS_ID, lenient: false, if_any: 4, if_none: 0 },
        Step::Run(COLLECTIONS_NEW_TABLE),
        Step::Run(COLLECTIONS_COPY),
        Step::Run(COLLECTIONS_DROP),
        Step::Run(COLLECTIONS_RENAME),
        Step::Run(WEBVIEW_TABLE),
        Step::Probe { sql: WEBVIEW_HAS_ID, lenient: false, if_any: 4, if_none: 0 },
        Step::Run(WEBVIEW_NEW_TABLE),
        Step::Run(WEBVIEW_COPY),
        Step::Run(WEBVIEW_DROP),
        Step::Run(WEBVIEW_RENAME),
        Step::Run(REPOVIEW_TABLE),
        Step::Probe { sql: REPOVIEW_HAS_ID, lenient: false, if_any: 4, if_none: 0 },
        Step::Run(REPOVIEW_NEW_TABLE),
        Step::Run(REPOVIEW_COPY),
        Step::Run(REPOVIEW_DROP),
        Step::Run(REPOVIEW_RENAME),
        Step::Run(COLLECTIONS_TAGS_TABLE),
        Step::Run(WEBVIEW_TAGS_TABLE),
        Step::Run(REPOVIEW_TAGS_TABLE),
        Step::Run(COLLECTION_TAG_MEMBERSHIPS_TABLE),
        Step::Run(EID_ALLOCATION_TABLE),
        Step::Run(EID_ALLOCATION_SEED),
    ]
}

fn schema_steps() -> (v: Vec<Step>)
    ensures
        v@ == schema_plan(),
{
    let v = vec![
        Step::Run(ENDPOINTS_TABLE),
        Step::Probe { sql: ENDPOINTS_HAS_ID, lenient: false, if_any: 4, if_none: 2 },
        Step::Run(ENDPOINTS_NEW_TABLE),
        Step::Run(ENDPOINTS_COPY),
        Step::Run(ENDPOINTS_DROP),
        Step::Run(ENDPOINTS_RENAME),
        Step::Probe { sql: ENDPOINTS_HAS_METHOD, lenient: false, if_any: 0, if_none: 1 },
        Step::Run(ENDPOINTS_ADD_METHOD),
        Step::Run(DROP_IDX_ENDPOINTS_ID),
        Step::Run(IDX_ENDPOINTS_STR),
        Step::Run(IDX_ENDPOINTS_STR_METHOD),
        Step::Run(REQUESTS_TABLE),
        Step::Probe { sql: REQUESTS_HAS_ID, lenient: false, if_any: 4, if_none: 0 },
        Step::Run(REQUESTS_NEW_TABLE),
        Step::Run(REQUESTS_COPY),
        Step::Run(REQUESTS_DROP),
        Step::Run(REQUESTS_RENAME),
        Step::Run(IDX_REQUEST_ENDPOINT),
        Step::Run(IDX_REQUEST_TIMESTAMP),
        Step::Run(IDX_REQUEST_METHOD),
        Step::Run(RESPONSES_TABLE),
        Step::Probe { sql: RESPONSES_HAS_ID, lenient: false, if_any: 4, if_none: 0 },
        Step::Run(RESPONSES_NEW_TABLE),
        Step::Run(RESPONSES_COPY),
        Step::Run(RESPONSES_DROP),
        Step::Run(RESPONSES_RENAME),
        Step::Run(IDX_RESPONSE_ENDPOINT),
        Step::Run(IDX_RESPONSE_STATUS),
        Step::Run(IDX_RESPONSE_TIMESTAMP),
        Step::Run(METADATA_TABLE),
        Step::Run(TAGS_TABLE),
        Step::Probe { sql: TAGS_HAS_ID, lenient: false, if_any: 4, if_none: 0 },
        Step::Run(TAGS_NEW_TABLE),
        Step::Run(TAGS_COPY),
        Step::Run(TAGS_DROP),
        Step::Run(TAGS_RENAME),
        Step::Run(IDX_TAGS_ENDPOINT),
        Step::Run(IDX_TAGS_TAG),
        Step::Run(BOOKMARKS_TABLE),
        Step::Probe { sql: BOOKMARKS_HAS_ID, lenient: false, if_any: 6, if_none: 0 },
        Step::Probe { sql: BOOKMARKS_HAS_UNIQUE, lenient: true, if_any: 0, if_none: 1 },
        Step::Run(BOOKMARKS_DEDUP),
        Step::Run(BOOKMARKS_NEW_TABLE),
        Step::Run(BOOKMARKS_COPY),
        Step::Run(BOOKMARKS_DROP),
        Step::Run(BOOKMARKS_RENAME),
        Step::Run(IDX_BOOKMARKS_ENDPOINT),
        Step::Run(IDX_BOOKMARKS_FOLDER),
        Step::Run(HISTORY_TABLE),
        Step::Run(IDX_HISTORY_ENDPOINT),
        Step::Run(IDX_HISTORY_TIMESTAMP),
        Step::Run(IDX_HISTORY_ACTION),
        Step::Run(COLLECTIONS_TABLE),
        Step::Probe { sql: COLLECTIONS_HAS_ID, lenient: false, if_any: 4, if_none: 0 },
        Step::Run(COLLECTIONS_NEW_TABLE),
        Step::Run(COLLECTIONS_COPY),
        Step::Run(COLLECTIONS_DROP),
        Step::Run(COLLECTIONS_RENAME),
        Step::Run(WEBVIEW_TABLE),
        Step::Probe { sql: WEBVIEW_HAS_ID, lenient: false, if_any: 4, if_none: 0 },
        Step::Run(WEBVIEW_NEW_TABLE),
        Step::Run(WEBVIEW_COPY),
        Step::Run(WEBVIEW_DROP),
        Step::Run(WEBVIEW_RENAME),
        Step::Run(REPOVIEW_TABLE),
        Step::Probe { sql: REPOVIEW_HAS_ID, lenient: false, if_any: 4, if_none: 0 },
        Step::Run(REPOVIEW_NEW_TABLE),
        Step::Run(REPOVIEW_COPY),
        Step::Run(REPOVIEW_DROP),
        Step::Run(REPOVIEW_RENAME),
        Step::Run(COLLECTIONS_TAGS_TABLE),
        Step::Run(WEBVIEW_TAGS_TABLE),
        Step::Run(REPOVIEW_TAGS_TABLE),
        Step::Run(COLLECTION_TAG_MEMBERSHIPS_TABLE),
        Step::Run(EID_ALLOCATION_TABLE),
        Step::Run(EID_ALLOCATION_SEED),
    ];
    assert(v@ =~= schema_plan());
    v
}

/// Creates every table and index of the central database where it is
/// missing and migrates older layouts, following `schema_plan`; stops at the
/// first statement that fails. Not connected: `UnknownError`, nothing done.
pub fn initialize_schema(core: &mut EdmsCore) -> (r: EdmsResult<()>)
    ensures
        final(core).path() == old(core).path(),
        final(core).is_connected() == old(core).is_connected(),
        extends(final(core).journal(), old(core).journal()),
        !old(core).is_connected() ==> old(core).same(*final(core)) && (r matches Err(EdmsError::UnknownError)),
        old(core).is_connected() && r is Ok ==> plan_log(final(core).journal(), old(core).journal().len() as int,
            schema_plan(), 0, schema_plan().len() as int) == Some(final(core).journal().len() as int),
        old(core).is_connected() && r is Err ==> final(core).journal().len() > old(core).journal().len()
            && last_reply(*final(core)) is Failed,
{
    proof { assert(old(core).journal().take(old(core).journal().len() as int) =~= old(core).journal()); }
    if !core.is_open() {
        return Err(EdmsError::UnknownError);
    }
    let plan = schema_steps();
    let res = run_plan(core, &plan, 0, plan.len());
    proof {
        let j = core.journal();
        assert(extends(j, j)) by { assert(j.take(j.len() as int) =~= j); }
    }
    res
}

/// Runs `initialize_schema` on a connected core.
pub fn initialize_schema_from_core(core: &mut EdmsCore) -> (r: EdmsResult<()>)
    requires
        old(core).is_connected(),
    ensures
        final(core).path() == old(core).path(),
        final(core).is_connected(),
        extends(final(core).journal(), old(core).journal()),
        r is Ok ==> plan_log(final(core).journal(), old(core).journal().len() as int,
            schema_plan(), 0, schema_plan().len() as int) == Some(final(core).journal().len() as int),
        r is Err ==> final(core).journal().len() > old(core).journal().len() && last_reply(*final(core)) is Failed,
{
    initialize_schema(core)
}

} // verus!
