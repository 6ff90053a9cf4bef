//! The compute service's own logic: how errors are answered, the CRUD
//! operations breakdown of the dashboard, and the names of the tasks a
//! child process runs.
use vstd::prelude::*;
use crate::text::{str_eq, concat, append_str};
use crate::store::{
    EdmsCore, EdmsError, EdmsResult, SqlValue, Reply, Exchange, stmt, args_view, is_unknown, last_reply, extends,
    lemma_extends_trans,
};

verus! {

/// A failed request, by the kind of failure.
#[derive(Debug, Clone)]
pub enum ApiError {
    /// The request is malformed (400).
    BadRequest(String),
    /// What it names does not exist (404).
    NotFound(String),
    /// The service failed (500).
    Internal(String),
}

/// The JSON body of a failed request.
#[derive(Debug, Clone)]
pub struct ErrorBody {
    pub error: &'static str,
    pub message: String,
}

impl ApiError {
    /// The HTTP status and the body a failure is answered with.
    pub fn into_parts(self) -> (r: (u16, ErrorBody))
        ensures
            match self {
                ApiError::BadRequest(m) => r.0 == 400 && r.1.error@ == "bad_request"@ && r.1.message@ == m@,
                ApiError::NotFound(m) => r.0 == 404 && r.1.error@ == "not_found"@ && r.1.message@ == m@,
                ApiError::Internal(m) => r.0 == 500 && r.1.error@ == "internal_server_error"@ && r.1.message@ == m@,
            },
    {
        match self {
            ApiError::BadRequest(m) => (400, ErrorBody { error: "bad_request", message: m }),
            ApiError::NotFound(m) => (404, ErrorBody { error: "not_found", message: m }),
            ApiError::Internal(m) => (500, ErrorBody { error: "internal_server_error", message: m }),
        }
    }
}

/// A plain success answer.
#[derive(Debug, Clone)]
pub struct GenericResponse {
    pub success: bool,
    pub message: String,
}

/// The dashboard's CRUD breakdown request: the database to count.
#[derive(Debug, Clone)]
pub struct CrudOperationsRequest {
    pub db_path: String,
}

/// One cell of the breakdown: an entity type, an HTTP method, a count.
#[derive(Debug, Clone)]
pub struct CrudOperationsRowOut {
    pub entity_type: String,
    pub method: String,
    pub count: i64,
}

/// The breakdown.
#[derive(Debug, Clone)]
pub struct CrudOperationsResult {
    pub rows: Vec<CrudOperationsRowOut>,
}

pub open spec fn crud_rows_view(v: Seq<CrudOperationsRowOut>) -> Seq<(Seq<char>, Seq<char>, int)> {
    v.map_values(|r: CrudOperationsRowOut| (r.entity_type@, r.method@, r.count as int))
}

/// The entity types of the breakdown, in order.
pub open spec fn crud_entity(k: int) -> Seq<char> {
    if k == 0 {
        "endpoint_segments"@
    } else if k == 1 {
        "tags"@
    } else if k == 2 {
        "bookmarks"@
    } else if k == 3 {
        "history"@
    } else {
        "qp_pairs"@
    }
}

pub const CRUD_ENDPOINTS_SQL: &'static str = "SELECT COALESCE(method, 'UNCLASSIFIED') AS m, COUNT(*) AS c FROM endpoints GROUP BY m";
pub const CRUD_TAGS_SQL: &'static str = "SELECT COALESCE(e.method, 'UNCLASSIFIED') AS m, COUNT(*) AS c FROM tags t JOIN endpoints e ON t.endpoint_id = e.endpoint_id GROUP BY m";
pub const CRUD_BOOKMARKS_SQL: &'static str = "SELECT COALESCE(e.method, 'UNCLASSIFIED') AS m, COUNT(*) AS c FROM bookmarks b JOIN endpoints e ON b.endpoint_id = e.endpoint_id GROUP BY m";
pub const CRUD_HISTORY_SQL: &'static str = "SELECT COALESCE(e.method, 'UNCLASSIFIED') AS m, COUNT(*) AS c FROM history h JOIN endpoints e ON h.endpoint_id = e.endpoint_id GROUP BY m";
pub const CRUD_QP_PAIRS_SQL: &'static str = "SELECT COALESCE(e.method, 'UNCLASSIFIED') AS m, COUNT(*) AS c FROM request_metadata rm JOIN response_metadata resp ON rm.endpoint_id = resp.endpoint_id AND rm.request_number = resp.request_number JOIN endpoints e ON rm.endpoint_id = e.endpoint_id GROUP BY m";

/// The counting query of entity type `k`: (method, count) per method,
/// endpoints without a method counted as `UNCLASSIFIED`.
pub open spec fn crud_query(k: int) -> Seq<char> {
    if k == 0 {
        CRUD_ENDPOINTS_SQL@
    } else if k == 1 {
        CRUD_TAGS_SQL@
    } else if k == 2 {
        CRUD_BOOKMARKS_SQL@
    } else if k == 3 {
        CRUD_HISTORY_SQL@
    } else {
        CRUD_QP_PAIRS_SQL@
    }
}

fn crud_step(k: usize) -> (r: (&'static str, &'static str))
    requires
        k < 5,
    ensures
        r.0@ == crud_entity(k as int),
        r.1@ == crud_query(k as int),
{
    if k == 0 {
        ("endpoint_segments", CRUD_ENDPOINTS_SQL)
    } else if k == 1 {
        ("tags", CRUD_TAGS_SQL)
    } else if k == 2 {
        ("bookmarks", CRUD_BOOKMARKS_SQL)
    } else if k == 3 {
        ("history", CRUD_HISTORY_SQL)
    } else {
        ("qp_pairs", CRUD_QP_PAIRS_SQL)
    }
}

/// A (method, count) answer as a row of entity type `k`.
pub open spec fn crud_row(k: int) -> spec_fn((Seq<char>, int)) -> (Seq<char>, Seq<char>, int) {
    |p: (Seq<char>, int)| (crud_entity(k), p.0, p.1)
}

/// The rows the answers `j[from..from + n]` give: for each entity type in
/// order, one row per (method, count) answered.
pub open spec fn crud_rows(j: Seq<Exchange>, from: int, n: int) -> Seq<(Seq<char>, Seq<char>, int)>
    decreases n,
{
    if n <= 0 {
        seq![]
    } else {
        crud_rows(j, from, n - 1) + match j[from + n - 1].reply {
            Reply::Counts(rows) => rows.map_values(crud_row(n - 1)),
            _ => seq![],
        }
    }
}

proof fn lemma_crud_rows_prefix(j: Seq<Exchange>, j2: Seq<Exchange>, from: int, n: int)
    requires
        0 <= from,
        0 <= n,
        from + n <= j.len(),
        extends(j2, j),
    ensures
        crud_rows(j2, from, n) == crud_rows(j, from, n),
    decreases n,
{
    if n > 0 {
        lemma_crud_rows_prefix(j, j2, from, n - 1);
        assert(j2[from + n - 1] == j2.take(j.len() as int)[from + n - 1]);
    }
}

/// The CRUD breakdown of the open database: the five counting queries in
/// order (endpoints, tags, bookmarks, history, request/response pairs),
/// each row labelled with its entity type. Stops at the first failure.
pub fn compute_crud_operations(core: &mut EdmsCore) -> (r: EdmsResult<CrudOperationsResult>)
    ensures
        final(core).path() == old(core).path(),
        final(core).is_connected() == old(core).is_connected(),
        extends(final(core).journal(), old(core).journal()),
        !old(core).is_connected() ==> old(core).same(*final(core)) && is_unknown(r),
        old(core).is_connected() ==> {
            let j = final(core).journal();
            let s = old(core).journal().len() as int;
            &&& !is_unknown(r)
            &&& s < j.len() <= s + 5
            &&& forall|k: int| s <= k < j.len() ==> #[trigger] j[k].stmt == stmt(crud_query(k - s), seq![])
            &&& r is Err ==> last_reply(*final(core)) is Failed
            &&& r matches Ok(res) ==> j.len() == s + 5 && crud_rows_view(res.rows@) == crud_rows(j, s, 5)
        },
{
    let ghost s = old(core).journal().len() as int;
    let ghost j0 = old(core).journal();
    proof { assert(j0.take(s) =~= j0); }
    if !core.is_open() {
        return Err(EdmsError::UnknownError);
    }
    let mut rows: Vec<CrudOperationsRowOut> = Vec::new();
    let mut k: usize = 0;
    assert(crud_rows_view(rows@) =~= crud_rows(j0, s, 0));
    while k < 5
        invariant
            k <= 5,
            s == j0.len(),
            j0 == old(core).journal(),
            old(core).is_connected(),
            core.path() == old(core).path(),
            core.is_connected(),
            extends(core.journal(), j0),
            core.journal().len() == s + k,
            forall|m: int| s <= m < s + k ==> #[trigger] core.journal()[m].stmt == stmt(crud_query(m - s), seq![])
                && core.journal()[m].reply is Counts,
            crud_rows_view(rows@) == crud_rows(core.journal(), s, k as int),
        decreases 5 - k,
    {
        let (entity, sql) = crud_step(k);
        let ghost jb = core.journal();
        let args: Vec<SqlValue> = Vec::new();
        assert(args_view(args@) =~= seq![]);
        let res = core.query_counts(sql, args);
        let ghost j = core.journal();
        proof {
            assert(j.take(jb.len() as int) =~= jb);
            lemma_extends_trans(j0, jb, j);
            assert(j[s + k as int] == j.last());
            assert forall|m: int| s <= m < s + k + 1 implies #[trigger] j[m].stmt == stmt(crud_query(m - s), seq![]) by {
                if m < s + k {
                    assert(j[m] == j.take(jb.len() as int)[m]);
                    assert(jb[m].stmt == stmt(crud_query(m - s), seq![]));
                }
            }
        }
        let found = match res {
            Ok(v) => v,
            Err(e) => {
                return Err(e);
            },
        };
        let ghost before = crud_rows_view(rows@);
        let mut i: usize = 0;
        while i < found.len()
            invariant
                i <= found@.len(),
                crud_rows_view(rows@) == before + crate::store::counts_view(found@).take(i as int).map_values(crud_row(k as int)),
                entity@ == crud_entity(k as int),
            decreases found@.len() - i,
        {
            let ghost old_rows = rows@;
            rows.push(CrudOperationsRowOut { entity_type: entity.to_owned(), method: found[i].0.clone(), count: found[i].1 });
            assert(rows@.drop_last() =~= old_rows);
            assert(crate::store::counts_view(found@).take(i + 1) =~= crate::store::counts_view(found@).take(i as int).push(
                crate::store::counts_view(found@)[i as int],
            ));
            assert(crud_rows_view(rows@) =~= crud_rows_view(rows@.drop_last()).push(
                (rows@.last().entity_type@, rows@.last().method@, rows@.last().count as int),
            ));
            assert(crate::store::counts_view(found@).take(i + 1).map_values(crud_row(k as int)) =~=
                crate::store::counts_view(found@).take(i as int).map_values(crud_row(k as int)).push(
                    crud_row(k as int)(crate::store::counts_view(found@)[i as int])));
            assert(crate::store::counts_view(found@)[i as int] == (found@[i as int].0@, found@[i as int].1 as int));
            assert(rows@.last().entity_type@ == crud_entity(k as int));
            assert(rows@.last().method@ == found@[i as int].0@);
            let ghost f = crud_row(k as int);
            let ghost x = crate::store::counts_view(found@);
            assert(f(x[i as int]) == (rows@.last().entity_type@, rows@.last().method@, rows@.last().count as int));
            assert(crud_rows_view(rows@) =~= before + x.take(i + 1).map_values(f));
            i += 1;
        }
        proof {
            assert(crate::store::counts_view(found@).take(found@.len() as int) =~= crate::store::counts_view(found@));
            lemma_crud_rows_prefix(jb, j, s, k as int);
            assert(j[s + k as int].reply == Reply::Counts(crate::store::counts_view(found@)));
            assert forall|m: int| s <= m < s + k + 1 implies #[trigger] j[m].stmt == stmt(crud_query(m - s), seq![])
                && j[m].reply is Counts by {
                if m < s + k {
                    assert(j[m] == j.take(jb.len() as int)[m]);
                    assert(jb[m].stmt == stmt(crud_query(m - s), seq![]));
                    assert(jb[m].reply is Counts);
                }
            }
            assert(core.journal() == j);
            assert(crud_rows(j, s, k + 1) == crud_rows(j, s, k as int) + crate::store::counts_view(found@).map_values(crud_row(k as int)));
        }
        k += 1;
    }
    Ok(CrudOperationsResult { rows })
}

/// The tasks a child process runs, by name.
#[derive(Debug, Clone, Copy, PartialEq, Eq, Structural)]
pub enum ChildTask {
    ExportCollection,
    ExportMerge,
    ImportZip,
    ExportBookmarks,
    CreateStatic,
    ExportStatic,
    GenerateMarkdown,
    GenerateMeta,
    WriteEndpoint,
    WriteRequest,
    WriteResponse,
    WriteHeaders,
    ComputeCrudOperations,
    MarkActiveFolder,
    RunTest,
    TagopsMerge,
    TagopsCreateFromTags,
    TagopsBulkAdd,
    TagopsBulkRemove,
    TagopsRename,
    RemoveUrlPrefix,
    TableViewScan,
    TableViewFormatCheck,
    TableViewMove,
    TableViewTakeout,
    AuditOrphanedEids,
    PurgeOrphanedEids,
}

/// The name of each task.
pub open spec fn task_name(t: ChildTask) -> Seq<char> {
    match t {
        ChildTask::ExportCollection => "export_collection"@,
        ChildTask::ExportMerge => "export_merge"@,
        ChildTask::ImportZip => "import_zip"@,
        ChildTask::ExportBookmarks => "export_bookmarks"@,
        ChildTask::CreateStatic => "create_static"@,
        ChildTask::ExportStatic => "export_static"@,
        ChildTask::GenerateMarkdown => "generate_markdown"@,
        ChildTask::GenerateMeta => "generate_meta"@,
        ChildTask::WriteEndpoint => "write_endpoint"@,
        ChildTask::WriteRequest => "write_request"@,
        ChildTask::WriteResponse => "write_response"@,
        ChildTask::WriteHeaders => "write_headers"@,
        ChildTask::ComputeCrudOperations => "compute_crud_operations"@,
        ChildTask::MarkActiveFolder => "mark_active_folder"@,
        ChildTask::RunTest => "run_test"@,
        ChildTask::TagopsMerge => "tagops_merge"@,
        ChildTask::TagopsCreateFromTags => "tagops_create_from_tags"@,
        ChildTask::TagopsBulkAdd => "tagops_bulk_add"@,
        ChildTask::TagopsBulkRemove => "tagops_bulk_remove"@,
        ChildTask::TagopsRename => "tagops_rename"@,
        ChildTask::RemoveUrlPrefix => "remove_url_prefix"@,
        ChildTask::TableViewScan => "table_view_scan"@,
        ChildTask::TableViewFormatCheck => "table_view_format_check"@,
        ChildTask::TableViewMove => "table_view_move"@,
        ChildTask::TableViewTakeout => "table_view_takeout"@,
        ChildTask::AuditOrphanedEids => "audit_orphaned_eids"@,
        ChildTask::PurgeOrphanedEids => "purge_orphaned_eids"@,
    }
}

impl ChildTask {
    /// The task named `name`, if there is one.
    pub fn parse(name: &str) -> (r: Option<ChildTask>)
        ensures
            r matches Some(t) ==> task_name(t) == name@,
            r is None ==> forall|t: ChildTask| task_name(t) != name@,
    {
        let table: [(ChildTask, &'static str); 27] = [
            (ChildTask::ExportCollection, "export_collection"),
            (ChildTask::ExportMerge, "export_merge"),
            (ChildTask::ImportZip, "import_zip"),
            (ChildTask::ExportBookmarks, "export_bookmarks"),
            (ChildTask::CreateStatic, "create_static"),
            (ChildTask::ExportStatic, "export_static"),
            (ChildTask::GenerateMarkdown, "generate_markdown"),
            (ChildTask::GenerateMeta, "generate_meta"),
            (ChildTask::WriteEndpoint, "write_endpoint"),
            (ChildTask::WriteRequest, "write_request"),
            (ChildTask::WriteResponse, "write_response"),
            (ChildTask::WriteHeaders, "write_headers"),
            (ChildTask::ComputeCrudOperations, "compute_crud_operations"),
            (ChildTask::MarkActiveFolder, "mark_active_folder"),
            (ChildTask::RunTest, "run_test"),
            (ChildTask::TagopsMerge, "tagops_merge"),
            (ChildTask::TagopsCreateFromTags, "tagops_create_from_tags"),
            (ChildTask::TagopsBulkAdd, "tagops_bulk_add"),
            (ChildTask::TagopsBulkRemove, "tagops_bulk_remove"),
            (ChildTask::TagopsRename, "tagops_rename"),
            (ChildTask::RemoveUrlPrefix, "remove_url_prefix"),
            (ChildTask::TableViewScan, "table_view_scan"),
            (ChildTask::TableViewFormatCheck, "table_view_format_check"),
            (ChildTask::TableViewMove, "table_view_move"),
            (ChildTask::TableViewTakeout, "table_view_takeout"),
            (ChildTask::AuditOrphanedEids, "audit_orphaned_eids"),
            (ChildTask::PurgeOrphanedEids, "purge_orphaned_eids"),
        ];
        assert(forall|k: int| 0 <= k < 27 ==> #[trigger] task_name(table@[k].0) == table@[k].1@);
        let mut k: usize = 0;
        while k < 27
            invariant
                k <= 27,
                forall|m: int| 0 <= m < 27 ==> #[trigger] task_name(table@[m].0) == table@[m].1@,
                forall|m: int| 0 <= m < k ==> #[trigger] table@[m].1@ != name@,
            decreases 27 - k,
        {
            if str_eq(table[k].1, name) {
                return Some(table[k].0);
            }
            k += 1;
        }
        assert forall|t: ChildTask| task_name(t) != name@ by {
            let i: int = match t {
                ChildTask::ExportCollection => 0,
                ChildTask::ExportMerge => 1,
                ChildTask::ImportZip => 2,
                ChildTask::ExportBookmarks => 3,
                ChildTask::CreateStatic => 4,
                ChildTask::ExportStatic => 5,
                ChildTask::GenerateMarkdown => 6,
                ChildTask::GenerateMeta => 7,
                ChildTask::WriteEndpoint => 8,
                ChildTask::WriteRequest => 9,
                ChildTask::WriteResponse => 10,
                ChildTask::WriteHeaders => 11,
                ChildTask::ComputeCrudOperations => 12,
                ChildTask::MarkActiveFolder => 13,
                ChildTask::RunTest => 14,
                ChildTask::TagopsMerge => 15,
                ChildTask::TagopsCreateFromTags => 16,
                ChildTask::TagopsBulkAdd => 17,
                ChildTask::TagopsBulkRemove => 18,
                ChildTask::TagopsRename => 19,
                ChildTask::RemoveUrlPrefix => 20,
                ChildTask::TableViewScan => 21,
                ChildTask::TableViewFormatCheck => 22,
                ChildTask::TableViewMove => 23,
                ChildTask::TableViewTakeout => 24,
                ChildTask::AuditOrphanedEids => 25,
                ChildTask::PurgeOrphanedEids => 26,
            };
            assert(table@[i].0 == t);
            assert(task_name(table@[i].0) == table@[i].1@);
            assert(table@[i].1@ != name@);
        }
        None
    }
}

/// The error a child process reports for a task name it does not know.
pub fn unknown_task_message(name: &str) -> (m: String)
    ensures
        m@ == "unknown task: '"@ + name@ + "'"@,
{
    let mut m = concat("unknown task: '", name);
    append_str(&mut m, "'");
    m
}

} // verus!
