//! What the server does with a child process's report: a failed task is
//! broadcast as an error; a finished one goes to its task's handler, may
//! announce that an export or import is ready, and may ask the clients to
//! refresh a view.
use vstd::prelude::*;
use crate::text::{append_str, concat, str_eq};
use crate::api::{ChildTask, task_name};

verus! {

/// What the server does with a report.
#[derive(Debug, Clone)]
pub enum CallbackRoute {
    /// The task failed: broadcast `message` as an error and answer
    /// `"error_noted"`.
    Failed { message: String },
    /// The task finished: run the handler of `task` (none for a task the
    /// server has no handler for), then look for a view refresh, and answer
    /// `"received"`.
    Handle { task: Option<ChildTask> },
}

/// The task named `name`, when the server handles its reports itself.
pub open spec fn handled_task(name: Seq<char>) -> Option<ChildTask> {
    if name == "run_test"@ {
        Some(ChildTask::RunTest)
    } else if name == "write_request"@ {
        Some(ChildTask::WriteRequest)
    } else if name == "export_collection"@ {
        Some(ChildTask::ExportCollection)
    } else if name == "import_zip"@ {
        Some(ChildTask::ImportZip)
    } else if name == "generate_markdown"@ {
        Some(ChildTask::GenerateMarkdown)
    } else if name == "export_merge"@ {
        Some(ChildTask::ExportMerge)
    } else if name == "mark_active_folder"@ {
        Some(ChildTask::MarkActiveFolder)
    } else if name == "compute_crud_operations"@ {
        Some(ChildTask::ComputeCrudOperations)
    } else {
        None
    }
}

/// `"IPC task '{task}' failed: {error}"`, where a missing error reads
/// `unknown error`.
pub open spec fn failure_message(task: Seq<char>, error: Option<Seq<char>>) -> Seq<char> {
    "IPC task '"@ + task + "' failed: "@ + match error {
        Some(e) => e,
        None => "unknown error"@,
    }
}

/// Routes the report of task `task`.
pub fn route_callback(success: bool, task: &str, error: Option<&str>) -> (r: CallbackRoute)
    ensures
        !success ==> (r matches CallbackRoute::Failed { message }
            && message@ == failure_message(task@, match error { Some(e) => Some(e@), None => None })),
        success ==> (r matches CallbackRoute::Handle { task: t } && t == handled_task(task@)),
{
    if !success {
        let mut m = concat("IPC task '", task);
        append_str(&mut m, "' failed: ");
        match error {
            Some(e) => append_str(&mut m, e),
            None => append_str(&mut m, "unknown error"),
        }
        return CallbackRoute::Failed { message: m };
    }
    let t = if str_eq(task, "run_test") {
        Some(ChildTask::RunTest)
    } else if str_eq(task, "write_request") {
        Some(ChildTask::WriteRequest)
    } else if str_eq(task, "export_collection") {
        Some(ChildTask::ExportCollection)
    } else if str_eq(task, "import_zip") {
        Some(ChildTask::ImportZip)
    } else if str_eq(task, "generate_markdown") {
        Some(ChildTask::GenerateMarkdown)
    } else if str_eq(task, "export_merge") {
        Some(ChildTask::ExportMerge)
    } else if str_eq(task, "mark_active_folder") {
        Some(ChildTask::MarkActiveFolder)
    } else if str_eq(task, "compute_crud_operations") {
        Some(ChildTask::ComputeCrudOperations)
    } else {
        None
    };
    CallbackRoute::Handle { task: t }
}

/// An announcement that follows a finished export or import.
#[derive(Debug, Clone, PartialEq, Eq)]
pub enum ReadyNotice {
    ExportReady { message: String },
    ImportReady { message: String },
}

/// The announcement that follows a finished task, if any.
pub fn ready_notice(t: ChildTask) -> (n: Option<ReadyNotice>)
    ensures
        t == ChildTask::ExportCollection ==> (n matches Some(ReadyNotice::ExportReady { message })
            && message@ == "Collection export complete"@),
        t == ChildTask::ImportZip ==> (n matches Some(ReadyNotice::ImportReady { message })
            && message@ == "Collection import complete"@),
        t == ChildTask::GenerateMarkdown ==> (n matches Some(ReadyNotice::ExportReady { message })
            && message@ == "Markdown generation complete"@),
        t == ChildTask::ExportMerge ==> (n matches Some(ReadyNotice::ExportReady { message })
            && message@ == "Merge export complete"@),
        !(t == ChildTask::ExportCollection || t == ChildTask::ImportZip || t == ChildTask::GenerateMarkdown
            || t == ChildTask::ExportMerge) ==> n is None,
{
    match t {
        ChildTask::ExportCollection => Some(ReadyNotice::ExportReady { message: "Collection export complete".to_string() }),
        ChildTask::ImportZip => Some(ReadyNotice::ImportReady { message: "Collection import complete".to_string() }),
        ChildTask::GenerateMarkdown => Some(ReadyNotice::ExportReady { message: "Markdown generation complete".to_string() }),
        ChildTask::ExportMerge => Some(ReadyNotice::ExportReady { message: "Merge export complete".to_string() }),
        _ => None,
    }
}

/// A field of a report's JSON result, as far as the view refresh reads it.
#[derive(Debug, Clone)]
pub enum JsonField {
    Absent,
    Text(String),
    /// Present, but not a string.
    Other,
}

/// The view named by a result: its `view_type` field when present
/// (nothing when that is not a string), else its `ViewType` field.
pub open spec fn refresh_view(view_type: JsonField, view_type_alt: JsonField) -> Option<Seq<char>> {
    match view_type {
        JsonField::Text(s) => Some(s@),
        JsonField::Other => None,
        JsonField::Absent => match view_type_alt {
            JsonField::Text(s) => Some(s@),
            _ => None,
        },
    }
}

/// The view refresh a result asks for: the view (`refresh_view`) and its
/// count, 1 when the result gives no count.
pub fn view_refresh(view_type: JsonField, view_type_alt: JsonField, count: Option<u64>) -> (r: Option<(String, usize)>)
    ensures
        r is None <==> refresh_view(view_type, view_type_alt) is None,
        r matches Some((v, n)) ==> Some(v@) == refresh_view(view_type, view_type_alt)
            && n == (match count { Some(c) => c, None => 1 }) as usize,
{
    let name = match view_type {
        JsonField::Text(s) => Some(s),
        JsonField::Other => None,
        JsonField::Absent => match view_type_alt {
            JsonField::Text(s) => Some(s),
            _ => None,
        },
    };
    match name {
        None => None,
        Some(v) => {
            let c: u64 = match count {
                Some(c) => c,
                None => 1,
            };
            Some((v, c as usize))
        },
    }
}

/// A refresh asked for directly by a client: the view named as in
/// `refresh_view`, `general` when none is, and the count (1 when none is
/// given).
pub fn requested_refresh(view_type: JsonField, view_type_alt: JsonField, count: Option<u64>) -> (r: (String, usize))
    ensures
        r.0@ == (match refresh_view(view_type, view_type_alt) { Some(v) => v, None => "general"@ }),
        r.1 == (match count { Some(c) => c, None => 1 }) as usize,
{
    match view_refresh(view_type, view_type_alt, count) {
        Some(r) => r,
        None => {
            let c: u64 = match count {
                Some(c) => c,
                None => 1,
            };
            ("general".to_string(), c as usize)
        },
    }
}

/// The tasks whose reports the server handles itself.
pub open spec fn is_handled(t: ChildTask) -> bool {
    t == ChildTask::RunTest || t == ChildTask::WriteRequest || t == ChildTask::ExportCollection
        || t == ChildTask::ImportZip || t == ChildTask::GenerateMarkdown || t == ChildTask::ExportMerge
        || t == ChildTask::MarkActiveFolder || t == ChildTask::ComputeCrudOperations
}

/// A successful report goes to the handler of the task it names: for every
/// task the server handles, the report named by that task's wire name
/// (`task_name`) is routed to that task, and the report of any other task
/// to none.
pub proof fn lemma_reports_reach_their_handler(t: ChildTask)
    ensures
        handled_task(task_name(t)) == (if is_handled(t) { Some(t) } else { None }),
{
    reveal_strlit("run_test");
    reveal_strlit("write_request");
    reveal_strlit("export_collection");
    reveal_strlit("import_zip");
    reveal_strlit("generate_markdown");
    reveal_strlit("export_merge");
    reveal_strlit("mark_active_folder");
    reveal_strlit("compute_crud_operations");
    reveal_strlit("export_bookmarks");
    reveal_strlit("create_static");
    reveal_strlit("export_static");
    reveal_strlit("generate_meta");
    reveal_strlit("write_endpoint");
    reveal_strlit("write_response");
    reveal_strlit("write_headers");
    reveal_strlit("tagops_merge");
    reveal_strlit("tagops_create_from_tags");
    reveal_strlit("tagops_bulk_add");
    reveal_strlit("tagops_bulk_remove");
    reveal_strlit("tagops_rename");
    reveal_strlit("remove_url_prefix");
    reveal_strlit("table_view_scan");
    reveal_strlit("table_view_format_check");
    reveal_strlit("table_view_move");
    reveal_strlit("table_view_takeout");
    reveal_strlit("audit_orphaned_eids");
    reveal_strlit("purge_orphaned_eids");
    assert("run_test"@.len() == 8);
    assert("write_request"@.len() == 13);
    assert("export_collection"@.len() == 17);
    assert("import_zip"@.len() == 10);
    assert("generate_markdown"@.len() == 17);
    assert("export_merge"@.len() == 12);
    assert("mark_active_folder"@.len() == 18);
    assert("compute_crud_operations"@.len() == 23);
    match t {
        ChildTask::ExportCollection => {
            assert("export_collection"@[0] != "generate_markdown"@[0]);
            assert(handled_task(task_name(ChildTask::ExportCollection)) == Some(ChildTask::ExportCollection));
        },
        ChildTask::ExportMerge => {
            assert(handled_task(task_name(ChildTask::ExportMerge)) == Some(ChildTask::ExportMerge));
        },
        ChildTask::ImportZip => {
            assert(handled_task(task_name(ChildTask::ImportZip)) == Some(ChildTask::ImportZip));
        },
        ChildTask::ExportBookmarks => {
            assert(handled_task(task_name(ChildTask::ExportBookmarks)) is None);
        },
        ChildTask::CreateStatic => {
            assert("create_static"@[0] != "write_request"@[0]);
            assert(handled_task(task_name(ChildTask::CreateStatic)) is None);
        },
        ChildTask::ExportStatic => {
            assert("export_static"@[0] != "write_request"@[0]);
            assert(handled_task(task_name(ChildTask::ExportStatic)) is None);
        },
        ChildTask::GenerateMarkdown => {
            assert("generate_markdown"@[0] != "export_collection"@[0]);
            assert(handled_task(task_name(ChildTask::GenerateMarkdown)) == Some(ChildTask::GenerateMarkdown));
        },
        ChildTask::GenerateMeta => {
            assert("generate_meta"@[0] != "write_request"@[0]);
            assert(handled_task(task_name(ChildTask::GenerateMeta)) is None);
        },
        ChildTask::WriteEndpoint => {
            assert(handled_task(task_name(ChildTask::WriteEndpoint)) is None);
        },
        ChildTask::WriteRequest => {
            assert(handled_task(task_name(ChildTask::WriteRequest)) == Some(ChildTask::WriteRequest));
        },
        ChildTask::WriteResponse => {
            assert(handled_task(task_name(ChildTask::WriteResponse)) is None);
        },
        ChildTask::WriteHeaders => {
            assert("write_headers"@[6] != "write_request"@[6]);
            assert(handled_task(task_name(ChildTask::WriteHeaders)) is None);
        },
        ChildTask::ComputeCrudOperations => {
            assert(handled_task(task_name(ChildTask::ComputeCrudOperations)) == Some(ChildTask::ComputeCrudOperations));
        },
        ChildTask::MarkActiveFolder => {
            assert(handled_task(task_name(ChildTask::MarkActiveFolder)) == Some(ChildTask::MarkActiveFolder));
        },
        ChildTask::RunTest => {
            assert(handled_task(task_name(ChildTask::RunTest)) == Some(ChildTask::RunTest));
        },
        ChildTask::TagopsMerge => {
            assert("tagops_merge"@[0] != "export_merge"@[0]);
            assert(handled_task(task_name(ChildTask::TagopsMerge)) is None);
        },
        ChildTask::TagopsCreateFromTags => {
            assert("tagops_create_from_tags"@[0] != "compute_crud_operations"@[0]);
            assert(handled_task(task_name(ChildTask::TagopsCreateFromTags)) is None);
        },
        ChildTask::TagopsBulkAdd => {
            assert(handled_task(task_name(ChildTask::TagopsBulkAdd)) is None);
        },
        ChildTask::TagopsBulkRemove => {
            assert("tagops_bulk_remove"@[0] != "mark_active_folder"@[0]);
            assert(handled_task(task_name(ChildTask::TagopsBulkRemove)) is None);
        },
        ChildTask::TagopsRename => {
            assert("tagops_rename"@[0] != "write_request"@[0]);
            assert(handled_task(task_name(ChildTask::TagopsRename)) is None);
        },
        ChildTask::RemoveUrlPrefix => {
            assert("remove_url_prefix"@[0] != "export_collection"@[0]);
            assert("remove_url_prefix"@[0] != "generate_markdown"@[0]);
            assert(handled_task(task_name(ChildTask::RemoveUrlPrefix)) is None);
        },
        ChildTask::TableViewScan => {
            assert(handled_task(task_name(ChildTask::TableViewScan)) is None);
        },
        ChildTask::TableViewFormatCheck => {
            assert("table_view_format_check"@[0] != "compute_crud_operations"@[0]);
            assert(handled_task(task_name(ChildTask::TableViewFormatCheck)) is None);
        },
        ChildTask::TableViewMove => {
            assert(handled_task(task_name(ChildTask::TableViewMove)) is None);
        },
        ChildTask::TableViewTakeout => {
            assert("table_view_takeout"@[0] != "mark_active_folder"@[0]);
            assert(handled_task(task_name(ChildTask::TableViewTakeout)) is None);
        },
        ChildTask::AuditOrphanedEids => {
            assert(handled_task(task_name(ChildTask::AuditOrphanedEids)) is None);
        },
        ChildTask::PurgeOrphanedEids => {
            assert(handled_task(task_name(ChildTask::PurgeOrphanedEids)) is None);
        },
    }
}

} // verus!
