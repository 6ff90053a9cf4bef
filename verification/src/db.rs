//! Endpoints, request/response metadata, history, bookmarks and the
//! folder-based collections of the central EDMS database.
use vstd::prelude::*;
use crate::store::{changed_sum, logged_each, lemma_push_keeps, SqlArg, Stmt, opt_i32_view, EdmsCore, EdmsError, EdmsResult, SqlValue, Reply, Exchange, exchange, stmt, text, opt_text, opt_int, opt_view, ran, ran_named, is_unknown, asked, last_reply, first_or_zero, endpoint_rows_view, args_view, lemma_followed_by_asked};
use crate::queries::QueryMap;
use crate::text::strings_view;

verus! {

/// The bookmark folder that holds the active list.
pub const ACTIVE_FOLDER: &'static str = "__active__";
/// The bookmark folder that keeps the active list a collection load replaced.
pub const SESSION_BACKUP_FOLDER: &'static str = "__session_backup__";

/// An endpoint: its identifier, its address, and an optional annotation.
#[derive(Debug, Clone)]
pub struct EndpointDto {
    pub endpoint_id: String,
    pub endpoint_str: String,
    pub annotation: Option<String>,
}

impl View for EndpointDto {
    type V = (Seq<char>, Seq<char>, Option<Seq<char>>);

    open spec fn view(&self) -> Self::V {
        (self.endpoint_id@, self.endpoint_str@, opt_view(self.annotation))
    }
}

pub open spec fn dtos_view(v: Seq<EndpointDto>) -> Seq<(Seq<char>, Seq<char>, Option<Seq<char>>)> {
    v.map_values(|d: EndpointDto| d@)
}

fn text_arg(s: &str) -> (a: SqlValue)
    ensures
        a@ == text(s@),
{
    SqlValue::Text(s.to_owned())
}

fn opt_text_arg(s: Option<&str>) -> (a: SqlValue)
    ensures
        a@ == opt_text(match s { Some(t) => Some(t@), None => None }),
{
    match s {
        Some(t) => SqlValue::Text(t.to_owned()),
        None => SqlValue::Null,
    }
}

fn first_or_zero_of(v: &Vec<i64>) -> (r: i64)
    ensures
        r as int == first_or_zero(v@.map_values(|i: i64| i as int)),
{
    if v.len() > 0 { v[0] } else { 0 }
}

fn dtos_from_rows(rows: Vec<(String, String, Option<String>)>) -> (v: Vec<EndpointDto>)
    ensures
        dtos_view(v@) == endpoint_rows_view(rows@),
{
    let mut v: Vec<EndpointDto> = Vec::new();
    let mut i: usize = 0;
    while i < rows.len()
        invariant
            i <= rows@.len(),
            dtos_view(v@) == endpoint_rows_view(rows@.take(i as int)),
        decreases rows@.len() - i,
    {
        let row = &rows[i];
        v.push(EndpointDto { endpoint_id: row.0.clone(), endpoint_str: row.1.clone(), annotation: row.2.clone() });
        assert(endpoint_rows_view(rows@.take(i + 1)) =~= endpoint_rows_view(rows@.take(i as int)).push(
            endpoint_rows_view(rows@)[i as int],
        ));
        assert(dtos_view(v@) =~= dtos_view(v@.drop_last()).push(v@.last()@));
        i += 1;
    }
    assert(rows@.take(rows@.len() as int) =~= rows@);
    v
}

/* ---------------- endpoints ---------------- */

/// Adds an endpoint with query `E1` (`endpoint_id`, `endpoint_str`, `annotation`).
pub fn insert_endpoint(core: &mut EdmsCore, queries: &QueryMap, ep: &EndpointDto) -> (r: EdmsResult<usize>)
    ensures
        ran_named(*old(core), *final(core), queries.endpoints.view(), "E1"@,
            seq![text(ep.endpoint_id@), text(ep.endpoint_str@), opt_text(opt_view(ep.annotation))], r),
{
    match queries.get_endpoint_query("E1") {
        None => Err(EdmsError::UnknownError),
        Some(q) => {
            let ann = match &ep.annotation {
                Some(a) => SqlValue::Text(a.clone()),
                None => SqlValue::Null,
            };
            let args = vec![text_arg(ep.endpoint_id.as_str()), text_arg(ep.endpoint_str.as_str()), ann];
            assert(args_view(args@) =~= seq![text(ep.endpoint_id@), text(ep.endpoint_str@), opt_text(opt_view(ep.annotation))]);
            core.proc(q, args)
        },
    }
}

/// All endpoints, by query `E3` (columns 1 to 3 of each row).
pub fn list_endpoints(core: &mut EdmsCore, queries: &QueryMap) -> (r: EdmsResult<Vec<EndpointDto>>)
    ensures
        !queries.endpoints.view().contains_key("E3"@) || !old(core).is_connected()
            ==> old(core).same(*final(core)) && is_unknown(r),
        queries.endpoints.view().contains_key("E3"@) && old(core).is_connected() ==> {
            &&& old(core).followed_by(*final(core), exchange(
                stmt(queries.endpoints.view()["E3"@], seq![]),
                match r { Ok(v) => Reply::Endpoints(dtos_view(v@)), Err(_) => Reply::Failed },
            ))
            &&& !is_unknown(r)
        },
{
    match queries.get_endpoint_query("E3") {
        None => Err(EdmsError::UnknownError),
        Some(q) => {
            let args: Vec<SqlValue> = Vec::new();
            assert(args_view(args@) =~= seq![]);
            match core.query_endpoints(q, args) {
                Ok(rows) => Ok(dtos_from_rows(rows)),
                Err(e) => Err(e),
            }
        },
    }
}

/// The first row of a result, if any.
pub open spec fn first_of<T>(rows: Seq<T>) -> Option<T> {
    if rows.len() > 0 { Some(rows[0]) } else { None }
}

pub open spec fn opt_dto_view(o: Option<EndpointDto>) -> Option<(Seq<char>, Seq<char>, Option<Seq<char>>)> {
    match o {
        Some(d) => Some(d@),
        None => None,
    }
}

/// The endpoint with the given identifier, by query `E2`: the first row, if any.
pub fn get_endpoint(core: &mut EdmsCore, queries: &QueryMap, endpoint_id: &str) -> (r: EdmsResult<Option<EndpointDto>>)
    ensures
        !(queries.endpoints.view().contains_key("E2"@) && old(core).is_connected())
            ==> old(core).same(*final(core)) && is_unknown(r),
        queries.endpoints.view().contains_key("E2"@) && old(core).is_connected() ==> {
            &&& asked(*old(core), *final(core), stmt(queries.endpoints.view()["E2"@], seq![text(endpoint_id@)]))
            &&& !is_unknown(r)
            &&& r is Err ==> last_reply(*final(core)) is Failed
            &&& r matches Ok(o) ==> last_reply(*final(core)) matches Reply::Endpoints(rows)
                && opt_dto_view(o) == first_of(rows)
        },
{
    match queries.get_endpoint_query("E2") {
        None => Err(EdmsError::UnknownError),
        Some(q) => {
            let args = vec![text_arg(endpoint_id)];
            assert(args_view(args@) =~= seq![text(endpoint_id@)]);
            let res = core.query_endpoints(q, args);
            proof {
                if old(core).is_connected() {
                    lemma_followed_by_asked(*old(core), *core, core.journal().last());
                }
            }
            match res {
                Ok(rows) => {
                    let mut dtos = dtos_from_rows(rows);
                    let ghost old_dtos = dtos;
                    if dtos.len() > 0 {
                        let d = dtos.remove(0);
                        assert(dtos_view(old_dtos@)[0] == d@);
                        Ok(Some(d))
                    } else {
                        Ok(None)
                    }
                },
                Err(e) => Err(e),
            }
        },
    }
}


/// Sets an endpoint's annotation with query `E4` (`annotation`, `endpoint_id`).
pub fn update_annotation(core: &mut EdmsCore, queries: &QueryMap, endpoint_id: &str, annotation: &str) -> (r: EdmsResult<usize>)
    ensures
        ran_named(*old(core), *final(core), queries.endpoints.view(), "E4"@, seq![text(annotation@), text(endpoint_id@)], r),
{
    match queries.get_endpoint_query("E4") {
        None => Err(EdmsError::UnknownError),
        Some(q) => {
            let args = vec![text_arg(annotation), text_arg(endpoint_id)];
            assert(args_view(args@) =~= seq![text(annotation@), text(endpoint_id@)]);
            core.proc(q, args)
        },
    }
}

/// Deletes an endpoint with query `E5` (`endpoint_id`).
pub fn delete_endpoint(core: &mut EdmsCore, queries: &QueryMap, endpoint_id: &str) -> (r: EdmsResult<usize>)
    ensures
        ran_named(*old(core), *final(core), queries.endpoints.view(), "E5"@, seq![text(endpoint_id@)], r),
{
    match queries.get_endpoint_query("E5") {
        None => Err(EdmsError::UnknownError),
        Some(q) => {
            let args = vec![text_arg(endpoint_id)];
            assert(args_view(args@) =~= seq![text(endpoint_id@)]);
            core.proc(q, args)
        },
    }
}

/* ---------------- request/response metadata ---------------- */

/// The request number after the largest one recorded: one more than the
/// first row's value, or 1 when there is no row or it is `NULL`.
pub open spec fn next_request_number(rows: Seq<Option<int>>) -> int {
    match first_of(rows) {
        Some(Some(m)) => m + 1,
        _ => 1,
    }
}

/// The next request number of an endpoint, from query `R6` (the largest
/// number recorded so far). Fails with `UnknownError` when that number is
/// already `i32::MAX`.
pub fn get_next_request_number(core: &mut EdmsCore, queries: &QueryMap, endpoint_id: &str) -> (r: EdmsResult<i32>)
    ensures
        !(queries.requests.view().contains_key("R6"@) && old(core).is_connected())
            ==> old(core).same(*final(core)) && is_unknown(r),
        queries.requests.view().contains_key("R6"@) && old(core).is_connected() ==> {
            &&& asked(*old(core), *final(core), stmt(queries.requests.view()["R6"@], seq![text(endpoint_id@)]))
            &&& r matches Ok(n) ==> last_reply(*final(core)) matches Reply::OptInts(rows)
                && n == next_request_number(rows)
            &&& r is Err ==> last_reply(*final(core)) is Failed || (last_reply(*final(core)) matches Reply::OptInts(rows)
                && next_request_number(rows) > i32::MAX && is_unknown(r))
        },
{
    match queries.get_request_query("R6") {
        None => Err(EdmsError::UnknownError),
        Some(q) => {
            let args = vec![text_arg(endpoint_id)];
            assert(args_view(args@) =~= seq![text(endpoint_id@)]);
            let res = core.query_opt_i32s(q, args);
            proof {
                if old(core).is_connected() {
                    lemma_followed_by_asked(*old(core), *core, core.journal().last());
                }
            }
            match res {
                Ok(rows) => {
                    if rows.len() > 0 {
                        match rows[0] {
                            Some(max) => {
                                if max < i32::MAX {
                                    Ok(max + 1)
                                } else {
                                    Err(EdmsError::UnknownError)
                                }
                            },
                            None => Ok(1),
                        }
                    } else {
                        Ok(1)
                    }
                },
                Err(e) => Err(e),
            }
        },
    }
}

/// Records a request file with query `R1` (`endpoint_id`, `request_number`,
/// `file_path`, `method`).
pub fn insert_request_metadata(
    core: &mut EdmsCore,
    queries: &QueryMap,
    endpoint_id: &str,
    request_number: i32,
    file_path: &str,
    method: &str,
) -> (r: EdmsResult<usize>)
    ensures
        ran_named(*old(core), *final(core), queries.requests.view(), "R1"@,
            seq![text(endpoint_id@), SqlArg::Int(request_number as int), text(file_path@), text(method@)], r),
{
    match queries.get_request_query("R1") {
        None => Err(EdmsError::UnknownError),
        Some(q) => {
            let args = vec![text_arg(endpoint_id), SqlValue::Int(request_number as i64), text_arg(file_path), text_arg(method)];
            assert(args_view(args@) =~= seq![text(endpoint_id@), SqlArg::Int(request_number as int), text(file_path@), text(method@)]);
            core.proc(q, args)
        },
    }
}

/// Records a response file with query `RES1` (`endpoint_id`,
/// `request_number`, `file_path`, `status_code`, `response_time_ms`).
pub fn insert_response_metadata(
    core: &mut EdmsCore,
    queries: &QueryMap,
    endpoint_id: &str,
    request_number: i32,
    file_path: &str,
    status_code: i32,
    response_time_ms: Option<i32>,
) -> (r: EdmsResult<usize>)
    ensures
        ran_named(*old(core), *final(core), queries.responses.view(), "RES1"@,
            seq![text(endpoint_id@), SqlArg::Int(request_number as int), text(file_path@),
                SqlArg::Int(status_code as int), opt_int(opt_i32_view(response_time_ms))], r),
{
    match queries.get_response_query("RES1") {
        None => Err(EdmsError::UnknownError),
        Some(q) => {
            let time = match response_time_ms {
                Some(t) => SqlValue::Int(t as i64),
                None => SqlValue::Null,
            };
            let args = vec![text_arg(endpoint_id), SqlValue::Int(request_number as i64), text_arg(file_path),
                SqlValue::Int(status_code as i64), time];
            assert(args_view(args@) =~= seq![text(endpoint_id@), SqlArg::Int(request_number as int), text(file_path@),
                SqlArg::Int(status_code as int), opt_int(opt_i32_view(response_time_ms))]);
            core.proc(q, args)
        },
    }
}

/* ---------------- history ---------------- */

/// Counts the rows of `history`.
pub fn history_count(core: &mut EdmsCore) -> (r: EdmsResult<usize>)
    ensures
        !old(core).is_connected() ==> old(core).same(*final(core)) && is_unknown(r),
        old(core).is_connected() ==> {
            &&& asked(*old(core), *final(core), stmt("SELECT COUNT(*) FROM history"@, seq![]))
            &&& !is_unknown(r)
            &&& r is Err ==> last_reply(*final(core)) is Failed
            &&& r matches Ok(n) ==> last_reply(*final(core)) matches Reply::Ints(rows)
                && n == first_or_zero(rows) as usize
        },
{
    let args: Vec<SqlValue> = Vec::new();
    assert(args_view(args@) =~= seq![]);
    let res = core.query_ints("SELECT COUNT(*) FROM history", args);
    proof {
        if old(core).is_connected() {
            lemma_followed_by_asked(*old(core), *core, core.journal().last());
        }
    }
    match res {
        Ok(rows) => Ok(first_or_zero_of(&rows) as usize),
        Err(e) => Err(e),
    }
}

/// Deletes every row of `history`.
pub fn clear_history(core: &mut EdmsCore) -> (r: EdmsResult<usize>)
    ensures
        ran(*old(core), *final(core), stmt("DELETE FROM history"@, seq![]), r),
{
    let args: Vec<SqlValue> = Vec::new();
    assert(args_view(args@) =~= seq![]);
    core.proc("DELETE FROM history", args)
}

/// Adds a history row.
pub fn insert_history(core: &mut EdmsCore, endpoint_id: &str, action: &str, details: Option<&str>) -> (r: EdmsResult<usize>)
    ensures
        ran(*old(core), *final(core), stmt("INSERT INTO history (endpoint_id, action, details) VALUES (?, ?, ?)"@,
            seq![text(endpoint_id@), text(action@), opt_text(match details { Some(d) => Some(d@), None => None })]), r),
{
    let args = vec![text_arg(endpoint_id), text_arg(action), opt_text_arg(details)];
    assert(args_view(args@) =~= seq![text(endpoint_id@), text(action@), opt_text(match details { Some(d) => Some(d@), None => None })]);
    core.proc("INSERT INTO history (endpoint_id, action, details) VALUES (?, ?, ?)", args)
}

/// The endpoint of each history row, most recent first.
pub fn list_history_endpoint_ids(core: &mut EdmsCore) -> (r: EdmsResult<Vec<String>>)
    ensures
        !old(core).is_connected() ==> old(core).same(*final(core)) && is_unknown(r),
        old(core).is_connected() ==> !is_unknown(r) && old(core).followed_by(*final(core), exchange(
            stmt("SELECT endpoint_id FROM history ORDER BY timestamp DESC"@, seq![]),
            match r { Ok(v) => Reply::Texts(strings_view(v@)), Err(_) => Reply::Failed },
        )),
{
    let args: Vec<SqlValue> = Vec::new();
    assert(args_view(args@) =~= seq![]);
    core.query_texts("SELECT endpoint_id FROM history ORDER BY timestamp DESC", args)
}

/* ---------------- bookmarks ---------------- */

/// Counts the bookmarks of the active list.
pub fn bookmarks_count_active(core: &mut EdmsCore) -> (r: EdmsResult<usize>)
    ensures
        !old(core).is_connected() ==> old(core).same(*final(core)) && is_unknown(r),
        old(core).is_connected() ==> {
            &&& asked(*old(core), *final(core), active_count_stmt())
            &&& !is_unknown(r)
            &&& r is Err ==> last_reply(*final(core)) is Failed
            &&& r matches Ok(n) ==> last_reply(*final(core)) matches Reply::Ints(rows)
                && n == first_or_zero(rows) as usize
        },
{
    let args = vec![text_arg(ACTIVE_FOLDER)];
    assert(args_view(args@) =~= seq![text(ACTIVE_FOLDER@)]);
    let res = core.query_ints("SELECT COUNT(*) FROM bookmarks WHERE folder = ?", args);
    proof {
        if old(core).is_connected() {
            lemma_followed_by_asked(*old(core), *core, core.journal().last());
        }
    }
    match res {
        Ok(rows) => Ok(first_or_zero_of(&rows) as usize),
        Err(e) => Err(e),
    }
}

/// Empties the active list.
pub fn clear_bookmarks_active(core: &mut EdmsCore) -> (r: EdmsResult<usize>)
    ensures
        ran(*old(core), *final(core), active_clear_stmt(), r),
{
    let args = vec![text_arg(ACTIVE_FOLDER)];
    assert(args_view(args@) =~= seq![text(ACTIVE_FOLDER@)]);
    core.proc("DELETE FROM bookmarks WHERE folder = ?", args)
}

/// The endpoints of the active list, most recent first.
pub fn list_bookmarked_endpoints_active(core: &mut EdmsCore) -> (r: EdmsResult<Vec<String>>)
    ensures
        !old(core).is_connected() ==> old(core).same(*final(core)) && is_unknown(r),
        old(core).is_connected() ==> !is_unknown(r) && old(core).followed_by(*final(core), exchange(
            folder_list_stmt(ACTIVE_FOLDER@),
            match r { Ok(v) => Reply::Texts(strings_view(v@)), Err(_) => Reply::Failed },
        )),
{
    let args = vec![text_arg(ACTIVE_FOLDER)];
    assert(args_view(args@) =~= seq![text(ACTIVE_FOLDER@)]);
    core.query_texts("SELECT endpoint_id FROM bookmarks WHERE folder = ? ORDER BY timestamp DESC", args)
}

/// Adds an endpoint to the active list.
pub fn insert_bookmark_active(core: &mut EdmsCore, endpoint_id: &str, notes: Option<&str>) -> (r: EdmsResult<usize>)
    ensures
        ran(*old(core), *final(core), active_insert_stmt(endpoint_id@, match notes { Some(n) => Some(n@), None => None }), r),
{
    let args = vec![text_arg(endpoint_id), text_arg(ACTIVE_FOLDER), opt_text_arg(notes)];
    let ghost nv = match notes { Some(n) => Some(n@), None => None };
    assert(args_view(args@) =~= seq![text(endpoint_id@), text(ACTIVE_FOLDER@), opt_text(nv)]);
    assert(active_insert_stmt(endpoint_id@, nv) == stmt("INSERT INTO bookmarks (endpoint_id, folder, notes) VALUES (?, ?, ?)"@, args_view(args@)));
    core.proc("INSERT INTO bookmarks (endpoint_id, folder, notes) VALUES (?, ?, ?)", args)
}

/// Removes an endpoint from the active list.
pub fn delete_bookmark_active(core: &mut EdmsCore, endpoint_id: &str) -> (r: EdmsResult<usize>)
    ensures
        ran(*old(core), *final(core), stmt("DELETE FROM bookmarks WHERE folder = ? AND endpoint_id = ?"@,
            seq![text(ACTIVE_FOLDER@), text(endpoint_id@)]), r),
{
    let args = vec![text_arg(ACTIVE_FOLDER), text_arg(endpoint_id)];
    assert(args_view(args@) =~= seq![text(ACTIVE_FOLDER@), text(endpoint_id@)]);
    core.proc("DELETE FROM bookmarks WHERE folder = ? AND endpoint_id = ?", args)
}

/* ---------------- folder collections ---------------- */

/// The statement that bookmarks `endpoint_id` in `folder` without notes:
/// either with `NULL` written into the SQL, or bound as a third parameter.
pub open spec fn bookmark_stmt(endpoint_id: Seq<char>, folder: Seq<char>, bound_null: bool) -> Stmt {
    if bound_null {
        stmt("INSERT INTO bookmarks (endpoint_id, folder, notes) VALUES (?, ?, ?)"@,
            seq![text(endpoint_id), text(folder), SqlArg::Null])
    } else {
        folder_copy_stmt(endpoint_id, folder)
    }
}

/// `j[from..]` holds the statements `mk(ids[0])`, `mk(ids[1])`, ... up to
/// one that stopped the run: the first that SQLite refused (the error is
/// then SQLite's, not `UnknownError`), or the first whose change count took
/// the running total past `usize::MAX` (the error is then `UnknownError`).
/// Nothing follows it.
pub open spec fn stopped_at_failure(j: Seq<Exchange>, from: int, ids: Seq<Seq<char>>, mk: spec_fn(Seq<char>) -> Stmt, unknown: bool) -> bool {
    let n = j.len() - from - 1;
    &&& from < j.len() <= from + ids.len()
    &&& logged_each(j, from, ids, mk, n)
    &&& j[from + n].stmt == mk(ids[n])
    &&& (j[from + n].reply is Failed && !unknown)
        || (j[from + n].reply is Changed && unknown && changed_sum(j, from, j.len() as int) > usize::MAX)
}

/// Bookmarks each of `ids`, in order, in `folder`; stops at the first error.
/// The result is the total number of rows inserted (an overflow of the total
/// is reported as `UnknownError`).
fn bookmark_each(core: &mut EdmsCore, ids: &Vec<String>, folder: &str, bound_null: bool) -> (r: EdmsResult<usize>)
    requires
        old(core).is_connected(),
    ensures
        final(core).path() == old(core).path(),
        final(core).is_connected(),
        old(core).journal().len() <= final(core).journal().len(),
        final(core).journal().take(old(core).journal().len() as int) == old(core).journal(),
        r matches Ok(n) ==> {
            let j = final(core).journal();
            let s = old(core).journal().len() as int;
            &&& j.len() == s + ids@.len()
            &&& logged_each(j, s, strings_view(ids@), |e: Seq<char>| bookmark_stmt(e, folder@, bound_null), ids@.len() as int)
            &&& n == changed_sum(j, s, j.len() as int)
        },
        r is Err ==> stopped_at_failure(final(core).journal(), old(core).journal().len() as int, strings_view(ids@),
            |e: Seq<char>| bookmark_stmt(e, folder@, bound_null), is_unknown(r)),
{
    let ghost s = old(core).journal().len() as int;
    let ghost idv = strings_view(ids@);
    let ghost mk = |e: Seq<char>| bookmark_stmt(e, folder@, bound_null);
    assert(core.journal().take(s) =~= old(core).journal());
    let mut total: usize = 0;
    let mut i: usize = 0;
    while i < ids.len()
        invariant
            i <= ids@.len(),
            idv == strings_view(ids@),
            core.path() == old(core).path(),
            core.is_connected(),
            s == old(core).journal().len(),
            core.journal().len() == s + i,
            core.journal().take(s) == old(core).journal(),
            mk == (|e: Seq<char>| bookmark_stmt(e, folder@, bound_null)),
            logged_each(core.journal(), s, idv, mk, i as int),
            total == changed_sum(core.journal(), s, s + i),
        decreases ids@.len() - i,
    {
        let ghost before = *core;
        let res = if bound_null {
            let args = vec![text_arg(ids[i].as_str()), text_arg(folder), SqlValue::Null];
            assert(args_view(args@) =~= seq![text(idv[i as int]), text(folder@), SqlArg::Null]);
            core.proc("INSERT INTO bookmarks (endpoint_id, folder, notes) VALUES (?, ?, ?)", args)
        } else {
            let args = vec![text_arg(ids[i].as_str()), text_arg(folder)];
            assert(args_view(args@) =~= seq![text(idv[i as int]), text(folder@)]);
            core.proc("INSERT INTO bookmarks (endpoint_id, folder, notes) VALUES (?, ?, NULL)", args)
        };
        proof {
            lemma_push_keeps(before.journal(), core.journal().last(), s, s + i);
            assert(core.journal() == before.journal().push(core.journal().last()));
            assert forall|k: int| 0 <= k < s implies core.journal().take(s)[k] == before.journal().take(s)[k] by {
                assert(core.journal()[k] == before.journal()[k]);
            }
            assert(core.journal().take(s) =~= before.journal().take(s));
        }
        proof {
            let j = core.journal();
            assert(j[s + i as int] == j.last());
            assert(j[s + i as int].stmt == mk(idv[i as int]));
            assert forall|k: int| s <= k < s + i implies #[trigger] j[k].stmt == mk(idv[k - s]) && j[k].reply is Changed by {
                assert(logged_each(before.journal(), s, idv, mk, i as int));
                assert(before.journal()[k].stmt == mk(idv[k - s]));
                assert(j[k] == before.journal()[k]);
            }
            assert(logged_each(j, s, idv, mk, i as int));
        }
        match res {
            Ok(c) => {
                proof {
                    let j = core.journal();
                    assert(j[s + i as int].stmt == mk(idv[i as int]));
                    assert forall|k: int| s <= k < s + i + 1 implies #[trigger] j[k].stmt == mk(idv[k - s]) && j[k].reply is Changed by {
                        if k < s + i {
                            assert(j[k] == before.journal()[k]);
                        }
                    }
                    assert(logged_each(j, s, idv, mk, i + 1));
                }
                match total.checked_add(c) {
                    Some(t) => {
                        total = t;
                    },
                    None => {
                        return Err(EdmsError::UnknownError);
                    },
                }
            },
            Err(e) => {
                return Err(e);
            },
        }
        i += 1;
    }
    Ok(total)
}

/// Copies the active list into the folder `collection`: each endpoint of the
/// active list (most recent first) is bookmarked there. The result is the
/// total number of rows inserted; an overflow of that total is reported as
/// `UnknownError`.
pub fn create_collection_from_active(core: &mut EdmsCore, collection: &str) -> (r: EdmsResult<usize>)
    ensures
        !old(core).is_connected() ==> old(core).same(*final(core)) && is_unknown(r),
        final(core).path() == old(core).path(),
        final(core).is_connected() == old(core).is_connected(),
        old(core).journal().len() <= final(core).journal().len(),
        final(core).journal().take(old(core).journal().len() as int) == old(core).journal(),
        r matches Ok(n) ==> {
            let j = final(core).journal();
            let s = old(core).journal().len() as int;
            &&& j[s].stmt == folder_list_stmt(ACTIVE_FOLDER@)
            &&& j[s].reply matches Reply::Texts(ids)
            &&& j.len() == s + 1 + ids.len()
            &&& logged_each(j, s + 1, ids, |e: Seq<char>| folder_copy_stmt(e, collection@), ids.len() as int)
            &&& n == changed_sum(j, s + 1, j.len() as int)
        },
        old(core).is_connected() ==> {
            let j = final(core).journal();
            let s = old(core).journal().len() as int;
            &&& s < j.len()
            &&& j[s].stmt == folder_list_stmt(ACTIVE_FOLDER@)
            &&& r is Err ==> {
                ||| j.len() == s + 1 && j[s].reply is Failed && !is_unknown(r)
                ||| j[s].reply matches Reply::Texts(ids)
                    && stopped_at_failure(j, s + 1, ids, |e: Seq<char>| folder_copy_stmt(e, collection@), is_unknown(r))
            }
        },
{
    let ghost s = old(core).journal().len() as int;
    let ids = match list_bookmarked_endpoints_active(core) {
        Ok(v) => v,
        Err(e) => {
            proof { assert(core.journal().take(s) =~= old(core).journal()); }
            return Err(e);
        },
    };
    let ghost j1 = core.journal();
    let res = bookmark_each(core, &ids, collection, false);
    proof {
        assert(j1.take(s) =~= old(core).journal());
        assert(core.journal()[s] == j1[s]);
        assert(core.journal().take(s) =~= j1.take(s));
        assert((|e: Seq<char>| bookmark_stmt(e, collection@, false)) =~= (|e: Seq<char>| folder_copy_stmt(e, collection@)));
    }
    res
}

/// Where the clearing of the active list stands in the journal of a
/// collection load that started at `s`: right after the count when nothing
/// was backed up, else after the listing and the backup copies.
pub open spec fn clear_index(j: Seq<Exchange>, s: int, moved: bool) -> int {
    if moved {
        match j[s + 1].reply {
            Reply::Texts(b) => s + 2 + b.len(),
            _ => s + 1,
        }
    } else {
        s + 1
    }
}

/// The journal `j`, from index `s` on, is that of a collection load of
/// `collection` that returned `(moved, loaded)`.
pub open spec fn load_logged(j: Seq<Exchange>, s: int, collection: Seq<char>, moved: bool, loaded: int) -> bool {
    let c = clear_index(j, s, moved);
    &&& 0 <= s < j.len()
    &&& j[s].stmt == active_count_stmt()
    &&& j[s].reply matches Reply::Ints(rows) && moved == (first_or_zero(rows) as usize > 0)
    &&& moved ==> {
        &&& s + 1 < j.len()
        &&& j[s + 1].stmt == folder_list_stmt(ACTIVE_FOLDER@)
        &&& j[s + 1].reply matches Reply::Texts(b)
            && logged_each(j, s + 2, b, |e: Seq<char>| folder_copy_stmt(e, SESSION_BACKUP_FOLDER@), b.len() as int)
    }
    &&& c + 1 < j.len()
    &&& j[c].stmt == active_clear_stmt() && j[c].reply is Changed
    &&& j[c + 1].stmt == folder_list_stmt(collection)
    &&& j[c + 1].reply matches Reply::Texts(ids) && {
        &&& j.len() == c + 2 + ids.len()
        &&& logged_each(j, c + 2, ids, |e: Seq<char>| active_insert_stmt(e, None), ids.len() as int)
        &&& loaded == changed_sum(j, c + 2, j.len() as int)
    }
}

/// The journal `j`, from index `s` on, is that of a collection load of
/// `collection` that stopped on an error: the steps of `load_logged` up to
/// the one that failed, and nothing after it. `unknown` tells whether the
/// error is `UnknownError` (a total that overflowed) rather than SQLite's.
pub open spec fn load_failed(j: Seq<Exchange>, s: int, collection: Seq<char>, unknown: bool) -> bool {
    &&& 0 <= s < j.len()
    &&& j[s].stmt == active_count_stmt()
    &&& {
        ||| j.len() == s + 1 && j[s].reply is Failed && !unknown
        ||| j[s].reply matches Reply::Ints(rows) && {
            let moved = first_or_zero(rows) as usize > 0;
            let c = clear_index(j, s, moved);
            ||| moved && s + 1 < j.len() && j[s + 1].stmt == folder_list_stmt(ACTIVE_FOLDER@) && {
                ||| j.len() == s + 2 && j[s + 1].reply is Failed && !unknown
                ||| j[s + 1].reply matches Reply::Texts(b) && stopped_at_failure(j, s + 2, b,
                    |e: Seq<char>| folder_copy_stmt(e, SESSION_BACKUP_FOLDER@), unknown)
            }
            ||| (moved ==> {
                &&& s + 1 < j.len()
                &&& j[s + 1].stmt == folder_list_stmt(ACTIVE_FOLDER@)
                &&& j[s + 1].reply matches Reply::Texts(b)
                    && logged_each(j, s + 2, b, |e: Seq<char>| folder_copy_stmt(e, SESSION_BACKUP_FOLDER@), b.len() as int)
            }) && c < j.len() && j[c].stmt == active_clear_stmt() && {
                ||| j.len() == c + 1 && j[c].reply is Failed && !unknown
                ||| j[c].reply is Changed && c + 1 < j.len() && j[c + 1].stmt == folder_list_stmt(collection) && {
                    ||| j.len() == c + 2 && j[c + 1].reply is Failed && !unknown
                    ||| j[c + 1].reply matches Reply::Texts(ids) && stopped_at_failure(j, c + 2, ids,
                        |e: Seq<char>| active_insert_stmt(e, None), unknown)
                }
            }
        }
    }
}

proof fn lemma_logged_each_prefix(j: Seq<Exchange>, j2: Seq<Exchange>, from: int, ids: Seq<Seq<char>>, mk: spec_fn(Seq<char>) -> Stmt, n: int)
    requires
        logged_each(j, from, ids, mk, n),
        j.len() <= j2.len(),
        j2.take(j.len() as int) == j,
    ensures
        logged_each(j2, from, ids, mk, n),
{
    assert forall|k: int| from <= k < from + n implies #[trigger] j2[k].stmt == mk(ids[k - from]) && j2[k].reply is Changed by {
        assert(from <= k < from + n);
        assert(0 <= k < j.len());
        assert(j2[k] == j2.take(j.len() as int)[k]);
        assert(j[k].stmt == mk(ids[k - from]));
    }
}

proof fn lemma_take_chain(a: Seq<Exchange>, b: Seq<Exchange>, c: Seq<Exchange>)
    requires
        a.len() <= b.len() <= c.len(),
        b.take(a.len() as int) == a,
        c.take(b.len() as int) == b,
    ensures
        c.take(a.len() as int) == a,
{
    assert forall|k: int| 0 <= k < a.len() implies c.take(a.len() as int)[k] == a[k] by {
        assert(c[k] == c.take(b.len() as int)[k]);
        assert(b[k] == b.take(a.len() as int)[k]);
    }
    assert(c.take(a.len() as int) =~= a);
}

/// Loads the folder `collection` into the active list. When the active list
/// is not empty it is first copied into the session-backup folder; then the
/// active list is cleared and each endpoint of `collection` (most recent
/// first) is added to it. Returns whether a backup was made and how many
/// rows were added; an overflow of either total is reported as `UnknownError`.
pub fn load_collection_into_active(core: &mut EdmsCore, collection: &str) -> (r: EdmsResult<(bool, usize)>)
    ensures
        !old(core).is_connected() ==> old(core).same(*final(core)) && is_unknown(r),
        final(core).path() == old(core).path(),
        final(core).is_connected() == old(core).is_connected(),
        old(core).journal().len() <= final(core).journal().len(),
        final(core).journal().take(old(core).journal().len() as int) == old(core).journal(),
        r matches Ok((moved, loaded)) ==> load_logged(final(core).journal(), old(core).journal().len() as int,
            collection@, moved, loaded as int),
        old(core).is_connected() && r is Err ==> load_failed(final(core).journal(), old(core).journal().len() as int,
            collection@, is_unknown(r)),
{
    let ghost s = old(core).journal().len() as int;
    let ghost j0 = old(core).journal();
    proof { assert(j0.take(s) =~= j0); }
    let count = match bookmarks_count_active(core) {
        Ok(n) => n,
        Err(e) => {
            proof { assert(core.journal().take(s) =~= j0); }
            return Err(e);
        },
    };
    let ghost j1 = core.journal();
    proof { assert(j1.take(s) =~= j0); }
    let moved = count > 0;
    if moved {
        let ids = match list_bookmarked_endpoints_active(core) {
            Ok(v) => v,
            Err(e) => {
                proof {
                    assert(core.journal().take(j1.len() as int) =~= j1);
                    lemma_take_chain(j0, j1, core.journal());
                }
                return Err(e);
            },
        };
        let ghost j2 = core.journal();
        proof { assert(j2.take(j1.len() as int) =~= j1); }
        let res = bookmark_each(core, &ids, SESSION_BACKUP_FOLDER, false);
        proof {
            lemma_take_chain(j1, j2, core.journal());
            lemma_take_chain(j0, j1, core.journal());
        }
        match res {
            Ok(_) => {},
            Err(e) => {
                return Err(e);
            },
        }
        proof {
            assert(core.journal()[s] == j1[s]);
            assert(core.journal()[s + 1] == j2[s + 1]);
            assert((|e: Seq<char>| bookmark_stmt(e, SESSION_BACKUP_FOLDER@, false)) =~= (|e: Seq<char>| folder_copy_stmt(e, SESSION_BACKUP_FOLDER@)));
        }
    }
    let ghost jb = core.journal();
    let ghost c = jb.len() as int;
    proof {
        assert(jb[s] == j1[s]);
        assert(c == clear_index(jb, s, moved));
    }
    match clear_bookmarks_active(core) {
        Ok(_) => {},
        Err(e) => {
            proof {
                assert(core.journal().take(jb.len() as int) =~= jb);
                lemma_take_chain(j0, jb, core.journal());
            }
            return Err(e);
        },
    }
    let ghost jc = core.journal();
    proof { assert(jc.take(jb.len() as int) =~= jb); }
    let args = vec![text_arg(collection)];
    assert(args_view(args@) =~= seq![text(collection@)]);
    let ids = match core.query_texts("SELECT endpoint_id FROM bookmarks WHERE folder = ? ORDER BY timestamp DESC", args) {
        Ok(v) => v,
        Err(e) => {
            proof {
                let j = core.journal();
                assert(j.take(jc.len() as int) =~= jc);
                lemma_take_chain(jb, jc, j);
                lemma_take_chain(j0, jb, j);
                assert(j[s] == jb[s]);
                assert(j[c] == jc[c]);
                if moved {
                    assert(j[s + 1] == jb[s + 1]);
                    match jb[s + 1].reply {
                        Reply::Texts(b) => {
                            lemma_logged_each_prefix(jb, j, s + 2, b, |e: Seq<char>| folder_copy_stmt(e, SESSION_BACKUP_FOLDER@), b.len() as int);
                        },
                        _ => {},
                    }
                }
                assert(clear_index(j, s, moved) == c);
                assert(j[c + 1] == j.last());
            }
            return Err(e);
        },
    };
    let ghost jd = core.journal();
    proof { assert(jd.take(jc.len() as int) =~= jc); }
    let res = bookmark_each(core, &ids, ACTIVE_FOLDER, true);
    proof {
        lemma_take_chain(jc, jd, core.journal());
        lemma_take_chain(jb, jc, core.journal());
        lemma_take_chain(j0, jb, core.journal());
    }
    proof {
        let j = core.journal();
        assert(j[c] == jc[c]);
        assert(j[c + 1] == jd[c + 1]);
        assert(j[s] == jb[s]);
        if moved {
            assert(j[s + 1] == jb[s + 1]);
            assert(jb.take(jb.len() as int) =~= jb);
            match jb[s + 1].reply {
                Reply::Texts(b) => {
                    lemma_logged_each_prefix(jb, j, s + 2, b, |e: Seq<char>| folder_copy_stmt(e, SESSION_BACKUP_FOLDER@), b.len() as int);
                },
                _ => {},
            }
        }
        assert(clear_index(j, s, moved) == c);
        assert((|e: Seq<char>| bookmark_stmt(e, ACTIVE_FOLDER@, true)) =~= (|e: Seq<char>| active_insert_stmt(e, None)));
    }
    let loaded = match res {
        Ok(n) => n,
        Err(e) => {
            return Err(e);
        },
    };
    Ok((moved, loaded))
}

/// The endpoints found by the lookups journaled at `j[from..from + n]`: the
/// first row of each answer that has one, in order.
pub open spec fn found_endpoints(j: Seq<Exchange>, from: int, n: int) -> Seq<(Seq<char>, Seq<char>, Option<Seq<char>>)>
    decreases n,
{
    if n <= 0 {
        seq![]
    } else {
        let before = found_endpoints(j, from, n - 1);
        match j[from + n - 1].reply {
            Reply::Endpoints(rows) => if rows.len() > 0 { before.push(rows[0]) } else { before },
            _ => before,
        }
    }
}

/// `j[from..from + ids.len()]` holds the lookups of `ids` in order with
/// query `q`, each answered with rows.
pub open spec fn lookups_logged(j: Seq<Exchange>, from: int, q: Seq<char>, ids: Seq<Seq<char>>) -> bool {
    &&& 0 <= from
    &&& from + ids.len() == j.len()
    &&& forall|k: int| from <= k < from + ids.len() ==> #[trigger] j[k].stmt == stmt(q, seq![text(ids[k - from])])
        && j[k].reply is Endpoints
}

proof fn lemma_found_prefix(j: Seq<Exchange>, j2: Seq<Exchange>, from: int, n: int)
    requires
        0 <= from,
        0 <= n,
        from + n <= j.len() <= j2.len(),
        j2.take(j.len() as int) == j,
    ensures
        found_endpoints(j2, from, n) == found_endpoints(j, from, n),
    decreases n,
{
    if n > 0 {
        lemma_found_prefix(j, j2, from, n - 1);
        assert(j2[from + n - 1] == j2.take(j.len() as int)[from + n - 1]);
    }
}

/// The endpoints with the given identifiers, by one `E2` lookup per
/// identifier in order; identifiers with no endpoint are skipped. With no
/// identifiers nothing is asked.
pub fn endpoints_for_ids(core: &mut EdmsCore, queries: &QueryMap, ids: &[String]) -> (r: EdmsResult<Vec<EndpointDto>>)
    ensures
        ids@.len() == 0 ==> old(core).same(*final(core)) && (r matches Ok(v) && v@.len() == 0),
        ids@.len() > 0 && !(queries.endpoints.view().contains_key("E2"@) && old(core).is_connected())
            ==> old(core).same(*final(core)) && is_unknown(r),
        final(core).path() == old(core).path(),
        final(core).is_connected() == old(core).is_connected(),
        old(core).journal().len() <= final(core).journal().len(),
        final(core).journal().take(old(core).journal().len() as int) == old(core).journal(),
        ids@.len() > 0 ==> (r matches Ok(v) ==> {
            let j = final(core).journal();
            let s = old(core).journal().len() as int;
            &&& lookups_logged(j, s, queries.endpoints.view()["E2"@], strings_view(ids@))
            &&& dtos_view(v@) == found_endpoints(j, s, ids@.len() as int)
        }),
        queries.endpoints.view().contains_key("E2"@) && old(core).is_connected() && r is Err ==> {
            let j = final(core).journal();
            let s = old(core).journal().len() as int;
            let n = j.len() - s - 1;
            let q = queries.endpoints.view()["E2"@];
            &&& s < j.len() <= s + ids@.len()
            &&& forall|k: int| s <= k < s + n ==> #[trigger] j[k].stmt == stmt(q, seq![text(ids@[k - s]@)])
                && j[k].reply is Endpoints
            &&& j[s + n].stmt == stmt(q, seq![text(ids@[n]@)])
            &&& j[s + n].reply is Failed
            &&& !is_unknown(r)
        },
{
    let ghost s = old(core).journal().len() as int;
    let ghost idv = strings_view(ids@);
    let ghost q = queries.endpoints.view()["E2"@];
    proof { assert(core.journal().take(s) =~= old(core).journal()); }
    let mut out: Vec<EndpointDto> = Vec::new();
    let mut i: usize = 0;
    while i < ids.len()
        invariant
            i <= ids@.len(),
            idv == strings_view(ids@),
            q == queries.endpoints.view()["E2"@],
            s == old(core).journal().len(),
            core.path() == old(core).path(),
            core.is_connected() == old(core).is_connected(),
            i == 0 ==> old(core).same(*core),
            i > 0 ==> core.is_connected() && queries.endpoints.view().contains_key("E2"@),
            core.journal().len() == s + i,
            core.journal().take(s) == old(core).journal(),
            forall|k: int| s <= k < s + i ==> #[trigger] core.journal()[k].stmt == stmt(q, seq![text(idv[k - s])])
                && core.journal()[k].reply is Endpoints,
            dtos_view(out@) == found_endpoints(core.journal(), s, i as int),
        decreases ids@.len() - i,
    {
        let ghost before = *core;
        let res = get_endpoint(core, queries, ids[i].as_str());
        let found = match res {
            Ok(o) => o,
            Err(e) => {
                proof {
                    if before.is_connected() && queries.endpoints.view().contains_key("E2"@) {
                        assert(core.journal().drop_last() == before.journal());
                        assert forall|k: int| 0 <= k < s implies core.journal().take(s)[k] == old(core).journal()[k] by {
                            assert(core.journal()[k] == before.journal()[k]);
                            assert(before.journal()[k] == before.journal().take(s)[k]);
                        }
                        assert(core.journal().take(s) =~= old(core).journal());
                        let j = core.journal();
                        assert(j.len() == s + i + 1);
                        assert(j[s + i as int] == j.last());
                        assert(idv[i as int] == ids@[i as int]@);
                        assert forall|k: int| s <= k < s + i implies #[trigger] j[k].stmt == stmt(q, seq![text(ids@[k - s]@)])
                            && j[k].reply is Endpoints by {
                            assert(j[k] == before.journal()[k]);
                            assert(before.journal()[k].stmt == stmt(q, seq![text(idv[k - s])]));
                            assert(idv[k - s] == ids@[k - s]@);
                        }
                    }
                }
                return Err(e);
            },
        };
        proof {
            let j = core.journal();
            let jb = before.journal();
            assert(j.drop_last() == jb);
            assert(j.take(jb.len() as int) =~= jb);
            lemma_found_prefix(jb, j, s, i as int);
            assert forall|k: int| 0 <= k < s implies j.take(s)[k] == old(core).journal()[k] by {
                assert(j[k] == jb[k]);
                assert(jb[k] == jb.take(s)[k]);
            }
            assert(j.take(s) =~= old(core).journal());
            assert(j[s + i as int] == j.last());
            assert(j[s + i as int].stmt == stmt(q, seq![text(idv[i as int])]));
            assert(j[s + i as int].reply is Endpoints);
            assert forall|k: int| s <= k < s + i + 1 implies #[trigger] j[k].stmt == stmt(q, seq![text(idv[k - s])])
                && j[k].reply is Endpoints by {
                if k < s + i {
                    assert(j[k] == jb[k]);
                    assert(jb[k].stmt == stmt(q, seq![text(idv[k - s])]));
                }
            }
        }
        match found {
            Some(d) => {
                out.push(d);
                proof {
                    assert(dtos_view(out@) =~= dtos_view(out@.drop_last()).push(out@.last()@));
                }
            },
            None => {},
        }
        i += 1;
    }
    proof {
        if ids@.len() > 0 {
            assert(lookups_logged(core.journal(), s, q, idv));
        }
    }
    Ok(out)
}

/* ---------------- statements named in the contracts ---------------- */

pub open spec fn active_count_stmt() -> Stmt {
    stmt("SELECT COUNT(*) FROM bookmarks WHERE folder = ?"@, seq![text(ACTIVE_FOLDER@)])
}

pub open spec fn active_clear_stmt() -> Stmt {
    stmt("DELETE FROM bookmarks WHERE folder = ?"@, seq![text(ACTIVE_FOLDER@)])
}

/// The endpoints bookmarked in `folder`, most recent first.
pub open spec fn folder_list_stmt(folder: Seq<char>) -> Stmt {
    stmt("SELECT endpoint_id FROM bookmarks WHERE folder = ? ORDER BY timestamp DESC"@, seq![text(folder)])
}

pub open spec fn active_insert_stmt(endpoint_id: Seq<char>, notes: Option<Seq<char>>) -> Stmt {
    stmt("INSERT INTO bookmarks (endpoint_id, folder, notes) VALUES (?, ?, ?)"@,
        seq![text(endpoint_id), text(ACTIVE_FOLDER@), opt_text(notes)])
}

/// Bookmarks `endpoint_id` in `folder`, without notes.
pub open spec fn folder_copy_stmt(endpoint_id: Seq<char>, folder: Seq<char>) -> Stmt {
    stmt("INSERT INTO bookmarks (endpoint_id, folder, notes) VALUES (?, ?, NULL)"@, seq![text(endpoint_id), text(folder)])
}

} // verus!
