//! Running a test against an endpoint: the request's verb and timer, the
//! messages sent to the clients, and what is recorded once the response of
//! a test run is reported back.
use vstd::prelude::*;
use crate::text::{append_str, concat, push_signed, push_decimal, signed_decimal, decimal, str_eq, to_uppercase, uppercase};
use crate::store::{EdmsCore, EdmsError, EdmsResult, Reply, Stmt, SqlArg, stmt, text, opt_text, opt_int, first_or_zero};
use crate::queries::QueryMap;
use crate::db::{EndpointDto, get_endpoint, get_next_request_number, insert_response_metadata, insert_history, history_count};

verus! {

/// The countdown of a test run: how long the request may take and how
/// often the clients are told the time left.
#[derive(Debug, Clone, Copy, PartialEq, Eq)]
pub struct TimerConfig {
    pub limit_ms: u64,
    pub tick_interval_ms: u64,
}

/// A request to run a test, as a client sends it. A zero timeout or tick
/// interval stands for "use the default".
#[derive(Debug, Clone)]
pub struct RunMessage {
    pub endpoint_id: String,
    pub method: String,
    /// The request body, as JSON text.
    pub body: String,
    pub timeout_ms: u64,
    pub tick_interval_ms: u64,
}

/// The time limit used when none is asked for.
pub const DEFAULT_LIMIT_MS: u64 = 30_000;

/// The tick interval used when none is asked for.
pub const DEFAULT_TICK_MS: u64 = 500;

impl RunMessage {
    /// The timer of this run: the requested limit and interval, each
    /// replaced by its default (30 s, 500 ms) when zero.
    pub fn timer_config(&self) -> (c: TimerConfig)
        ensures
            c.limit_ms == (if self.timeout_ms > 0 { self.timeout_ms } else { DEFAULT_LIMIT_MS }),
            c.tick_interval_ms == (if self.tick_interval_ms > 0 { self.tick_interval_ms } else { DEFAULT_TICK_MS }),
    {
        TimerConfig {
            limit_ms: if self.timeout_ms > 0 { self.timeout_ms } else { DEFAULT_LIMIT_MS },
            tick_interval_ms: if self.tick_interval_ms > 0 { self.tick_interval_ms } else { DEFAULT_TICK_MS },
        }
    }
}

/// An HTTP method a test can use.
#[derive(Debug, Clone, Copy, PartialEq, Eq)]
pub enum HttpVerb {
    Get,
    Post,
    Put,
    Delete,
    Patch,
    Head,
}

/// The verb named by an uppercase method name, if it is one of the six.
pub open spec fn verb_of(m: Seq<char>) -> Option<HttpVerb> {
    if m == "GET"@ {
        Some(HttpVerb::Get)
    } else if m == "POST"@ {
        Some(HttpVerb::Post)
    } else if m == "PUT"@ {
        Some(HttpVerb::Put)
    } else if m == "DELETE"@ {
        Some(HttpVerb::Delete)
    } else if m == "PATCH"@ {
        Some(HttpVerb::Patch)
    } else if m == "HEAD"@ {
        Some(HttpVerb::Head)
    } else {
        None
    }
}

/// The name under which each verb travels.
pub open spec fn verb_name(v: HttpVerb) -> Seq<char> {
    match v {
        HttpVerb::Get => "GET"@,
        HttpVerb::Post => "POST"@,
        HttpVerb::Put => "PUT"@,
        HttpVerb::Delete => "DELETE"@,
        HttpVerb::Patch => "PATCH"@,
        HttpVerb::Head => "HEAD"@,
    }
}

/// Every verb is read back from its uppercase name, and only from it: the
/// name of `v` gives `v`, and a name that gives a verb is that verb's name.
pub proof fn lemma_verb_names_round_trip(v: HttpVerb, m: Seq<char>)
    ensures
        verb_of(verb_name(v)) == Some(v),
        verb_of(m) matches Some(w) ==> m == verb_name(w),
{
    reveal_strlit("GET");
    reveal_strlit("POST");
    reveal_strlit("PUT");
    reveal_strlit("DELETE");
    reveal_strlit("PATCH");
    reveal_strlit("HEAD");
    assert("GET"@.len() == 3);
    assert("POST"@.len() == 4);
    assert("PUT"@.len() == 3);
    assert("DELETE"@.len() == 6);
    assert("PATCH"@.len() == 5);
    assert("HEAD"@.len() == 4);
    assert("PUT"@[0] != "GET"@[0]);
    assert("HEAD"@[0] != "POST"@[0]);
}

/// The verb named by `method`, whatever its case.
pub fn parse_verb(method: &str) -> (v: Option<HttpVerb>)
    ensures
        v == verb_of(uppercase(method@)),
{
    let up = to_uppercase(method);
    verb_named(up.as_str())
}

/// The verb named by an uppercase method name (`verb_of`).
pub fn verb_named(m: &str) -> (v: Option<HttpVerb>)
    ensures
        v == verb_of(m@),
{
    if str_eq(m, "GET") {
        Some(HttpVerb::Get)
    } else if str_eq(m, "POST") {
        Some(HttpVerb::Post)
    } else if str_eq(m, "PUT") {
        Some(HttpVerb::Put)
    } else if str_eq(m, "DELETE") {
        Some(HttpVerb::Delete)
    } else if str_eq(m, "PATCH") {
        Some(HttpVerb::Patch)
    } else if str_eq(m, "HEAD") {
        Some(HttpVerb::Head)
    } else {
        None
    }
}

/// How a request is sent: its verb, and whether the JSON body goes with it.
#[derive(Debug, Clone, Copy, PartialEq, Eq)]
pub struct RequestPlan {
    pub verb: HttpVerb,
    pub with_body: bool,
}

/// A test started from the test view: an unknown method is sent as `POST`,
/// and every verb but `GET` and `HEAD` carries the body.
pub fn test_view_request(method: &str) -> (p: RequestPlan)
    ensures
        p.verb == (match verb_of(uppercase(method@)) { Some(v) => v, None => HttpVerb::Post }),
        p.with_body == !(p.verb == HttpVerb::Get || p.verb == HttpVerb::Head),
{
    let verb = match parse_verb(method) {
        Some(v) => v,
        None => HttpVerb::Post,
    };
    let with_body = match verb {
        HttpVerb::Get | HttpVerb::Head => false,
        _ => true,
    };
    RequestPlan { verb, with_body }
}

/// A test run by a child process: an unknown method is sent as `GET`, and
/// only `POST`, `PUT` and `PATCH` carry the body.
pub fn run_test_request(method: &str) -> (p: RequestPlan)
    ensures
        p.verb == (match verb_of(uppercase(method@)) { Some(v) => v, None => HttpVerb::Get }),
        p.with_body == (p.verb == HttpVerb::Post || p.verb == HttpVerb::Put || p.verb == HttpVerb::Patch),
{
    let verb = match parse_verb(method) {
        Some(v) => v,
        None => HttpVerb::Get,
    };
    let with_body = match verb {
        HttpVerb::Post | HttpVerb::Put | HttpVerb::Patch => true,
        _ => false,
    };
    RequestPlan { verb, with_body }
}

/// What the clients are told when a run outlives its time limit.
pub open spec fn timeout_message_spec(endpoint_id: Seq<char>, request_number: int, limit_ms: nat) -> Seq<char> {
    endpoint_id + " request #"@ + signed_decimal(request_number) + " timed out after "@ + decimal(limit_ms) + "ms"@
}

/// `"{endpoint_id} request #{request_number} timed out after {limit_ms}ms"`.
pub fn timeout_message(endpoint_id: &str, request_number: i32, limit_ms: u64) -> (m: String)
    ensures
        m@ == timeout_message_spec(endpoint_id@, request_number as int, limit_ms as nat),
{
    let mut m = concat(endpoint_id, " request #");
    push_signed(&mut m, request_number as i64);
    append_str(&mut m, " timed out after ");
    push_decimal(&mut m, limit_ms as u128);
    append_str(&mut m, "ms");
    m
}

/// `"HTTP error for {endpoint_id}: {error}"`.
pub fn http_error_message(endpoint_id: &str, error: &str) -> (m: String)
    ensures
        m@ == "HTTP error for "@ + endpoint_id@ + ": "@ + error@,
{
    let mut m = concat("HTTP error for ", endpoint_id);
    append_str(&mut m, ": ");
    append_str(&mut m, error);
    m
}

/// The name of the file that holds response `request_number` of an
/// endpoint: `"{endpoint_id}-response-{request_number}.json"`.
pub open spec fn response_file_name_spec(endpoint_id: Seq<char>, request_number: int) -> Seq<char> {
    endpoint_id + "-response-"@ + signed_decimal(request_number) + ".json"@
}

/// `response_file_name_spec`.
pub fn response_file_name(endpoint_id: &str, request_number: i32) -> (f: String)
    ensures
        f@ == response_file_name_spec(endpoint_id@, request_number as int),
{
    let mut f = concat(endpoint_id, "-response-");
    push_signed(&mut f, request_number as i64);
    append_str(&mut f, ".json");
    f
}

/// The history note of a finished run: `"{status_code} in {response_time_ms}ms"`.
pub open spec fn history_details_spec(status_code: int, response_time_ms: int) -> Seq<char> {
    signed_decimal(status_code) + " in "@ + signed_decimal(response_time_ms) + "ms"@
}

/// `history_details_spec`.
pub fn history_details(status_code: i32, response_time_ms: i32) -> (d: String)
    ensures
        d@ == history_details_spec(status_code as int, response_time_ms as int),
{
    let mut d = String::new();
    push_signed(&mut d, status_code as i64);
    append_str(&mut d, " in ");
    push_signed(&mut d, response_time_ms as i64);
    append_str(&mut d, "ms");
    assert(d@ =~= history_details_spec(status_code as int, response_time_ms as int));
    d
}

/// What a child process reports of a test run, each field already read
/// from its JSON result (a missing field reads as empty, zero or false).
#[derive(Debug, Clone)]
pub struct RunTestReport {
    pub endpoint_id: String,
    pub request_number: i64,
    pub timed_out: bool,
    pub status_code: i64,
    pub response_time_ms: i64,
}

/// What follows a reported test run.
#[derive(Debug, Clone)]
pub enum RunTestStep {
    /// The request ran out of time: stop the countdown and tell the clients.
    TimedOut { endpoint_id: String, request_number: i32 },
    /// The response arrived: write it to `response_file_name`, record it
    /// (see `record_test_response`) and tell the clients.
    Finished {
        endpoint_id: String,
        request_number: i32,
        status_code: i32,
        response_time_ms: i32,
        response_file_name: String,
    },
}

/// The step that follows a reported run. Numbers are cut to 32 bits, as
/// `as i32` does.
pub fn plan_run_test(report: RunTestReport) -> (s: RunTestStep)
    ensures
        report.timed_out ==> (s matches RunTestStep::TimedOut { endpoint_id, request_number }
            && endpoint_id@ == report.endpoint_id@ && request_number == report.request_number as i32),
        !report.timed_out ==> (s matches RunTestStep::Finished { endpoint_id, request_number, status_code, response_time_ms, response_file_name }
            && endpoint_id@ == report.endpoint_id@
            && request_number == report.request_number as i32
            && status_code == report.status_code as i32
            && response_time_ms == report.response_time_ms as i32
            && response_file_name@ == response_file_name_spec(report.endpoint_id@, request_number as int)),
{
    let request_number: i32 = report.request_number as i32;
    if report.timed_out {
        RunTestStep::TimedOut { endpoint_id: report.endpoint_id, request_number }
    } else {
        let status_code: i32 = report.status_code as i32;
        let response_time_ms: i32 = report.response_time_ms as i32;
        let response_file_name = response_file_name(report.endpoint_id.as_str(), request_number);
        RunTestStep::Finished {
            endpoint_id: report.endpoint_id,
            request_number,
            status_code,
            response_time_ms,
            response_file_name,
        }
    }
}

/// The statement that records a response with query `RES1`.
pub open spec fn response_metadata_stmt(
    queries: QueryMap,
    endpoint_id: Seq<char>,
    request_number: int,
    response_file: Seq<char>,
    status_code: int,
    response_time_ms: int,
) -> Stmt {
    stmt(queries.responses.view()["RES1"@], seq![text(endpoint_id), SqlArg::Int(request_number), text(response_file),
        SqlArg::Int(status_code), opt_int(Some(response_time_ms))])
}

/// The statement that adds a `test` row to history.
pub open spec fn test_history_stmt(endpoint_id: Seq<char>, details: Seq<char>) -> Stmt {
    stmt("INSERT INTO history (endpoint_id, action, details) VALUES (?, ?, ?)"@,
        seq![text(endpoint_id), text("test"@), opt_text(Some(details))])
}

/// The statement that counts the rows of history.
pub open spec fn history_count_stmt() -> Stmt {
    stmt("SELECT COUNT(*) FROM history"@, seq![])
}

/// Records a finished run: its response metadata with query `RES1` (a
/// failure there does not stop the rest), then a `test` row of history
/// whose note is `history_details`, then, when that row was written, the
/// number of history rows, which is returned.
pub fn record_test_response(
    core: &mut EdmsCore,
    queries: &QueryMap,
    endpoint_id: &str,
    request_number: i32,
    response_file: &str,
    status_code: i32,
    response_time_ms: i32,
) -> (r: Option<usize>)
    ensures
        final(core).path() == old(core).path(),
        final(core).is_connected() == old(core).is_connected(),
        !old(core).is_connected() ==> old(core).same(*final(core)) && r is None,
        old(core).is_connected() ==> {
            let j = final(core).journal();
            let s = old(core).journal().len() as int;
            let k: int = if queries.responses.view().contains_key("RES1"@) { 1 } else { 0 };
            &&& j.len() >= s + k + 1
            &&& j.take(s) == old(core).journal()
            &&& k == 1 ==> j[s].stmt == response_metadata_stmt(*queries, endpoint_id@, request_number as int,
                response_file@, status_code as int, response_time_ms as int)
            &&& j[s + k].stmt == test_history_stmt(endpoint_id@, history_details_spec(status_code as int, response_time_ms as int))
            &&& (j[s + k].reply is Changed ==> {
                &&& j.len() == s + k + 2
                &&& j[s + k + 1].stmt == history_count_stmt()
                &&& r == (match j[s + k + 1].reply {
                    Reply::Ints(rows) => Some(first_or_zero(rows) as usize),
                    _ => None,
                })
            })
            &&& (!(j[s + k].reply is Changed) ==> j.len() == s + k + 1 && r is None)
        },
{
    let ghost c0 = *core;
    let _ = insert_response_metadata(core, queries, endpoint_id, request_number, response_file, status_code, Some(response_time_ms));
    let ghost c1 = *core;
    let details = history_details(status_code, response_time_ms);
    let note = details.as_str();
    let inserted = insert_history(core, endpoint_id, "test", Some(note));
    let ghost c2 = *core;
    proof {
        if c0.is_connected() {
            let s = c0.journal().len() as int;
            let k: int = if queries.responses.view().contains_key("RES1"@) { 1 } else { 0 };
            assert(crate::store::opt_i32_view(Some(response_time_ms)) == Some(response_time_ms as int));
            if k == 1 {
                assert(c1.journal()[s] == c1.journal().last());
                assert(c2.journal()[s] == c1.journal()[s]);
            }
            assert(c1.journal().len() == s + k);
            assert(c2.journal()[s + k] == c2.journal().last());
            assert(note@ == history_details_spec(status_code as int, response_time_ms as int));
            assert(c2.journal()[s + k].stmt.args =~= test_history_stmt(endpoint_id@, note@).args);
            assert(c2.journal().take(s) =~= c0.journal());
        }
    }
    match inserted {
        Err(_) => None,
        Ok(_) => {
            let counted = history_count(core);
            proof {
                if c0.is_connected() {
                    assert(core.journal().take(c0.journal().len() as int) =~= c0.journal());
                    assert(core.journal()[c2.journal().len() - 1] == c2.journal().last());
                    let s = c0.journal().len() as int;
                    if queries.responses.view().contains_key("RES1"@) {
                        assert(core.journal()[s] == c2.journal()[s]);
                    }
                }
            }
            match counted {
                Ok(n) => Some(n),
                Err(_) => None,
            }
        },
    }
}

/// The endpoint to test and the number its new request gets: the endpoint
/// by query `E2`, then the number by query `R6`. Every failure, and an
/// unknown endpoint, is `UnknownError`.
pub fn prepare_test_run(core: &mut EdmsCore, queries: &QueryMap, endpoint_id: &str) -> (r: EdmsResult<(EndpointDto, i32)>)
    ensures
        final(core).path() == old(core).path(),
        final(core).is_connected() == old(core).is_connected(),
        r is Err ==> r matches Err(EdmsError::UnknownError),
        !(queries.endpoints.view().contains_key("E2"@) && old(core).is_connected()) ==> old(core).same(*final(core)) && r is Err,
        r matches Ok((e, n)) ==> {
            let j = final(core).journal();
            let s = old(core).journal().len() as int;
            &&& j.len() == s + 2
            &&& j.take(s) == old(core).journal()
            &&& j[s].stmt == stmt(queries.endpoints.view()["E2"@], seq![text(endpoint_id@)])
            &&& j[s].reply matches Reply::Endpoints(rows) && rows.len() > 0 && rows[0] == e@
            &&& j[s + 1].stmt == stmt(queries.requests.view()["R6"@], seq![text(endpoint_id@)])
            &&& j[s + 1].reply matches Reply::OptInts(rows) && n == crate::db::next_request_number(rows)
        },
        queries.endpoints.view().contains_key("E2"@) && old(core).is_connected() ==> {
            let j = final(core).journal();
            let s = old(core).journal().len() as int;
            &&& s < j.len() <= s + 2
            &&& j.take(s) == old(core).journal()
            &&& j[s].stmt == stmt(queries.endpoints.view()["E2"@], seq![text(endpoint_id@)])
            &&& r is Err ==> {
                ||| j.len() == s + 1 && !(j[s].reply matches Reply::Endpoints(rows) && rows.len() > 0
                    && queries.requests.view().contains_key("R6"@))
                ||| j.len() == s + 2 && (j[s].reply matches Reply::Endpoints(rows) && rows.len() > 0)
                    && j[s + 1].stmt == stmt(queries.requests.view()["R6"@], seq![text(endpoint_id@)])
                    && (j[s + 1].reply is Failed || (j[s + 1].reply matches Reply::OptInts(rows)
                        && crate::db::next_request_number(rows) > i32::MAX))
            }
        },
{
    let ghost c0 = *core;
    let endpoint = match get_endpoint(core, queries, endpoint_id) {
        Ok(Some(e)) => e,
        _ => {
            return Err(EdmsError::UnknownError);
        },
    };
    let ghost c1 = *core;
    match get_next_request_number(core, queries, endpoint_id) {
        Ok(n) => {
            proof {
                assert(core.journal().take(c0.journal().len() as int) =~= c0.journal());
                assert(core.journal()[c0.journal().len() as int] == c1.journal().last());
            }
            Ok((endpoint, n))
        },
        Err(_) => Err(EdmsError::UnknownError),
    }
}

/// Records a new request with query `R1`, its method in upper case. Every
/// failure is `UnknownError`.
pub fn register_request(
    core: &mut EdmsCore,
    queries: &QueryMap,
    endpoint_id: &str,
    request_number: i32,
    request_file: &str,
    method: &str,
) -> (r: EdmsResult<()>)
    ensures
        r is Err ==> r matches Err(EdmsError::UnknownError),
        !(queries.requests.view().contains_key("R1"@) && old(core).is_connected()) ==> old(core).same(*final(core)) && r is Err,
        queries.requests.view().contains_key("R1"@) && old(core).is_connected() ==> {
            &&& old(core).followed_by(*final(core), crate::store::exchange(
                stmt(queries.requests.view()["R1"@],
                    seq![text(endpoint_id@), SqlArg::Int(request_number as int), text(request_file@), text(uppercase(method@))]),
                crate::store::last_reply(*final(core))))
            &&& (r is Ok <==> crate::store::last_reply(*final(core)) is Changed)
        },
{
    let method_upper = to_uppercase(method);
    match crate::db::insert_request_metadata(core, queries, endpoint_id, request_number, request_file, method_upper.as_str()) {
        Ok(_) => Ok(()),
        Err(_) => Err(EdmsError::UnknownError),
    }
}

} // verus!
