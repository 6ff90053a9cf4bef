//! A connection to one EDMS SQLite file, and a ghost journal of every
//! statement handed to SQLite through it together with the answer SQLite
//! gave. The operations of the library state their effect as the exchanges
//! they add to this journal.
use vstd::prelude::*;
use rusqlite::Connection;
use rusqlite::types::Value;
use crate::text::strings_view;

verus! {

#[verifier::external_type_specification]
#[verifier::external_body]
pub struct ExConnection(rusqlite::Connection);

#[verifier::external_type_specification]
#[verifier::external_body]
pub struct ExSqliteError(rusqlite::Error);

#[verifier::external_type_specification]
#[verifier::external_body]
pub struct ExSqliteValue(rusqlite::types::Value);

/// Errors of the database layer.
#[derive(Debug)]
pub enum EdmsError {
    /// A query was missing from the query map, or the file is not connected.
    UnknownError,
    /// SQLite refused or failed a statement.
    SqliteError(rusqlite::Error),
}

pub type EdmsResult<T> = Result<T, EdmsError>;

/// A value bound to a statement parameter.
#[derive(Debug, Clone)]
pub enum SqlValue {
    Null,
    Int(i64),
    Text(String),
}

/// The mathematical value of a statement parameter.
pub enum SqlArg {
    Null,
    Int(int),
    Text(Seq<char>),
}

impl View for SqlValue {
    type V = SqlArg;

    open spec fn view(&self) -> SqlArg {
        match self {
            SqlValue::Null => SqlArg::Null,
            SqlValue::Int(i) => SqlArg::Int(*i as int),
            SqlValue::Text(s) => SqlArg::Text(s@),
        }
    }
}

/// The mathematical values of a parameter list.
pub open spec fn args_view(v: Seq<SqlValue>) -> Seq<SqlArg> {
    v.map_values(|a: SqlValue| a@)
}

/// A text parameter.
pub open spec fn text(s: Seq<char>) -> SqlArg {
    SqlArg::Text(s)
}

/// An optional text parameter: `NULL` for `None`.
pub open spec fn opt_text(s: Option<Seq<char>>) -> SqlArg {
    match s {
        Some(t) => SqlArg::Text(t),
        None => SqlArg::Null,
    }
}

/// An optional integer parameter: `NULL` for `None`.
pub open spec fn opt_int(i: Option<int>) -> SqlArg {
    match i {
        Some(n) => SqlArg::Int(n),
        None => SqlArg::Null,
    }
}

/// A statement: SQL text and its parameters.
pub struct Stmt {
    pub sql: Seq<char>,
    pub args: Seq<SqlArg>,
}

pub open spec fn stmt(sql: Seq<char>, args: Seq<SqlArg>) -> Stmt {
    Stmt { sql, args }
}

/// What SQLite answered to a statement.
pub enum Reply {
    /// A failure (the error is returned to the caller).
    Failed,
    /// The statement ran; this many rows changed.
    Changed(nat),
    /// A batch ran.
    Done,
    /// Rows of one text column.
    Texts(Seq<Seq<char>>),
    /// Rows of one text column, each `None` where the row could not be read
    /// as text.
    OptTexts(Seq<Option<Seq<char>>>),
    /// Rows of one integer column.
    Ints(Seq<int>),
    /// Rows of one nullable integer column.
    OptInts(Seq<Option<int>>),
    /// Rows of two text columns.
    Pairs(Seq<(Seq<char>, Seq<char>)>),
    /// A lookup of one row of two text columns: the row, `Some(None)` when
    /// there is none, `None` when running the query failed (the lookup is
    /// then skipped).
    Lookup(Option<Option<(Seq<char>, Seq<char>)>>),
    /// Rows of a text and an integer column.
    Counts(Seq<(Seq<char>, int)>),
    /// Rows of (text, text, nullable text) taken from columns 1 to 3.
    Endpoints(Seq<(Seq<char>, Seq<char>, Option<Seq<char>>)>),
    /// Rows of (text, nullable text, text, nullable text).
    Catalog(Seq<(Seq<char>, Option<Seq<char>>, Seq<char>, Option<Seq<char>>)>),
}

/// One statement and its answer.
pub struct Exchange {
    pub stmt: Stmt,
    pub reply: Reply,
}

pub open spec fn exchange(s: Stmt, reply: Reply) -> Exchange {
    Exchange { stmt: s, reply }
}

pub open spec fn opt_view(o: Option<String>) -> Option<Seq<char>> {
    match o {
        Some(s) => Some(s@),
        None => None,
    }
}

pub open spec fn opt_strings_view(v: Seq<Option<String>>) -> Seq<Option<Seq<char>>> {
    v.map_values(|o: Option<String>| opt_view(o))
}

pub open spec fn lookup_view(v: Option<Option<(String, String)>>) -> Option<Option<(Seq<char>, Seq<char>)>> {
    match v {
        Some(Some(p)) => Some(Some((p.0@, p.1@))),
        Some(None) => Some(None),
        None => None,
    }
}

pub open spec fn opt_i32_view(o: Option<i32>) -> Option<int> {
    match o {
        Some(i) => Some(i as int),
        None => None,
    }
}

pub open spec fn pairs_view(v: Seq<(String, String)>) -> Seq<(Seq<char>, Seq<char>)> {
    v.map_values(|p: (String, String)| (p.0@, p.1@))
}

pub open spec fn counts_view(v: Seq<(String, i64)>) -> Seq<(Seq<char>, int)> {
    v.map_values(|p: (String, i64)| (p.0@, p.1 as int))
}

pub open spec fn endpoint_rows_view(v: Seq<(String, String, Option<String>)>) -> Seq<
    (Seq<char>, Seq<char>, Option<Seq<char>>),
> {
    v.map_values(|p: (String, String, Option<String>)| (p.0@, p.1@, opt_view(p.2)))
}

pub open spec fn catalog_rows_view(
    v: Seq<(String, Option<String>, String, Option<String>)>,
) -> Seq<(Seq<char>, Option<Seq<char>>, Seq<char>, Option<Seq<char>>)> {
    v.map_values(
        |p: (String, Option<String>, String, Option<String>)|
            (p.0@, opt_view(p.1), p.2@, opt_view(p.3)),
    )
}

/// The answer recorded for a statement that returned `r`.
pub open spec fn changed_reply(r: EdmsResult<usize>) -> Reply {
    match r {
        Ok(n) => Reply::Changed(n as nat),
        Err(_) => Reply::Failed,
    }
}

/// `r` is `Err(EdmsError::UnknownError)`.
pub open spec fn is_unknown<T>(r: EdmsResult<T>) -> bool {
    r matches Err(EdmsError::UnknownError)
}

/// Running statement `s` took `before` to `after` and returned `r`: when
/// connected, the exchange is journaled; otherwise nothing happened and the
/// result is `UnknownError`.
pub open spec fn ran(before: EdmsCore, after: EdmsCore, s: Stmt, r: EdmsResult<usize>) -> bool {
    if before.is_connected() {
        before.followed_by(after, exchange(s, changed_reply(r))) && !is_unknown(r)
    } else {
        before.same(after) && is_unknown(r)
    }
}

/// Running the query stored under `key` in `group` with `args`: as `ran`,
/// and `UnknownError` with nothing done when there is no such query.
pub open spec fn ran_named(
    before: EdmsCore,
    after: EdmsCore,
    group: Map<Seq<char>, Seq<char>>,
    key: Seq<char>,
    args: Seq<SqlArg>,
    r: EdmsResult<usize>,
) -> bool {
    if group.contains_key(key) {
        ran(before, after, stmt(group[key], args), r)
    } else {
        before.same(after) && is_unknown(r)
    }
}

/// `after` is `before` with one more exchange, for statement `s`.
pub open spec fn asked(before: EdmsCore, after: EdmsCore, s: Stmt) -> bool {
    &&& before.is_connected()
    &&& after.path() == before.path()
    &&& after.is_connected()
    &&& after.journal().len() == before.journal().len() + 1
    &&& after.journal().drop_last() == before.journal()
    &&& after.journal().last().stmt == s
}

/// One journaled exchange is one `asked` step whose answer is last.
pub proof fn lemma_followed_by_asked(before: EdmsCore, after: EdmsCore, e: Exchange)
    requires
        before.is_connected(),
        before.followed_by(after, e),
    ensures
        asked(before, after, e.stmt),
        last_reply(after) == e.reply,
{
    assert(after.journal().drop_last() =~= before.journal());
}

/// The answer to the last statement journaled.
pub open spec fn last_reply(c: EdmsCore) -> Reply {
    c.journal().last().reply
}

/// How many rows an answer reports changed (0 unless `Changed`).
pub open spec fn changed_count(r: Reply) -> int {
    match r {
        Reply::Changed(n) => n as int,
        _ => 0,
    }
}

/// The total of the change counts answered to `j[from..to]`.
pub open spec fn changed_sum(j: Seq<Exchange>, from: int, to: int) -> int
    decreases to - from,
{
    if to <= from {
        0
    } else {
        changed_sum(j, from, to - 1) + changed_count(j[to - 1].reply)
    }
}

/// `j[from..from + n]` holds, in order, the statements `mk(ids[0])`, ...,
/// `mk(ids[n - 1])`, each answered with a change count.
pub open spec fn logged_each(
    j: Seq<Exchange>,
    from: int,
    ids: Seq<Seq<char>>,
    mk: spec_fn(Seq<char>) -> Stmt,
    n: int,
) -> bool {
    &&& 0 <= from
    &&& 0 <= n <= ids.len()
    &&& from + n <= j.len()
    &&& forall|k: int| from <= k < from + n ==> #[trigger] j[k].stmt == mk(ids[k - from]) && j[k].reply is Changed
}

/// Appending to a journal keeps what was there, and the totals over it.
pub proof fn lemma_push_keeps(j: Seq<Exchange>, x: Exchange, from: int, to: int)
    requires
        0 <= from,
        to <= j.len(),
    ensures
        changed_sum(j.push(x), from, to) == changed_sum(j, from, to),
        forall|k: int| 0 <= k < j.len() ==> j.push(x)[k] == j[k],
    decreases to - from,
{
    if to > from {
        lemma_push_keeps(j, x, from, to - 1);
    }
}

/// `long` begins with `short`.
pub open spec fn extends(long: Seq<Exchange>, short: Seq<Exchange>) -> bool {
    short.len() <= long.len() && long.take(short.len() as int) == short
}

pub proof fn lemma_extends_trans(a: Seq<Exchange>, b: Seq<Exchange>, c: Seq<Exchange>)
    requires
        extends(b, a),
        extends(c, b),
    ensures
        extends(c, a),
{
    assert forall|k: int| 0 <= k < a.len() implies c.take(a.len() as int)[k] == a[k] by {
        assert(c[k] == c.take(b.len() as int)[k]);
        assert(b[k] == b.take(a.len() as int)[k]);
    }
    assert(c.take(a.len() as int) =~= a);
}

/// The first integer of a column, or 0 when there are no rows.
pub open spec fn first_or_zero(rows: Seq<int>) -> int {
    if rows.len() > 0 { rows[0] } else { 0 }
}

/// Opens (creating if need be) the SQLite file at `path` (`Connection::open`).
/// What it returns depends on the file on disk, so no clause states it.
#[verifier::external_body]
fn sqlite_open(path: &str) -> Result<Connection, rusqlite::Error> {
    Connection::open(path)
}

/// The `rusqlite` values of a parameter list, one for one.
/// The conversion is not stated as a clause: `Value` is opaque to Verus.
#[verifier::external_body]
fn sqlite_values(args: Vec<SqlValue>) -> Vec<Value> {
    args.into_iter().map(|a| match a {
        SqlValue::Null => Value::Null,
        SqlValue::Int(i) => Value::Integer(i),
        SqlValue::Text(s) => Value::Text(s),
    }).collect()
}

/// Runs one statement (`Connection::execute`); the number of rows changed.
/// What it returns depends on the file on disk, so no clause states it.
#[verifier::external_body]
fn sqlite_execute(conn: &Connection, sql: &str, args: Vec<Value>) -> Result<usize, rusqlite::Error> {
    conn.execute(sql, rusqlite::params_from_iter(args))
}

/// Runs statements without parameters (`Connection::execute_batch`).
/// What it returns depends on the file on disk, so no clause states it.
#[verifier::external_body]
fn sqlite_execute_batch(conn: &Connection, sql: &str) -> Result<(), rusqlite::Error> {
    conn.execute_batch(sql)
}

/// Rows of a query, column 0 read as text (`Statement::query_map`).
/// What it returns depends on the file on disk, so no clause states it.
#[verifier::external_body]
fn sqlite_query_texts(conn: &Connection, sql: &str, args: Vec<Value>) -> Result<Vec<String>, rusqlite::Error> {
    let mut stmt = conn.prepare(sql)?;
    let rows = stmt.query_map(rusqlite::params_from_iter(args), |r| r.get(0))?;
    rows.collect()
}

/// Rows of a query, column 0 read as text, each `None` where that row
/// could not be read (`Statement::query_map`; the row's error becomes
/// `None`).
/// What it returns depends on the file on disk, so no clause states it.
#[verifier::external_body]
fn sqlite_query_opt_texts(conn: &Connection, sql: &str, args: Vec<Value>) -> Result<Vec<Option<String>>, rusqlite::Error> {
    let mut stmt = conn.prepare(sql)?;
    let rows = stmt.query_map(rusqlite::params_from_iter(args), |r| r.get::<_, String>(0))?;
    Ok(rows.map(|r| r.ok()).collect())
}

/// Rows of a query, column 0 read as an integer (`Statement::query_map`).
/// What it returns depends on the file on disk, so no clause states it.
#[verifier::external_body]
fn sqlite_query_ints(conn: &Connection, sql: &str, args: Vec<Value>) -> Result<Vec<i64>, rusqlite::Error> {
    let mut stmt = conn.prepare(sql)?;
    let rows = stmt.query_map(rusqlite::params_from_iter(args), |r| r.get(0))?;
    rows.collect()
}

/// Rows of a query, column 0 read as a nullable 32-bit integer (`Statement::query_map`).
/// What it returns depends on the file on disk, so no clause states it.
#[verifier::external_body]
fn sqlite_query_opt_i32s(conn: &Connection, sql: &str, args: Vec<Value>) -> Result<Vec<Option<i32>>, rusqlite::Error> {
    let mut stmt = conn.prepare(sql)?;
    let rows = stmt.query_map(rusqlite::params_from_iter(args), |r| r.get(0))?;
    rows.collect()
}

/// Rows of a query, columns 0 and 1 read as text (`Statement::query_map`).
/// What it returns depends on the file on disk, so no clause states it.
#[verifier::external_body]
fn sqlite_query_pairs(conn: &Connection, sql: &str, args: Vec<Value>) -> Result<Vec<(String, String)>, rusqlite::Error> {
    let mut stmt = conn.prepare(sql)?;
    let rows = stmt.query_map(rusqlite::params_from_iter(args), |r| Ok((r.get(0)?, r.get(1)?)))?;
    rows.collect()
}

/// The first row of a query, columns 0 and 1 as text (`Connection::prepare`,
/// `Statement::query`, `Rows::next`, `Row::get`): an error when the statement
/// cannot be prepared or a column cannot be read; `None` when running the
/// query or stepping to its first row fails; `Some(None)` when there is no
/// row.
/// What it returns depends on the file on disk, so no clause states it.
#[verifier::external_body]
fn sqlite_lookup_pair(conn: &Connection, sql: &str, args: Vec<Value>) -> Result<Option<Option<(String, String)>>, rusqlite::Error> {
    let mut stmt = conn.prepare(sql)?;
    let mut rows = match stmt.query(rusqlite::params_from_iter(args)) {
        Ok(rows) => rows,
        Err(_) => return Ok(None),
    };
    match rows.next() {
        Ok(Some(row)) => Ok(Some(Some((row.get(0)?, row.get(1)?)))),
        Ok(None) => Ok(Some(None)),
        Err(_) => Ok(None),
    }
}

/// Rows of a query, column 0 as text and column 1 as an integer (`Statement::query_map`).
/// What it returns depends on the file on disk, so no clause states it.
#[verifier::external_body]
fn sqlite_query_counts(conn: &Connection, sql: &str, args: Vec<Value>) -> Result<Vec<(String, i64)>, rusqlite::Error> {
    let mut stmt = conn.prepare(sql)?;
    let rows = stmt.query_map(rusqlite::params_from_iter(args), |r| Ok((r.get(0)?, r.get(1)?)))?;
    rows.collect()
}

/// Rows of a query, columns 1, 2 as text and 3 as nullable text (`Statement::query_map`).
/// What it returns depends on the file on disk, so no clause states it.
#[verifier::external_body]
fn sqlite_query_endpoints(conn: &Connection, sql: &str, args: Vec<Value>) -> Result<Vec<(String, String, Option<String>)>, rusqlite::Error> {
    let mut stmt = conn.prepare(sql)?;
    let rows = stmt.query_map(rusqlite::params_from_iter(args), |r| Ok((r.get(1)?, r.get(2)?, r.get(3)?)))?;
    rows.collect()
}

/// Rows of a query, columns 0 to 3 as text, nullable text, text, nullable text (`Statement::query_map`).
/// What it returns depends on the file on disk, so no clause states it.
#[verifier::external_body]
fn sqlite_query_catalog(conn: &Connection, sql: &str, args: Vec<Value>) -> Result<Vec<(String, Option<String>, String, Option<String>)>, rusqlite::Error> {
    let mut stmt = conn.prepare(sql)?;
    let rows = stmt.query_map(rusqlite::params_from_iter(args), |r| Ok((r.get(0)?, r.get(1)?, r.get(2)?, r.get(3)?)))?;
    rows.collect()
}

/// One EDMS SQLite file, the connection to it when open, and the journal of
/// exchanges with it.
pub struct EdmsCore {
    path: String,
    connection: Option<Connection>,
    journal: Ghost<Seq<Exchange>>,
}

impl EdmsCore {
    pub closed spec fn path(&self) -> Seq<char> {
        self.path@
    }

    pub closed spec fn is_connected(&self) -> bool {
        self.connection is Some
    }

    /// Every statement handed to SQLite through this core, with its answer.
    pub closed spec fn journal(&self) -> Seq<Exchange> {
        self.journal@
    }

    /// `after` is `self` with `e` appended to the journal.
    pub open spec fn followed_by(self, after: Self, e: Exchange) -> bool {
        &&& after.path() == self.path()
        &&& after.is_connected() == self.is_connected()
        &&& after.journal() == self.journal().push(e)
    }

    /// `after` is `self`, as far as can be observed.
    pub open spec fn same(self, after: Self) -> bool {
        &&& after.path() == self.path()
        &&& after.is_connected() == self.is_connected()
        &&& after.journal() == self.journal()
    }

    /// A core for the file at `path`, not yet connected.
    pub fn new(path: &str) -> (c: Self)
        ensures
            c.path() == path@,
            !c.is_connected(),
            c.journal() == Seq::<Exchange>::empty(),
    {
        EdmsCore { path: path.to_owned(), connection: None, journal: Ghost(Seq::empty()) }
    }

    /// Whether the file is open.
    pub fn is_open(&self) -> (b: bool)
        ensures
            b == self.is_connected(),
    {
        self.connection.is_some()
    }

    /// Opens the file, creating it if it does not exist.
    pub fn connect(&mut self) -> (r: EdmsResult<()>)
        ensures
            final(self).path() == old(self).path(),
            final(self).journal() == old(self).journal(),
            r is Ok ==> final(self).is_connected(),
            r is Err ==> final(self).is_connected() == old(self).is_connected(),
            !(r matches Err(EdmsError::UnknownError)),
    {
        match sqlite_open(self.path.as_str()) {
            Ok(c) => {
                self.connection = Some(c);
                Ok(())
            },
            Err(e) => Err(EdmsError::SqliteError(e)),
        }
    }

    /// Closes the file.
    pub fn disconnect(&mut self) -> (r: EdmsResult<()>)
        ensures
            final(self).path() == old(self).path(),
            final(self).journal() == old(self).journal(),
            !final(self).is_connected(),
            r is Ok,
    {
        self.connection = None;
        Ok(())
    }

    /// Runs one statement; the number of rows it changed.
    pub fn proc(&mut self, sql: &str, args: Vec<SqlValue>) -> (r: EdmsResult<usize>)
        ensures
            !old(self).is_connected() ==> old(self).same(*final(self)) && r matches Err(EdmsError::UnknownError),
            old(self).is_connected() ==> old(self).followed_by(*final(self), exchange(
                stmt(sql@, args_view(args@)),
                match r { Ok(n) => Reply::Changed(n as nat), Err(_) => Reply::Failed },
            )) && !(r matches Err(EdmsError::UnknownError)),
    {
        let ghost s = stmt(sql@, args_view(args@));
        match &self.connection {
            None => Err(EdmsError::UnknownError),
            Some(c) => {
                let res = sqlite_execute(c, sql, sqlite_values(args));
                match res {
                    Ok(n) => {
                        proof { self.journal@ = self.journal@.push(exchange(s, Reply::Changed(n as nat))); }
                        Ok(n)
                    },
                    Err(e) => {
                        proof { self.journal@ = self.journal@.push(exchange(s, Reply::Failed)); }
                        Err(EdmsError::SqliteError(e))
                    },
                }
            },
        }
    }

    /// Runs SQL without parameters, such as `BEGIN IMMEDIATE` or `COMMIT`.
    pub fn batch(&mut self, sql: &str) -> (r: EdmsResult<()>)
        ensures
            !old(self).is_connected() ==> old(self).same(*final(self)) && r matches Err(EdmsError::UnknownError),
            old(self).is_connected() ==> old(self).followed_by(*final(self), exchange(
                stmt(sql@, seq![]),
                match r { Ok(_) => Reply::Done, Err(_) => Reply::Failed },
            )) && !(r matches Err(EdmsError::UnknownError)),
    {
        let ghost s = stmt(sql@, seq![]);
        match &self.connection {
            None => Err(EdmsError::UnknownError),
            Some(c) => {
                let res = sqlite_execute_batch(c, sql);
                match res {
                    Ok(()) => {
                        proof { self.journal@ = self.journal@.push(exchange(s, Reply::Done)); }
                        Ok(())
                    },
                    Err(e) => {
                        proof { self.journal@ = self.journal@.push(exchange(s, Reply::Failed)); }
                        Err(EdmsError::SqliteError(e))
                    },
                }
            },
        }
    }

    /// Rows of one text column.
    pub fn query_texts(&mut self, sql: &str, args: Vec<SqlValue>) -> (r: EdmsResult<Vec<String>>)
        ensures
            !old(self).is_connected() ==> old(self).same(*final(self)) && r matches Err(EdmsError::UnknownError),
            old(self).is_connected() ==> old(self).followed_by(*final(self), exchange(
                stmt(sql@, args_view(args@)),
                match r { Ok(v) => Reply::Texts(strings_view(v@)), Err(_) => Reply::Failed },
            )) && !(r matches Err(EdmsError::UnknownError)),
    {
        let ghost s = stmt(sql@, args_view(args@));
        match &self.connection {
            None => Err(EdmsError::UnknownError),
            Some(c) => {
                let res = sqlite_query_texts(c, sql, sqlite_values(args));
                match res {
                    Ok(v) => {
                        proof { self.journal@ = self.journal@.push(exchange(s, Reply::Texts(strings_view(v@)))); }
                        Ok(v)
                    },
                    Err(e) => {
                        proof { self.journal@ = self.journal@.push(exchange(s, Reply::Failed)); }
                        Err(EdmsError::SqliteError(e))
                    },
                }
            },
        }
    }

    /// Rows of one text column, `None` for each row that cannot be read as
    /// text.
    pub fn query_opt_texts(&mut self, sql: &str, args: Vec<SqlValue>) -> (r: EdmsResult<Vec<Option<String>>>)
        ensures
            !old(self).is_connected() ==> old(self).same(*final(self)) && r matches Err(EdmsError::UnknownError),
            old(self).is_connected() ==> old(self).followed_by(*final(self), exchange(
                stmt(sql@, args_view(args@)),
                match r { Ok(v) => Reply::OptTexts(opt_strings_view(v@)), Err(_) => Reply::Failed },
            )) && !(r matches Err(EdmsError::UnknownError)),
    {
        let ghost s = stmt(sql@, args_view(args@));
        match &self.connection {
            None => Err(EdmsError::UnknownError),
            Some(c) => {
                let res = sqlite_query_opt_texts(c, sql, sqlite_values(args));
                match res {
                    Ok(v) => {
                        proof { self.journal@ = self.journal@.push(exchange(s, Reply::OptTexts(opt_strings_view(v@)))); }
                        Ok(v)
                    },
                    Err(e) => {
                        proof { self.journal@ = self.journal@.push(exchange(s, Reply::Failed)); }
                        Err(EdmsError::SqliteError(e))
                    },
                }
            },
        }
    }

    /// Rows of one integer column.
    pub fn query_ints(&mut self, sql: &str, args: Vec<SqlValue>) -> (r: EdmsResult<Vec<i64>>)
        ensures
            !old(self).is_connected() ==> old(self).same(*final(self)) && r matches Err(EdmsError::UnknownError),
            old(self).is_connected() ==> old(self).followed_by(*final(self), exchange(
                stmt(sql@, args_view(args@)),
                match r { Ok(v) => Reply::Ints(v@.map_values(|i: i64| i as int)), Err(_) => Reply::Failed },
            )) && !(r matches Err(EdmsError::UnknownError)),
    {
        let ghost s = stmt(sql@, args_view(args@));
        match &self.connection {
            None => Err(EdmsError::UnknownError),
            Some(c) => {
                let res = sqlite_query_ints(c, sql, sqlite_values(args));
                match res {
                    Ok(v) => {
                        proof { self.journal@ = self.journal@.push(exchange(s, Reply::Ints(v@.map_values(|i: i64| i as int)))); }
                        Ok(v)
                    },
                    Err(e) => {
                        proof { self.journal@ = self.journal@.push(exchange(s, Reply::Failed)); }
                        Err(EdmsError::SqliteError(e))
                    },
                }
            },
        }
    }

    /// Rows of one nullable 32-bit integer column.
    pub fn query_opt_i32s(&mut self, sql: &str, args: Vec<SqlValue>) -> (r: EdmsResult<Vec<Option<i32>>>)
        ensures
            !old(self).is_connected() ==> old(self).same(*final(self)) && r matches Err(EdmsError::UnknownError),
            old(self).is_connected() ==> old(self).followed_by(*final(self), exchange(
                stmt(sql@, args_view(args@)),
                match r { Ok(v) => Reply::OptInts(v@.map_values(|i: Option<i32>| opt_i32_view(i))), Err(_) => Reply::Failed },
            )) && !(r matches Err(EdmsError::UnknownError)),
    {
        let ghost s = stmt(sql@, args_view(args@));
        match &self.connection {
            None => Err(EdmsError::UnknownError),
            Some(c) => {
                let res = sqlite_query_opt_i32s(c, sql, sqlite_values(args));
                match res {
                    Ok(v) => {
                        proof { self.journal@ = self.journal@.push(exchange(s, Reply::OptInts(v@.map_values(|i: Option<i32>| opt_i32_view(i))))); }
                        Ok(v)
                    },
                    Err(e) => {
                        proof { self.journal@ = self.journal@.push(exchange(s, Reply::Failed)); }
                        Err(EdmsError::SqliteError(e))
                    },
                }
            },
        }
    }

    /// Rows of two text columns.
    pub fn query_pairs(&mut self, sql: &str, args: Vec<SqlValue>) -> (r: EdmsResult<Vec<(String, String)>>)
        ensures
            !old(self).is_connected() ==> old(self).same(*final(self)) && r matches Err(EdmsError::UnknownError),
            old(self).is_connected() ==> old(self).followed_by(*final(self), exchange(
                stmt(sql@, args_view(args@)),
                match r { Ok(v) => Reply::Pairs(pairs_view(v@)), Err(_) => Reply::Failed },
            )) && !(r matches Err(EdmsError::UnknownError)),
    {
        let ghost s = stmt(sql@, args_view(args@));
        match &self.connection {
            None => Err(EdmsError::UnknownError),
            Some(c) => {
                let res = sqlite_query_pairs(c, sql, sqlite_values(args));
                match res {
                    Ok(v) => {
                        proof { self.journal@ = self.journal@.push(exchange(s, Reply::Pairs(pairs_view(v@)))); }
                        Ok(v)
                    },
                    Err(e) => {
                        proof { self.journal@ = self.journal@.push(exchange(s, Reply::Failed)); }
                        Err(EdmsError::SqliteError(e))
                    },
                }
            },
        }
    }

    /// A lookup of one row of two text columns (`Reply::Lookup`).
    pub fn lookup_pair(&mut self, sql: &str, args: Vec<SqlValue>) -> (r: EdmsResult<Option<Option<(String, String)>>>)
        ensures
            !old(self).is_connected() ==> old(self).same(*final(self)) && r matches Err(EdmsError::UnknownError),
            old(self).is_connected() ==> old(self).followed_by(*final(self), exchange(
                stmt(sql@, args_view(args@)),
                match r { Ok(v) => Reply::Lookup(lookup_view(v)), Err(_) => Reply::Failed },
            )) && !(r matches Err(EdmsError::UnknownError)),
    {
        let ghost s = stmt(sql@, args_view(args@));
        match &self.connection {
            None => Err(EdmsError::UnknownError),
            Some(c) => {
                let res = sqlite_lookup_pair(c, sql, sqlite_values(args));
                match res {
                    Ok(v) => {
                        proof { self.journal@ = self.journal@.push(exchange(s, Reply::Lookup(lookup_view(v)))); }
                        Ok(v)
                    },
                    Err(e) => {
                        proof { self.journal@ = self.journal@.push(exchange(s, Reply::Failed)); }
                        Err(EdmsError::SqliteError(e))
                    },
                }
            },
        }
    }

    /// Rows of a text column and an integer column.
    pub fn query_counts(&mut self, sql: &str, args: Vec<SqlValue>) -> (r: EdmsResult<Vec<(String, i64)>>)
        ensures
            !old(self).is_connected() ==> old(self).same(*final(self)) && r matches Err(EdmsError::UnknownError),
            old(self).is_connected() ==> old(self).followed_by(*final(self), exchange(
                stmt(sql@, args_view(args@)),
                match r { Ok(v) => Reply::Counts(counts_view(v@)), Err(_) => Reply::Failed },
            )) && !(r matches Err(EdmsError::UnknownError)),
    {
        let ghost s = stmt(sql@, args_view(args@));
        match &self.connection {
            None => Err(EdmsError::UnknownError),
            Some(c) => {
                let res = sqlite_query_counts(c, sql, sqlite_values(args));
                match res {
                    Ok(v) => {
                        proof { self.journal@ = self.journal@.push(exchange(s, Reply::Counts(counts_view(v@)))); }
                        Ok(v)
                    },
                    Err(e) => {
                        proof { self.journal@ = self.journal@.push(exchange(s, Reply::Failed)); }
                        Err(EdmsError::SqliteError(e))
                    },
                }
            },
        }
    }

    /// Rows read from columns 1 to 3 as text, text and nullable text.
    pub fn query_endpoints(&mut self, sql: &str, args: Vec<SqlValue>) -> (r: EdmsResult<Vec<(String, String, Option<String>)>>)
        ensures
            !old(self).is_connected() ==> old(self).same(*final(self)) && r matches Err(EdmsError::UnknownError),
            old(self).is_connected() ==> old(self).followed_by(*final(self), exchange(
                stmt(sql@, args_view(args@)),
                match r { Ok(v) => Reply::Endpoints(endpoint_rows_view(v@)), Err(_) => Reply::Failed },
            )) && !(r matches Err(EdmsError::UnknownError)),
    {
        let ghost s = stmt(sql@, args_view(args@));
        match &self.connection {
            None => Err(EdmsError::UnknownError),
            Some(c) => {
                let res = sqlite_query_endpoints(c, sql, sqlite_values(args));
                match res {
                    Ok(v) => {
                        proof { self.journal@ = self.journal@.push(exchange(s, Reply::Endpoints(endpoint_rows_view(v@)))); }
                        Ok(v)
                    },
                    Err(e) => {
                        proof { self.journal@ = self.journal@.push(exchange(s, Reply::Failed)); }
                        Err(EdmsError::SqliteError(e))
                    },
                }
            },
        }
    }

    /// Rows of text, nullable text, text and nullable text.
    pub fn query_catalog(&mut self, sql: &str, args: Vec<SqlValue>) -> (r: EdmsResult<Vec<(String, Option<String>, String, Option<String>)>>)
        ensures
            !old(self).is_connected() ==> old(self).same(*final(self)) && r matches Err(EdmsError::UnknownError),
            old(self).is_connected() ==> old(self).followed_by(*final(self), exchange(
                stmt(sql@, args_view(args@)),
                match r { Ok(v) => Reply::Catalog(catalog_rows_view(v@)), Err(_) => Reply::Failed },
            )) && !(r matches Err(EdmsError::UnknownError)),
    {
        let ghost s = stmt(sql@, args_view(args@));
        match &self.connection {
            None => Err(EdmsError::UnknownError),
            Some(c) => {
                let res = sqlite_query_catalog(c, sql, sqlite_values(args));
                match res {
                    Ok(v) => {
                        proof { self.journal@ = self.journal@.push(exchange(s, Reply::Catalog(catalog_rows_view(v@)))); }
                        Ok(v)
                    },
                    Err(e) => {
                        proof { self.journal@ = self.journal@.push(exchange(s, Reply::Failed)); }
                        Err(EdmsError::SqliteError(e))
                    },
                }
            },
        }
    }
}

/// The statement `sql` with the single text parameter `e`.
pub open spec fn with_text(sql: Seq<char>) -> spec_fn(Seq<char>) -> Stmt {
    |e: Seq<char>| stmt(sql, seq![text(e)])
}

impl EdmsCore {
    /// Runs `sql` once for each of `ids` in order, with that identifier as its
    /// one parameter, and stops at the first failure. The result is the total
    /// number of rows changed; a total beyond `usize::MAX` is reported as
    /// `UnknownError`. With no identifiers nothing is run.
    pub fn proc_each(&mut self, sql: &str, ids: &[String]) -> (r: EdmsResult<usize>)
        ensures
            final(self).path() == old(self).path(),
            final(self).is_connected() == old(self).is_connected(),
            old(self).journal().len() <= final(self).journal().len(),
            final(self).journal().take(old(self).journal().len() as int) == old(self).journal(),
            ids@.len() == 0 ==> old(self).same(*final(self)) && (r matches Ok(n) && n == 0),
            ids@.len() > 0 && !old(self).is_connected() ==> old(self).same(*final(self)) && is_unknown(r),
            ids@.len() > 0 && old(self).is_connected() ==> {
                let j = final(self).journal();
                let s = old(self).journal().len() as int;
                let idv = strings_view(ids@);
                &&& r matches Ok(n) ==> j.len() == s + idv.len()
                    && logged_each(j, s, idv, with_text(sql@), idv.len() as int)
                    && n == changed_sum(j, s, j.len() as int)
                &&& r matches Err(EdmsError::SqliteError(_)) ==> s < j.len() <= s + idv.len()
                    && logged_each(j, s, idv, with_text(sql@), j.len() - s - 1)
                    && j.last().stmt == with_text(sql@)(idv[j.len() - s - 1])
                    && j.last().reply is Failed
                &&& r matches Err(EdmsError::UnknownError) ==> s < j.len() <= s + idv.len()
                    && logged_each(j, s, idv, with_text(sql@), j.len() - s)
                    && changed_sum(j, s, j.len() as int) > usize::MAX
            },
    {
        let ghost s = old(self).journal().len() as int;
        let ghost idv = strings_view(ids@);
        let ghost mk = with_text(sql@);
        proof { assert(self.journal().take(s) =~= old(self).journal()); }
        if ids.len() == 0 {
            return Ok(0);
        }
        if self.connection.is_none() {
            return Err(EdmsError::UnknownError);
        }
        let mut total: usize = 0;
        let mut i: usize = 0;
        while i < ids.len()
            invariant
                i <= ids@.len(),
                idv == strings_view(ids@),
                mk == with_text(sql@),
                self.path() == old(self).path(),
                self.is_connected(),
                old(self).is_connected(),
                s == old(self).journal().len(),
                self.journal().len() == s + i,
                self.journal().take(s) == old(self).journal(),
                logged_each(self.journal(), s, idv, mk, i as int),
                total == changed_sum(self.journal(), s, s + i),
            decreases ids@.len() - i,
        {
            let ghost before = *self;
            let args = vec![SqlValue::Text(ids[i].clone())];
            assert(args_view(args@) =~= seq![text(idv[i as int])]);
            let res = self.proc(sql, args);
            proof {
                lemma_push_keeps(before.journal(), self.journal().last(), s, s + i);
                assert(self.journal() == before.journal().push(self.journal().last()));
                assert forall|k: int| 0 <= k < s implies self.journal().take(s)[k] == before.journal().take(s)[k] by {
                    assert(self.journal()[k] == before.journal()[k]);
                }
                assert(self.journal().take(s) =~= before.journal().take(s));
                let j = self.journal();
                assert forall|k: int| s <= k < s + i implies #[trigger] j[k].stmt == mk(idv[k - s]) && j[k].reply is Changed by {
                    assert(j[k] == before.journal()[k]);
                    assert(before.journal()[k].stmt == mk(idv[k - s]));
                }
                assert(j.len() - s - 1 == i);
                assert(j.last() == j[s + i as int]);
            }
            match res {
                Ok(c) => {
                    proof {
                        let j = self.journal();
                        assert(logged_each(j, s, idv, mk, i + 1));
                    }
                    match total.checked_add(c) {
                        Some(t) => {
                            total = t;
                        },
                        None => {
                            return Err(EdmsError::UnknownError);
                        },
                    }
                },
                Err(e) => {
                    return Err(e);
                },
            }
            i += 1;
        }
        Ok(total)
    }
}

} // verus!
