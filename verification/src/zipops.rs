//! The decisions inside archive import and export: which parts of an
//! archive entry's name are kept, which files a bookmark export takes,
//! which table names are safe to splice into SQL, and the configuration
//! written when a folder becomes the active one.
use vstd::prelude::*;
use crate::text::{strings_view, chars_of, push_char, concat, append_str};
use crate::store::{
    EdmsCore, EdmsError, EdmsResult, SqlValue, Exchange, Stmt, stmt, args_view, is_unknown, last_reply, extends,
    lemma_extends_trans,
};

verus! {

/// `s` split at each `/` (as `str::split('/')`): one piece more than there
/// are slashes, empty pieces included.
pub open spec fn split_slash(s: Seq<char>) -> Seq<Seq<char>>
    decreases s.len(),
{
    if s.len() == 0 {
        seq![seq![]]
    } else if s.last() == '/' {
        split_slash(s.drop_last()).push(seq![])
    } else {
        let p = split_slash(s.drop_last());
        p.update(p.len() - 1, p.last().push(s.last()))
    }
}

/// A piece of an entry name that is kept: not empty and not `..`.
pub open spec fn kept_component(c: Seq<char>) -> bool {
    c.len() > 0 && c != ".."@
}

pub open spec fn kept() -> spec_fn(Seq<char>) -> bool {
    |c: Seq<char>| kept_component(c)
}

/// The pieces of an archive entry's name that an import keeps, in order:
/// a leading `/` and every `..` are dropped, so the entry cannot land
/// outside the destination.
pub open spec fn safe_components(raw: Seq<char>) -> Seq<Seq<char>> {
    split_slash(raw).filter(kept())
}

fn is_dotdot(c: &Vec<char>) -> (b: bool)
    ensures
        b == (c@ == ".."@),
{
    proof { reveal_strlit(".."); }
    let r = c.len() == 2 && c[0] == '.' && c[1] == '.';
    proof {
        if r {
            assert(c@ =~= ".."@);
        }
    }
    r
}

fn string_of(v: &Vec<char>) -> (s: String)
    ensures
        s@ == v@,
{
    let mut s = String::new();
    let mut i: usize = 0;
    while i < v.len()
        invariant
            i <= v@.len(),
            s@ == v@.take(i as int),
        decreases v@.len() - i,
    {
        push_char(&mut s, v[i]);
        assert(v@.take(i + 1) =~= v@.take(i as int).push(v@[i as int]));
        i += 1;
    }
    assert(v@.take(v@.len() as int) =~= v@);
    s
}

/// The pieces of an archive entry's name that an import keeps
/// (`safe_components`).
pub fn safe_relative_components(raw: &str) -> (r: Vec<String>)
    ensures
        strings_view(r@) == safe_components(raw@),
        forall|i: int| 0 <= i < r@.len() ==> #[trigger] r@[i]@.len() > 0 && r@[i]@ != ".."@,
{
    let cs = chars_of(raw);
    let ghost s = raw@;
    let mut done: Vec<String> = Vec::new();
    let mut cur: Vec<char> = Vec::new();
    let mut i: usize = 0;
    proof { reveal(Seq::filter); }
    assert(split_slash(s.take(0)) == seq![cur@]);
    assert(strings_view(done@) =~= seq![]);
    assert(seq![cur@].drop_last() =~= seq![]);
    while i < cs.len()
        invariant
            cs@ == s,
            i <= s.len(),
            split_slash(s.take(i as int)).last() == cur@,
            split_slash(s.take(i as int)).len() >= 1,
            strings_view(done@) == split_slash(s.take(i as int)).drop_last().filter(kept()),
        decreases s.len() - i,
    {
        proof {
            reveal(Seq::filter);
            assert(s.take(i + 1).drop_last() =~= s.take(i as int));
            assert(s.take(i + 1).last() == s[i as int]);
        }
        let c = cs[i];
        if c == '/' {
            let ghost p = split_slash(s.take(i as int));
            assert(split_slash(s.take(i + 1)) == p.push(seq![]));
            assert(p.push(seq![]).drop_last() =~= p);
            assert(p =~= p.drop_last().push(cur@));
            if cur.len() > 0 && !is_dotdot(&cur) {
                done.push(string_of(&cur));
                assert(strings_view(done@) =~= strings_view(done@.drop_last()).push(done@.last()@));
            }
            assert(strings_view(done@) == p.drop_last().push(cur@).filter(kept()));
            cur = Vec::new();
        } else {
            let ghost p = split_slash(s.take(i as int));
            cur.push(c);
            assert(split_slash(s.take(i + 1)) == p.update(p.len() - 1, p.last().push(c)));
            assert(p.update(p.len() - 1, p.last().push(c)).drop_last() =~= p.drop_last());
        }
        i += 1;
    }
    assert(s.take(s.len() as int) =~= s);
    let ghost p = split_slash(s);
    assert(p =~= p.drop_last().push(cur@));
    if cur.len() > 0 && !is_dotdot(&cur) {
        done.push(string_of(&cur));
        assert(strings_view(done@) =~= strings_view(done@.drop_last()).push(done@.last()@));
    }
    proof {
        assert(strings_view(done@) == safe_components(raw@));
        assert forall|i: int| 0 <= i < done@.len() implies #[trigger] done@[i]@.len() > 0 && done@[i]@ != ".."@ by {
            split_slash(raw@).lemma_filter_pred(kept(), i);
            assert(strings_view(done@)[i] == done@[i]@);
        }
    }
    done
}

/// `p` is a prefix of `s`.
pub open spec fn has_prefix(s: Seq<char>, p: Seq<char>) -> bool {
    p.len() <= s.len() && s.take(p.len() as int) == p
}

fn starts_with(s: &str, p: &str) -> (b: bool)
    ensures
        b == has_prefix(s@, p@),
{
    let sv = chars_of(s);
    let pv = chars_of(p);
    if pv.len() > sv.len() {
        return false;
    }
    let mut i: usize = 0;
    while i < pv.len()
        invariant
            sv@ == s@,
            pv@ == p@,
            pv@.len() <= sv@.len(),
            i <= pv@.len(),
            forall|k: int| 0 <= k < i ==> sv@[k] == pv@[k],
        decreases pv@.len() - i,
    {
        if sv[i] != pv[i] {
            assert(s@.take(p@.len() as int)[i as int] != p@[i as int]);
            return false;
        }
        i += 1;
    }
    assert(s@.take(p@.len() as int) =~= p@);
    true
}

/// Whether a bookmark export takes the file named `file_name`: its name
/// begins with one of the selected endpoint identifiers.
pub fn selected_by_eid(file_name: &str, eids: &[String]) -> (b: bool)
    ensures
        b == exists|k: int| 0 <= k < eids@.len() && #[trigger] has_prefix(file_name@, eids@[k]@),
{
    let mut k: usize = 0;
    while k < eids.len()
        invariant
            k <= eids@.len(),
            forall|m: int| 0 <= m < k ==> !#[trigger] has_prefix(file_name@, eids@[m]@),
        decreases eids@.len() - k,
    {
        if starts_with(file_name, eids[k].as_str()) {
            return true;
        }
        k += 1;
    }
    false
}

/// What `char::is_alphanumeric` decides for `c` (the Unicode Alphabetic
/// or Numeric property).
pub uninterp spec fn alphanumeric(c: char) -> bool;

/// Whether `c` is alphanumeric (`char::is_alphanumeric`), named by
/// `alphanumeric`.
#[verifier::external_body]
fn is_alphanumeric(c: char) -> (b: bool)
    ensures
        b == alphanumeric(c),
{
    c.is_alphanumeric()
}

/// A table name is safe to quote into SQL when every character is
/// alphanumeric or `_`.
pub open spec fn safe_identifier(name: Seq<char>) -> bool {
    forall|i: int| 0 <= i < name.len() ==> alphanumeric(#[trigger] name[i]) || name[i] == '_'
}

/// Whether a table name is safe to quote into SQL (`safe_identifier`).
pub fn validate_identifier(name: &str) -> (b: bool)
    ensures
        b == safe_identifier(name@),
{
    let cs = chars_of(name);
    let mut i: usize = 0;
    while i < cs.len()
        invariant
            cs@ == name@,
            i <= cs@.len(),
            forall|k: int| 0 <= k < i ==> alphanumeric(#[trigger] name@[k]) || name@[k] == '_',
        decreases cs@.len() - i,
    {
        if !(is_alphanumeric(cs[i]) || cs[i] == '_') {
            return false;
        }
        i += 1;
    }
    true
}

/// The configuration that names the active folder.
pub fn active_folder_yaml(folder_name: &str) -> (y: String)
    ensures
        y@ == "active_folder: "@ + folder_name@ + "\n"@,
{
    let mut y = concat("active_folder: ", folder_name);
    append_str(&mut y, "\n");
    y
}

/// Why merging a database failed.
#[derive(Debug)]
pub enum MergeError {
    /// A table name is not safe to quote into SQL.
    UnsafeIdentifier(String),
    /// The database refused or failed a statement.
    Database(EdmsError),
}

pub const TABLE_NAMES_SQL: &'static str = "SELECT name FROM sqlite_master WHERE type='table';";

/// Attaches the database file at `path` as `src`.
pub open spec fn attach_sql(path: Seq<char>) -> Seq<char> {
    "ATTACH DATABASE '"@ + path + "' AS src"@
}

/// Creates table `t` where it is missing, with the columns of `src.t` and no rows.
pub open spec fn create_like_sql(t: Seq<char>) -> Seq<char> {
    "CREATE TABLE IF NOT EXISTS \""@ + t + "\" AS SELECT * FROM src.\""@ + t + "\" WHERE 0"@
}

/// Appends every row of `src.t` to `t`.
pub open spec fn copy_rows_sql(t: Seq<char>) -> Seq<char> {
    "INSERT INTO \""@ + t + "\" SELECT * FROM src.\""@ + t + "\""@
}

pub open spec fn bare(sql: Seq<char>) -> Stmt {
    stmt(sql, seq![])
}

/// `j[from..]` holds, for each of `tables[..n]` in order, its creation and
/// its copy, both successful.
pub open spec fn tables_merged(j: Seq<Exchange>, from: int, tables: Seq<Seq<char>>, n: int) -> bool {
    &&& 0 <= from
    &&& 0 <= n <= tables.len()
    &&& from + 2 * n <= j.len()
    &&& forall|k: int| 0 <= k < n ==> {
        &&& #[trigger] j[from + 2 * k].stmt == bare(create_like_sql(tables[k]))
        &&& j[from + 2 * k].reply is Changed
        &&& j[from + 2 * k + 1].stmt == bare(copy_rows_sql(tables[k]))
        &&& j[from + 2 * k + 1].reply is Changed
    }
}

proof fn lemma_tables_merged_prefix(j: Seq<Exchange>, j2: Seq<Exchange>, from: int, tables: Seq<Seq<char>>, n: int)
    requires
        tables_merged(j, from, tables, n),
        extends(j2, j),
    ensures
        tables_merged(j2, from, tables, n),
{
    assert forall|k: int| 0 <= k < n implies {
        &&& #[trigger] j2[from + 2 * k].stmt == bare(create_like_sql(tables[k]))
        &&& j2[from + 2 * k].reply is Changed
        &&& j2[from + 2 * k + 1].stmt == bare(copy_rows_sql(tables[k]))
        &&& j2[from + 2 * k + 1].reply is Changed
    } by {
        assert(j2[from + 2 * k] == j2.take(j.len() as int)[from + 2 * k]);
        assert(j2[from + 2 * k + 1] == j2.take(j.len() as int)[from + 2 * k + 1]);
        assert(j[from + 2 * k].stmt == bare(create_like_sql(tables[k])));
    }
}

fn quoted_sql(head: &str, t: &str, mid: &str, tail: &str) -> (s: String)
    ensures
        s@ == head@ + t@ + mid@ + t@ + tail@,
{
    let mut s = concat(head, t);
    append_str(&mut s, mid);
    append_str(&mut s, t);
    append_str(&mut s, tail);
    s
}

/// The texts among `rows`, in order: the rows that could be read.
pub open spec fn readable(rows: Seq<Option<Seq<char>>>) -> Seq<Seq<char>>
    decreases rows.len(),
{
    if rows.len() == 0 {
        seq![]
    } else {
        let before = readable(rows.drop_last());
        match rows.last() {
            Some(t) => before.push(t),
            None => before,
        }
    }
}

/// The names of the tables of an open database; a row whose name cannot be
/// read is skipped.
pub fn read_table_names(core: &mut EdmsCore) -> (r: EdmsResult<Vec<String>>)
    ensures
        !old(core).is_connected() ==> old(core).same(*final(core)) && is_unknown(r),
        old(core).is_connected() ==> !is_unknown(r) && old(core).path() == final(core).path()
            && old(core).is_connected() == final(core).is_connected()
            && final(core).journal().drop_last() == old(core).journal()
            && final(core).journal().len() == old(core).journal().len() + 1
            && final(core).journal().last().stmt == bare(TABLE_NAMES_SQL@)
            && (r is Err <==> final(core).journal().last().reply is Failed)
            && (r matches Ok(v) ==> final(core).journal().last().reply matches crate::store::Reply::OptTexts(rows)
                && strings_view(v@) == readable(rows)),
{
    let args: Vec<SqlValue> = Vec::new();
    assert(args_view(args@) =~= seq![]);
    let res = core.query_opt_texts(TABLE_NAMES_SQL, args);
    proof {
        if old(core).is_connected() {
            assert(core.journal().drop_last() =~= old(core).journal());
        }
    }
    let rows = match res {
        Ok(rows) => rows,
        Err(e) => {
            return Err(e);
        },
    };
    let ghost rv = crate::store::opt_strings_view(rows@);
    let mut names: Vec<String> = Vec::new();
    let mut i: usize = 0;
    while i < rows.len()
        invariant
            i <= rows@.len(),
            rv == crate::store::opt_strings_view(rows@),
            strings_view(names@) == readable(rv.take(i as int)),
        decreases rows@.len() - i,
    {
        assert(rv.take(i + 1).drop_last() =~= rv.take(i as int));
        match &rows[i] {
            Some(t) => {
                names.push(t.clone());
                assert(strings_view(names@) =~= strings_view(names@.drop_last()).push(t@));
            },
            None => {},
        }
        i = i + 1;
    }
    assert(rv.take(rows@.len() as int) =~= rv);
    Ok(names)
}

/// Copies the tables `tables` of the database file `db_path` into the open
/// merge database: attaches the file as `src`; for each table in order,
/// refuses it when its name is unsafe (`UnsafeIdentifier`, `src` left
/// attached), else creates it where missing with the source's columns and
/// appends all the source's rows; then detaches `src`.
pub fn merge_tables(merge: &mut EdmsCore, db_path: &str, tables: &[String]) -> (r: Result<(), MergeError>)
    ensures
        final(merge).path() == old(merge).path(),
        final(merge).is_connected() == old(merge).is_connected(),
        extends(final(merge).journal(), old(merge).journal()),
        !old(merge).is_connected() ==> old(merge).same(*final(merge)) && (r matches Err(MergeError::Database(EdmsError::UnknownError))),
        old(merge).is_connected() ==> {
            let j = final(merge).journal();
            let s = old(merge).journal().len() as int;
            let ts = strings_view(tables@);
            &&& j.len() > s
            &&& j[s].stmt == bare(attach_sql(db_path@))
            &&& r is Ok ==> {
                &&& j[s].reply is Changed
                &&& j.len() == s + 2 + 2 * ts.len()
                &&& tables_merged(j, s + 1, ts, ts.len() as int)
                &&& forall|k: int| 0 <= k < ts.len() ==> safe_identifier(#[trigger] ts[k])
                &&& j.last().stmt == bare("DETACH DATABASE src"@) && j.last().reply is Changed
            }
            &&& r matches Err(MergeError::UnsafeIdentifier(t)) ==> {
                let n = (j.len() - s - 1) / 2;
                &&& j[s].reply is Changed
                &&& j.len() == s + 1 + 2 * n
                &&& tables_merged(j, s + 1, ts, n)
                &&& n < ts.len() && t@ == ts[n] && !safe_identifier(t@)
                &&& forall|k: int| 0 <= k < n ==> safe_identifier(#[trigger] ts[k])
            }
            &&& r matches Err(MergeError::Database(_)) ==> last_reply(*final(merge)) is Failed
                && !(r matches Err(MergeError::Database(EdmsError::UnknownError)))
        },
{
    let ghost s = old(merge).journal().len() as int;
    let ghost j0 = old(merge).journal();
    let ghost ts = strings_view(tables@);
    proof { assert(j0.take(s) =~= j0); }
    let mut attach = concat("ATTACH DATABASE '", db_path);
    append_str(&mut attach, "' AS src");
    let args: Vec<SqlValue> = Vec::new();
    assert(args_view(args@) =~= seq![]);
    match merge.proc(attach.as_str(), args) {
        Ok(_) => {},
        Err(e) => {
            proof { assert(merge.journal().take(s) =~= j0); }
            return Err(MergeError::Database(e));
        },
    }
    let ghost j1 = merge.journal();
    proof { assert(j1.take(s) =~= j0); assert(j1.take(j1.len() as int) =~= j1); }
    let mut i: usize = 0;
    while i < tables.len()
        invariant
            i <= tables@.len(),
            ts == strings_view(tables@),
            s == j0.len(),
            j0 == old(merge).journal(),
            old(merge).is_connected(),
            j1.len() == s + 1,
            j1[s].stmt == bare(attach_sql(db_path@)),
            j1[s].reply is Changed,
            merge.path() == old(merge).path(),
            merge.is_connected(),
            extends(merge.journal(), j1),
            extends(j1, j0),
            merge.journal().len() == s + 1 + 2 * i,
            tables_merged(merge.journal(), s + 1, ts, i as int),
            forall|k: int| 0 <= k < i ==> safe_identifier(#[trigger] ts[k]),
        decreases tables@.len() - i,
    {
        let t = tables[i].as_str();
        if !validate_identifier(t) {
            proof {
                let j = merge.journal();
                lemma_extends_trans(j0, j1, j);
                assert(j[s] == j.take(j1.len() as int)[s]);
                assert((j.len() - s - 1) / 2 == i);
            }
            return Err(MergeError::UnsafeIdentifier(tables[i].clone()));
        }
        let ghost jb = merge.journal();
        let create = quoted_sql("CREATE TABLE IF NOT EXISTS \"", t, "\" AS SELECT * FROM src.\"", "\" WHERE 0");
        let args: Vec<SqlValue> = Vec::new();
        assert(args_view(args@) =~= seq![]);
        let c = merge.proc(create.as_str(), args);
        let ghost jc = merge.journal();
        proof {
            assert(jc.take(jb.len() as int) =~= jb);
            lemma_extends_trans(j1, jb, jc);
        }
        match c {
            Ok(_) => {},
            Err(e) => {
                proof { lemma_extends_trans(j0, j1, jc); }
                return Err(MergeError::Database(e));
            },
        }
        let copy = quoted_sql("INSERT INTO \"", t, "\" SELECT * FROM src.\"", "\"");
        let args: Vec<SqlValue> = Vec::new();
        assert(args_view(args@) =~= seq![]);
        let c = merge.proc(copy.as_str(), args);
        proof {
            let j = merge.journal();
            assert(j.take(jc.len() as int) =~= jc);
            lemma_extends_trans(j1, jc, j);
            lemma_extends_trans(j0, j1, j);
        }
        match c {
            Ok(_) => {},
            Err(e) => {
                return Err(MergeError::Database(e));
            },
        }
        proof {
            let j = merge.journal();
            lemma_extends_trans(jb, jc, j);
            lemma_tables_merged_prefix(jb, j, s + 1, ts, i as int);
            assert(j[s + 1 + 2 * i] == jc[s + 1 + 2 * i]);
            assert(jc[s + 1 + 2 * i] == jc.last());
            assert(j[s + 1 + 2 * i + 1] == j.last());
            assert forall|k: int| 0 <= k < i + 1 implies {
                &&& #[trigger] j[s + 1 + 2 * k].stmt == bare(create_like_sql(ts[k]))
                &&& j[s + 1 + 2 * k].reply is Changed
                &&& j[s + 1 + 2 * k + 1].stmt == bare(copy_rows_sql(ts[k]))
                &&& j[s + 1 + 2 * k + 1].reply is Changed
            } by {
                if k < i {
                    assert(j[s + 1 + 2 * k].stmt == bare(create_like_sql(ts[k])));
                }
            }
            assert(tables_merged(j, s + 1, ts, i + 1));
        }
        i += 1;
    }
    let ghost ju = merge.journal();
    let args: Vec<SqlValue> = Vec::new();
    assert(args_view(args@) =~= seq![]);
    let d = merge.proc("DETACH DATABASE src", args);
    proof {
        let j = merge.journal();
        assert(j.take(ju.len() as int) =~= ju);
        lemma_extends_trans(j1, ju, j);
        lemma_extends_trans(j0, j1, j);
        assert(j[s] == j.take(j1.len() as int)[s]);
        lemma_tables_merged_prefix(ju, j, s + 1, ts, ts.len() as int);
    }
    match d {
        Ok(_) => Ok(()),
        Err(e) => Err(MergeError::Database(e)),
    }
}

} // verus!
