//! The catalog of collections, webviews and repoviews, and the tag-count
//! rollups kept for each of the three view kinds. Queries are looked up by
//! a key made of the kind's prefix, `_` and the operation's suffix.
use vstd::prelude::*;
use crate::store::{
    EdmsCore, EdmsResult, EdmsError, SqlValue, SqlArg, Reply, Exchange, exchange, stmt, text, opt_text,
    args_view, ran, is_unknown, asked, last_reply, first_or_zero, lemma_followed_by_asked,
    catalog_rows_view, counts_view, logged_each, changed_sum, with_text,
};
use crate::queries::QueryMap;
use crate::db::first_of;
use crate::text::{concat, strings_view};

verus! {

/// The three kinds of view, each with its own tables.
#[derive(Debug, Clone, Copy, PartialEq, Eq, Structural)]
pub enum ViewKind {
    Collections,
    Webview,
    Repoview,
}

/// The prefix of a kind's query keys.
pub open spec fn view_prefix(kind: ViewKind) -> Seq<char> {
    match kind {
        ViewKind::Collections => "COLLECTIONS"@,
        ViewKind::Webview => "WEBVIEW"@,
        ViewKind::Repoview => "REPOVIEW"@,
    }
}

/// The key of the query for operation `suffix` on `kind`.
pub open spec fn view_key(kind: ViewKind, suffix: Seq<char>) -> Seq<char> {
    view_prefix(kind) + "_"@ + suffix
}

impl ViewKind {
    fn prefix(self) -> (p: &'static str)
        ensures
            p@ == view_prefix(self),
    {
        match self {
            ViewKind::Collections => "COLLECTIONS",
            ViewKind::Webview => "WEBVIEW",
            ViewKind::Repoview => "REPOVIEW",
        }
    }
}

fn view_key_of(kind: ViewKind, suffix: &str) -> (k: String)
    ensures
        k@ == view_key(kind, suffix@),
{
    let head = concat(kind.prefix(), "_");
    concat(head.as_str(), suffix)
}

/// A catalog row: name, file path, creation time and annotation.
pub type CatalogRow = (String, Option<String>, String, Option<String>);

pub open spec fn opt_catalog_view(o: Option<CatalogRow>) -> Option<(Seq<char>, Option<Seq<char>>, Seq<char>, Option<Seq<char>>)> {
    match o {
        Some(r) => Some(catalog_rows_view(seq![r])[0]),
        None => None,
    }
}

pub open spec fn opt_str_view(o: Option<&str>) -> Option<Seq<char>> {
    match o {
        Some(s) => Some(s@),
        None => None,
    }
}

fn opt_text_value(o: Option<&str>) -> (v: SqlValue)
    ensures
        v@ == opt_text(opt_str_view(o)),
{
    match o {
        Some(s) => SqlValue::Text(s.to_owned()),
        None => SqlValue::Null,
    }
}

/// Which views of each kind exist, and where each one's file lives.
pub struct ViewCatalogOps {
    pub core: EdmsCore,
    pub queries: QueryMap,
}

impl ViewCatalogOps {
    /// The catalog queries, by key.
    pub open spec fn catalog(&self) -> Map<Seq<char>, Seq<char>> {
        self.queries.catalog.view()
    }

    /// The catalog query for `suffix` on `kind`.
    pub open spec fn query_for(&self, kind: ViewKind, suffix: Seq<char>) -> Seq<char> {
        self.catalog()[view_key(kind, suffix)]
    }

    /// Operations on the database at `db_path`, not yet connected.
    pub fn new(db_path: &str, queries: QueryMap) -> (o: Self)
        ensures
            o.core.path() == db_path@,
            !o.core.is_connected(),
            o.core.journal() == Seq::<Exchange>::empty(),
            o.catalog() == queries.catalog.view(),
    {
        ViewCatalogOps { core: EdmsCore::new(db_path), queries }
    }

    /// Opens the database.
    pub fn initialize(&mut self) -> (r: EdmsResult<()>)
        ensures
            final(self).catalog() == old(self).catalog(),
            final(self).core.path() == old(self).core.path(),
            final(self).core.journal() == old(self).core.journal(),
            r is Ok ==> final(self).core.is_connected(),
            r is Err ==> final(self).core.is_connected() == old(self).core.is_connected(),
            !is_unknown(r),
    {
        self.core.connect()
    }

    /// Closes the database.
    pub fn shutdown(&mut self) -> (r: EdmsResult<()>)
        ensures
            final(self).catalog() == old(self).catalog(),
            final(self).core.path() == old(self).core.path(),
            final(self).core.journal() == old(self).core.journal(),
            !final(self).core.is_connected(),
            r is Ok,
    {
        self.core.disconnect()
    }

    fn query(&self, kind: ViewKind, suffix: &str) -> (q: &str)
        requires
            self.catalog().contains_key(view_key(kind, suffix@)),
        ensures
            q@ == self.query_for(kind, suffix@),
    {
        let key = view_key_of(kind, suffix);
        match self.queries.get_catalog_query(key.as_str()) {
            Some(q) => q,
            None => {
                proof { assert(false); }
                ""
            },
        }
    }

    /// Registers a view, with query `{KIND}_CREATE` (`name`, `file_path`, `annotation`).
    pub fn register(&mut self, kind: ViewKind, name: &str, file_path: Option<&str>, annotation: Option<&str>) -> (r: EdmsResult<usize>)
        requires
            old(self).catalog().contains_key(view_key(kind, "CREATE"@)),
        ensures
            final(self).catalog() == old(self).catalog(),
            ran(old(self).core, final(self).core, stmt(old(self).query_for(kind, "CREATE"@),
                seq![text(name@), opt_text(opt_str_view(file_path)), opt_text(opt_str_view(annotation))]), r),
    {
        let q = self.query(kind, "CREATE").to_owned();
        let args = vec![SqlValue::Text(name.to_owned()), opt_text_value(file_path), opt_text_value(annotation)];
        assert(args_view(args@) =~= seq![text(name@), opt_text(opt_str_view(file_path)), opt_text(opt_str_view(annotation))]);
        self.core.proc(q.as_str(), args)
    }

    /// The views of a kind, by query `{KIND}_LIST`.
    pub fn list(&mut self, kind: ViewKind) -> (r: EdmsResult<Vec<CatalogRow>>)
        requires
            old(self).catalog().contains_key(view_key(kind, "LIST"@)),
        ensures
            final(self).catalog() == old(self).catalog(),
            !old(self).core.is_connected() ==> old(self).core.same(final(self).core) && is_unknown(r),
            old(self).core.is_connected() ==> !is_unknown(r) && old(self).core.followed_by(final(self).core, exchange(
                stmt(old(self).query_for(kind, "LIST"@), seq![]),
                match r { Ok(v) => Reply::Catalog(catalog_rows_view(v@)), Err(_) => Reply::Failed },
            )),
    {
        let q = self.query(kind, "LIST").to_owned();
        let args: Vec<SqlValue> = Vec::new();
        assert(args_view(args@) =~= seq![]);
        self.core.query_catalog(q.as_str(), args)
    }

    /// One view by name, by query `{KIND}_GET` (`name`): the first row, if any.
    pub fn get(&mut self, kind: ViewKind, name: &str) -> (r: EdmsResult<Option<CatalogRow>>)
        requires
            old(self).catalog().contains_key(view_key(kind, "GET"@)),
        ensures
            final(self).catalog() == old(self).catalog(),
            !old(self).core.is_connected() ==> old(self).core.same(final(self).core) && is_unknown(r),
            old(self).core.is_connected() ==> {
                &&& asked(old(self).core, final(self).core, stmt(old(self).query_for(kind, "GET"@), seq![text(name@)]))
                &&& !is_unknown(r)
                &&& r is Err ==> last_reply(final(self).core) is Failed
                &&& r matches Ok(o) ==> last_reply(final(self).core) matches Reply::Catalog(rows)
                    && opt_catalog_view(o) == first_of(rows)
            },
    {
        let q = self.query(kind, "GET").to_owned();
        let args = vec![SqlValue::Text(name.to_owned())];
        assert(args_view(args@) =~= seq![text(name@)]);
        let res = self.core.query_catalog(q.as_str(), args);
        proof {
            if old(self).core.is_connected() {
                lemma_followed_by_asked(old(self).core, self.core, self.core.journal().last());
            }
        }
        match res {
            Ok(mut rows) => {
                let ghost all = rows@;
                if rows.len() > 0 {
                    let first = rows.remove(0);
                    assert(catalog_rows_view(seq![first])[0] == catalog_rows_view(all)[0]);
                    Ok(Some(first))
                } else {
                    Ok(None)
                }
            },
            Err(e) => Err(e),
        }
    }

    /// Replaces a view's annotation, with query `{KIND}_ANNOTATE` (`annotation`, `name`).
    pub fn annotate(&mut self, kind: ViewKind, name: &str, annotation: &str) -> (r: EdmsResult<usize>)
        requires
            old(self).catalog().contains_key(view_key(kind, "ANNOTATE"@)),
        ensures
            final(self).catalog() == old(self).catalog(),
            ran(old(self).core, final(self).core, stmt(old(self).query_for(kind, "ANNOTATE"@),
                seq![text(annotation@), text(name@)]), r),
    {
        let q = self.query(kind, "ANNOTATE").to_owned();
        let args = vec![SqlValue::Text(annotation.to_owned()), SqlValue::Text(name.to_owned())];
        assert(args_view(args@) =~= seq![text(annotation@), text(name@)]);
        self.core.proc(q.as_str(), args)
    }

    /// Removes a view from the catalog, with query `{KIND}_REMOVE` (`name`).
    pub fn remove(&mut self, kind: ViewKind, name: &str) -> (r: EdmsResult<usize>)
        requires
            old(self).catalog().contains_key(view_key(kind, "REMOVE"@)),
        ensures
            final(self).catalog() == old(self).catalog(),
            ran(old(self).core, final(self).core, stmt(old(self).query_for(kind, "REMOVE"@), seq![text(name@)]), r),
    {
        let q = self.query(kind, "REMOVE").to_owned();
        let args = vec![SqlValue::Text(name.to_owned())];
        assert(args_view(args@) =~= seq![text(name@)]);
        self.core.proc(q.as_str(), args)
    }

    /// Renames a view and points it at `new_file_path`, with query
    /// `{KIND}_RENAME` (`new_name`, `new_file_path`, `old_name`). Only the
    /// catalog row changes; moving the file is the caller's part.
    pub fn rename(&mut self, kind: ViewKind, old_name: &str, new_name: &str, new_file_path: Option<&str>) -> (r: EdmsResult<usize>)
        requires
            old(self).catalog().contains_key(view_key(kind, "RENAME"@)),
        ensures
            final(self).catalog() == old(self).catalog(),
            ran(old(self).core, final(self).core, stmt(old(self).query_for(kind, "RENAME"@),
                seq![text(new_name@), opt_text(opt_str_view(new_file_path)), text(old_name@)]), r),
    {
        let q = self.query(kind, "RENAME").to_owned();
        let args = vec![SqlValue::Text(new_name.to_owned()), opt_text_value(new_file_path), SqlValue::Text(old_name.to_owned())];
        assert(args_view(args@) =~= seq![text(new_name@), opt_text(opt_str_view(new_file_path)), text(old_name@)]);
        self.core.proc(q.as_str(), args)
    }
}

/// The tag-count rollups of each view kind: a tag name and a count kept up
/// to date as endpoints are tagged.
pub struct ViewTagCountOps {
    pub core: EdmsCore,
    pub queries: QueryMap,
}

impl ViewTagCountOps {
    /// The tag-count queries, by key.
    pub open spec fn counts(&self) -> Map<Seq<char>, Seq<char>> {
        self.queries.view_tag_counts.view()
    }

    /// The tag-count query for `suffix` on `kind`.
    pub open spec fn query_for(&self, kind: ViewKind, suffix: Seq<char>) -> Seq<char> {
        self.counts()[view_key(kind, suffix)]
    }

    /// Operations on the database at `db_path`, not yet connected.
    pub fn new(db_path: &str, queries: QueryMap) -> (o: Self)
        ensures
            o.core.path() == db_path@,
            !o.core.is_connected(),
            o.core.journal() == Seq::<Exchange>::empty(),
            o.counts() == queries.view_tag_counts.view(),
    {
        ViewTagCountOps { core: EdmsCore::new(db_path), queries }
    }

    /// Opens the database.
    pub fn initialize(&mut self) -> (r: EdmsResult<()>)
        ensures
            final(self).counts() == old(self).counts(),
            final(self).core.path() == old(self).core.path(),
            final(self).core.journal() == old(self).core.journal(),
            r is Ok ==> final(self).core.is_connected(),
            r is Err ==> final(self).core.is_connected() == old(self).core.is_connected(),
            !is_unknown(r),
    {
        self.core.connect()
    }

    /// Closes the database.
    pub fn shutdown(&mut self) -> (r: EdmsResult<()>)
        ensures
            final(self).counts() == old(self).counts(),
            final(self).core.path() == old(self).core.path(),
            final(self).core.journal() == old(self).core.journal(),
            !final(self).core.is_connected(),
            r is Ok,
    {
        self.core.disconnect()
    }

    fn query(&self, kind: ViewKind, suffix: &str) -> (q: &str)
        requires
            self.counts().contains_key(view_key(kind, suffix@)),
        ensures
            q@ == self.query_for(kind, suffix@),
    {
        let key = view_key_of(kind, suffix);
        match self.queries.get_view_tag_count_query(key.as_str()) {
            Some(q) => q,
            None => {
                proof { assert(false); }
                ""
            },
        }
    }

    /// Creates a tag with count `increment_by`, or adds `increment_by` to
    /// its count, with query `{KIND}_UPSERT` (`tagname`, `increment_by`).
    pub fn create(&mut self, kind: ViewKind, tagname: &str, increment_by: i64) -> (r: EdmsResult<usize>)
        requires
            old(self).counts().contains_key(view_key(kind, "UPSERT"@)),
        ensures
            final(self).counts() == old(self).counts(),
            ran(old(self).core, final(self).core, stmt(old(self).query_for(kind, "UPSERT"@),
                seq![text(tagname@), SqlArg::Int(increment_by as int)]), r),
    {
        let q = self.query(kind, "UPSERT").to_owned();
        let args = vec![SqlValue::Text(tagname.to_owned()), SqlValue::Int(increment_by)];
        assert(args_view(args@) =~= seq![text(tagname@), SqlArg::Int(increment_by as int)]);
        self.core.proc(q.as_str(), args)
    }

    /// Deletes a tag, with query `{KIND}_DELETE` (`tagname`).
    pub fn delete(&mut self, kind: ViewKind, tagname: &str) -> (r: EdmsResult<usize>)
        requires
            old(self).counts().contains_key(view_key(kind, "DELETE"@)),
        ensures
            final(self).counts() == old(self).counts(),
            ran(old(self).core, final(self).core, stmt(old(self).query_for(kind, "DELETE"@), seq![text(tagname@)]), r),
    {
        let q = self.query(kind, "DELETE").to_owned();
        let args = vec![SqlValue::Text(tagname.to_owned())];
        assert(args_view(args@) =~= seq![text(tagname@)]);
        self.core.proc(q.as_str(), args)
    }

    /// Deletes each of `tagnames` in order, stopping at the first failure;
    /// the total number of rows deleted (a total beyond `usize::MAX` fails
    /// as `UnknownError`).
    pub fn delete_many(&mut self, kind: ViewKind, tagnames: &[String]) -> (r: EdmsResult<usize>)
        requires
            tagnames@.len() > 0 ==> old(self).counts().contains_key(view_key(kind, "DELETE"@)),
        ensures
            final(self).counts() == old(self).counts(),
            final(self).core.path() == old(self).core.path(),
            final(self).core.is_connected() == old(self).core.is_connected(),
            old(self).core.journal().len() <= final(self).core.journal().len(),
            final(self).core.journal().take(old(self).core.journal().len() as int) == old(self).core.journal(),
            tagnames@.len() == 0 ==> old(self).core.same(final(self).core) && (r matches Ok(n) && n == 0),
            tagnames@.len() > 0 && !old(self).core.is_connected() ==> old(self).core.same(final(self).core) && is_unknown(r),
            tagnames@.len() > 0 && old(self).core.is_connected() ==> {
                let j = final(self).core.journal();
                let s = old(self).core.journal().len() as int;
                let names = strings_view(tagnames@);
                let mk = with_text(old(self).query_for(kind, "DELETE"@));
                &&& r matches Ok(n) ==> j.len() == s + names.len()
                    && logged_each(j, s, names, mk, names.len() as int)
                    && n == changed_sum(j, s, j.len() as int)
                &&& r matches Err(EdmsError::SqliteError(_)) ==> s < j.len() <= s + names.len()
                    && logged_each(j, s, names, mk, j.len() - s - 1)
                    && j.last().stmt == mk(names[j.len() - s - 1])
                    && j.last().reply is Failed
                &&& r matches Err(EdmsError::UnknownError) ==> s < j.len() <= s + names.len()
                    && logged_each(j, s, names, mk, j.len() - s)
                    && changed_sum(j, s, j.len() as int) > usize::MAX
            },
    {
        if tagnames.len() == 0 {
            proof { assert(self.core.journal().take(self.core.journal().len() as int) =~= self.core.journal()); }
            return Ok(0);
        }
        let q = self.query(kind, "DELETE").to_owned();
        self.core.proc_each(q.as_str(), tagnames)
    }

    /// Renames a tag, keeping its count: reads the count with `{KIND}_GET`
    /// (`old_name`); when the tag has a row, deletes it with `{KIND}_DELETE`
    /// and adds its count (the first row's) to `new_name` with
    /// `{KIND}_UPSERT` (`new_name`, count), merging with a tag of that name if
    /// there is one. A tag without a row is left alone.
    pub fn rename(&mut self, kind: ViewKind, old_name: &str, new_name: &str) -> (r: EdmsResult<()>)
        requires
            old(self).counts().contains_key(view_key(kind, "GET"@)),
            old(self).counts().contains_key(view_key(kind, "DELETE"@)),
            old(self).counts().contains_key(view_key(kind, "UPSERT"@)),
        ensures
            final(self).counts() == old(self).counts(),
            final(self).core.path() == old(self).core.path(),
            final(self).core.is_connected() == old(self).core.is_connected(),
            !old(self).core.is_connected() ==> old(self).core.same(final(self).core) && is_unknown(r),
            old(self).core.is_connected() ==> {
                let j = final(self).core.journal();
                let s = old(self).core.journal().len() as int;
                &&& !is_unknown(r)
                &&& s < j.len() <= s + 3
                &&& j.take(s) == old(self).core.journal()
                &&& j[s].stmt == stmt(old(self).query_for(kind, "GET"@), seq![text(old_name@)])
                &&& j.len() > s + 1 ==> (j[s].reply matches Reply::Ints(rows) && rows.len() > 0 && {
                    &&& j[s + 1].stmt == stmt(old(self).query_for(kind, "DELETE"@), seq![text(old_name@)])
                    &&& j.len() > s + 2 ==> j[s + 1].reply is Changed
                        && j[s + 2].stmt == stmt(old(self).query_for(kind, "UPSERT"@),
                            seq![text(new_name@), SqlArg::Int(rows[0])])
                })
                &&& (j[s].reply matches Reply::Ints(rows) && rows.len() > 0) ==> j.len() > s + 1
                &&& r is Ok ==> (j[s].reply matches Reply::Ints(rows) && {
                    ||| rows.len() == 0 && j.len() == s + 1
                    ||| rows.len() > 0 && j.len() == s + 3 && j[s + 2].reply is Changed
                })
                &&& r is Err ==> j.last().reply is Failed
            },
    {
        let get_q = self.query(kind, "GET").to_owned();
        let args = vec![SqlValue::Text(old_name.to_owned())];
        assert(args_view(args@) =~= seq![text(old_name@)]);
        let ghost c0 = self.core;
        let res = self.core.query_ints(get_q.as_str(), args);
        let rows = match res {
            Ok(rows) => rows,
            Err(e) => {
                proof {
                    if old(self).core.is_connected() {
                        assert(self.core.journal().take(c0.journal().len() as int) =~= c0.journal());
                    }
                }
                return Err(e);
            },
        };
        let ghost c1 = self.core;
        proof {
            assert(c1.journal().take(c0.journal().len() as int) =~= c0.journal());
        }
        if rows.len() == 0 {
            return Ok(());
        }
        let count: i64 = rows[0];
        let del_q = self.query(kind, "DELETE").to_owned();
        let args = vec![SqlValue::Text(old_name.to_owned())];
        assert(args_view(args@) =~= seq![text(old_name@)]);
        let res = self.core.proc(del_q.as_str(), args);
        let ghost c2 = self.core;
        proof {
            assert(c2.journal()[c0.journal().len() as int] == c1.journal()[c0.journal().len() as int]);
            assert(c2.journal().take(c0.journal().len() as int) =~= c0.journal());
        }
        match res {
            Ok(_) => {},
            Err(e) => {
                return Err(e);
            },
        }
        let up_q = self.query(kind, "UPSERT").to_owned();
        let args = vec![SqlValue::Text(new_name.to_owned()), SqlValue::Int(count)];
        assert(args_view(args@) =~= seq![text(new_name@), SqlArg::Int(count as int)]);
        let res = self.core.proc(up_q.as_str(), args);
        proof {
            let j = self.core.journal();
            let s = c0.journal().len() as int;
            assert(j[s] == c1.journal()[s]);
            assert(j[s + 1] == c2.journal()[s + 1]);
            assert(j.take(s) =~= c0.journal());
        }
        match res {
            Ok(_) => Ok(()),
            Err(e) => Err(e),
        }
    }

    /// The tags of a kind with their counts, by query `{KIND}_LIST_TAGS`.
    pub fn list(&mut self, kind: ViewKind) -> (r: EdmsResult<Vec<(String, i64)>>)
        requires
            old(self).counts().contains_key(view_key(kind, "LIST_TAGS"@)),
        ensures
            final(self).counts() == old(self).counts(),
            !old(self).core.is_connected() ==> old(self).core.same(final(self).core) && is_unknown(r),
            old(self).core.is_connected() ==> !is_unknown(r) && old(self).core.followed_by(final(self).core, exchange(
                stmt(old(self).query_for(kind, "LIST_TAGS"@), seq![]),
                match r { Ok(v) => Reply::Counts(counts_view(v@)), Err(_) => Reply::Failed },
            )),
    {
        let q = self.query(kind, "LIST_TAGS").to_owned();
        let args: Vec<SqlValue> = Vec::new();
        assert(args_view(args@) =~= seq![]);
        self.core.query_counts(q.as_str(), args)
    }
}

} // verus!
