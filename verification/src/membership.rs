//! The membership file of one collection: which endpoints belong to it (by
//! identifier, with the time each was added) and the tags carried along with
//! them. The endpoints' own data stays in the central database.
use vstd::prelude::*;
use crate::store::{
    EdmsCore, EdmsError, EdmsResult, SqlValue, Reply, Stmt, exchange, stmt, text, args_view,
    ran_named, is_unknown, asked, last_reply, first_or_zero, lemma_followed_by_asked, pairs_view,
    logged_each, changed_sum, with_text,
};
use crate::queries::QueryMap;
use crate::text::{strings_view, dedup, lemma_dedup, dedup_strings, occurs_at};

verus! {

/// The table of members.
pub const MEMBERSHIP_TABLE_SQL: &'static str = "CREATE TABLE IF NOT EXISTS membership (
                endpoint_id TEXT NOT NULL UNIQUE,
                added_at    TIMESTAMP DEFAULT CURRENT_TIMESTAMP
            )";

/// The table of tags carried into the collection with its endpoints.
pub const ENDPOINT_TAGS_TABLE_SQL: &'static str = "CREATE TABLE IF NOT EXISTS endpoint_tags (
                endpoint_id TEXT NOT NULL,
                tag         TEXT NOT NULL,
                added_at    TIMESTAMP DEFAULT CURRENT_TIMESTAMP,
                UNIQUE(endpoint_id, tag)
            )";

/// Adds one member unless it is there already.
pub const BATCH_INSERT_SQL: &'static str = "INSERT OR IGNORE INTO membership (endpoint_id) VALUES (?)";

/// One member: the endpoint and when it was added.
#[derive(Debug, Clone)]
pub struct MembershipEntry {
    pub endpoint_id: String,
    pub added_at: String,
}

impl View for MembershipEntry {
    type V = (Seq<char>, Seq<char>);

    open spec fn view(&self) -> Self::V {
        (self.endpoint_id@, self.added_at@)
    }
}

pub open spec fn entries_view(v: Seq<MembershipEntry>) -> Seq<(Seq<char>, Seq<char>)> {
    v.map_values(|m: MembershipEntry| m@)
}

/// The first column of two-column rows.
pub open spec fn first_column(rows: Seq<(Seq<char>, Seq<char>)>) -> Seq<Seq<char>> {
    rows.map_values(|p: (Seq<char>, Seq<char>)| p.0)
}

/// A transaction statement, without parameters.
pub open spec fn tx_stmt(sql: Seq<char>) -> Stmt {
    stmt(sql, seq![])
}

fn entries_from_rows(rows: Vec<(String, String)>) -> (v: Vec<MembershipEntry>)
    ensures
        entries_view(v@) == pairs_view(rows@),
{
    let mut v: Vec<MembershipEntry> = Vec::new();
    let mut i: usize = 0;
    while i < rows.len()
        invariant
            i <= rows@.len(),
            entries_view(v@) == pairs_view(rows@.take(i as int)),
        decreases rows@.len() - i,
    {
        let row = &rows[i];
        v.push(MembershipEntry { endpoint_id: row.0.clone(), added_at: row.1.clone() });
        assert(pairs_view(rows@.take(i + 1)) =~= pairs_view(rows@.take(i as int)).push(pairs_view(rows@)[i as int]));
        assert(entries_view(v@) =~= entries_view(v@.drop_last()).push(v@.last()@));
        i += 1;
    }
    assert(rows@.take(rows@.len() as int) =~= rows@);
    v
}

fn ids_of(entries: Vec<MembershipEntry>) -> (v: Vec<String>)
    ensures
        strings_view(v@) == first_column(entries_view(entries@)),
{
    let mut v: Vec<String> = Vec::new();
    let mut i: usize = 0;
    while i < entries.len()
        invariant
            i <= entries@.len(),
            strings_view(v@) == first_column(entries_view(entries@.take(i as int))),
        decreases entries@.len() - i,
    {
        v.push(entries[i].endpoint_id.clone());
        assert(first_column(entries_view(entries@.take(i + 1))) =~= first_column(entries_view(entries@.take(i as int))).push(
            entries@[i as int].endpoint_id@,
        ));
        assert(strings_view(v@) =~= strings_view(v@.drop_last()).push(v@.last()@));
        i += 1;
    }
    assert(entries@.take(entries@.len() as int) =~= entries@);
    v
}

/// Operations on the membership file of one collection.
pub struct CollectionMembershipOps {
    pub core: EdmsCore,
    pub queries: QueryMap,
}

impl CollectionMembershipOps {
    /// The membership queries, by key.
    pub open spec fn queries(&self) -> Map<Seq<char>, Seq<char>> {
        self.queries.collection_membership.view()
    }

    /// Operations on the collection file at `file_path`, not yet connected,
    /// with the membership queries of `queries`.
    pub fn new(file_path: &str, queries: QueryMap) -> (o: Self)
        ensures
            o.core.path() == file_path@,
            !o.core.is_connected(),
            o.core.journal() == Seq::<crate::store::Exchange>::empty(),
            o.queries() == queries.collection_membership.view(),
    {
        CollectionMembershipOps { core: EdmsCore::new(file_path), queries }
    }

    /// Connects, creating the file if need be, and creates the tables of
    /// members and of carried tags where they do not exist.
    pub fn initialize(&mut self) -> (r: EdmsResult<()>)
        ensures
            final(self).queries() == old(self).queries(),
            final(self).core.path() == old(self).core.path(),
            old(self).core.journal().len() <= final(self).core.journal().len() <= old(self).core.journal().len() + 2,
            final(self).core.journal().take(old(self).core.journal().len() as int) == old(self).core.journal(),
            !is_unknown(r),
            r is Ok ==> {
                let j = final(self).core.journal();
                let s = old(self).core.journal().len() as int;
                &&& final(self).core.is_connected()
                &&& j.len() == s + 2
                &&& j[s].stmt == tx_stmt(MEMBERSHIP_TABLE_SQL@) && j[s].reply is Changed
                &&& j[s + 1].stmt == tx_stmt(ENDPOINT_TAGS_TABLE_SQL@) && j[s + 1].reply is Changed
            },
            r is Err && final(self).core.journal().len() > old(self).core.journal().len()
                ==> last_reply(final(self).core) is Failed,
    {
        let ghost s = old(self).core.journal().len() as int;
        proof { assert(self.core.journal().take(s) =~= old(self).core.journal()); }
        match self.core.connect() {
            Ok(()) => {},
            Err(e) => {
                return Err(e);
            },
        }
        let args: Vec<SqlValue> = Vec::new();
        assert(args_view(args@) =~= seq![]);
        match self.core.proc(MEMBERSHIP_TABLE_SQL, args) {
            Ok(_) => {},
            Err(e) => {
                proof { assert(self.core.journal().take(s) =~= old(self).core.journal()); }
                return Err(e);
            },
        }
        let ghost j1 = self.core.journal();
        let args: Vec<SqlValue> = Vec::new();
        assert(args_view(args@) =~= seq![]);
        let res = self.core.proc(ENDPOINT_TAGS_TABLE_SQL, args);
        proof {
            let j = self.core.journal();
            assert(j1.take(s) =~= old(self).core.journal());
            assert(j.take(s) =~= old(self).core.journal());
            assert(j[s] == j1[s]);
        }
        match res {
            Ok(_) => Ok(()),
            Err(e) => Err(e),
        }
    }

    /// Closes the file.
    pub fn shutdown(&mut self) -> (r: EdmsResult<()>)
        ensures
            final(self).queries() == old(self).queries(),
            final(self).core.path() == old(self).core.path(),
            final(self).core.journal() == old(self).core.journal(),
            !final(self).core.is_connected(),
            r is Ok,
    {
        self.core.disconnect()
    }

    /// Adds a member with query `ADD` (`endpoint_id`).
    pub fn add(&mut self, endpoint_id: &str) -> (r: EdmsResult<usize>)
        ensures
            final(self).queries() == old(self).queries(),
            ran_named(old(self).core, final(self).core, old(self).queries(), "ADD"@, seq![text(endpoint_id@)], r),
    {
        match self.queries.get_collection_membership_query("ADD") {
            None => Err(EdmsError::UnknownError),
            Some(q) => {
                let args = vec![SqlValue::Text(endpoint_id.to_owned())];
                assert(args_view(args@) =~= seq![text(endpoint_id@)]);
                self.core.proc(q, args)
            },
        }
    }

    /// Removes a member with query `REMOVE` (`endpoint_id`).
    pub fn remove(&mut self, endpoint_id: &str) -> (r: EdmsResult<usize>)
        ensures
            final(self).queries() == old(self).queries(),
            ran_named(old(self).core, final(self).core, old(self).queries(), "REMOVE"@, seq![text(endpoint_id@)], r),
    {
        match self.queries.get_collection_membership_query("REMOVE") {
            None => Err(EdmsError::UnknownError),
            Some(q) => {
                let args = vec![SqlValue::Text(endpoint_id.to_owned())];
                assert(args_view(args@) =~= seq![text(endpoint_id@)]);
                self.core.proc(q, args)
            },
        }
    }

    /// The members, by query `LIST` (identifier and time added).
    pub fn list(&mut self) -> (r: EdmsResult<Vec<MembershipEntry>>)
        ensures
            final(self).queries() == old(self).queries(),
            !(old(self).queries().contains_key("LIST"@) && old(self).core.is_connected())
                ==> old(self).core.same(final(self).core) && is_unknown(r),
            old(self).queries().contains_key("LIST"@) && old(self).core.is_connected() ==> {
                &&& old(self).core.followed_by(final(self).core, exchange(
                    stmt(old(self).queries()["LIST"@], seq![]),
                    match r { Ok(v) => Reply::Pairs(entries_view(v@)), Err(_) => Reply::Failed },
                ))
                &&& !is_unknown(r)
            },
    {
        match self.queries.get_collection_membership_query("LIST") {
            None => Err(EdmsError::UnknownError),
            Some(q) => {
                let args: Vec<SqlValue> = Vec::new();
                assert(args_view(args@) =~= seq![]);
                match self.core.query_pairs(q, args) {
                    Ok(rows) => Ok(entries_from_rows(rows)),
                    Err(e) => Err(e),
                }
            },
        }
    }

    /// The identifiers of the members, in the order of `LIST`.
    pub fn list_ids(&mut self) -> (r: EdmsResult<Vec<String>>)
        ensures
            final(self).queries() == old(self).queries(),
            !(old(self).queries().contains_key("LIST"@) && old(self).core.is_connected())
                ==> old(self).core.same(final(self).core) && is_unknown(r),
            old(self).queries().contains_key("LIST"@) && old(self).core.is_connected() ==> {
                &&& asked(old(self).core, final(self).core, stmt(old(self).queries()["LIST"@], seq![]))
                &&& !is_unknown(r)
                &&& r is Err ==> last_reply(final(self).core) is Failed
                &&& r matches Ok(v) ==> last_reply(final(self).core) matches Reply::Pairs(rows)
                    && strings_view(v@) == first_column(rows)
            },
    {
        let res = self.list();
        proof {
            if old(self).queries().contains_key("LIST"@) && old(self).core.is_connected() {
                lemma_followed_by_asked(old(self).core, self.core, self.core.journal().last());
            }
        }
        match res {
            Ok(rows) => Ok(ids_of(rows)),
            Err(e) => Err(e),
        }
    }

    /// The identifiers of the members, each once: the set of `list_ids`.
    pub fn list_set(&mut self) -> (r: EdmsResult<Vec<String>>)
        ensures
            final(self).queries() == old(self).queries(),
            !(old(self).queries().contains_key("LIST"@) && old(self).core.is_connected())
                ==> old(self).core.same(final(self).core) && is_unknown(r),
            old(self).queries().contains_key("LIST"@) && old(self).core.is_connected() ==> {
                &&& asked(old(self).core, final(self).core, stmt(old(self).queries()["LIST"@], seq![]))
                &&& !is_unknown(r)
                &&& r is Err ==> last_reply(final(self).core) is Failed
                &&& r matches Ok(v) ==> last_reply(final(self).core) matches Reply::Pairs(rows)
                    && strings_view(v@) == dedup(first_column(rows))
                    && strings_view(v@).no_duplicates()
                    && forall|e: Seq<char>| strings_view(v@).contains(e) <==> first_column(rows).contains(e)
            },
    {
        match self.list_ids() {
            Ok(ids) => {
                let v = dedup_strings(ids.as_slice());
                proof { lemma_dedup(strings_view(ids@)); }
                Ok(v)
            },
            Err(e) => Err(e),
        }
    }

    /// Adds each of `endpoint_ids` as a member in one transaction: `BEGIN
    /// IMMEDIATE`, one `INSERT OR IGNORE` per identifier in order, then
    /// `COMMIT`; after a failed insert, `ROLLBACK`. The result is the number
    /// of members added (an overflow of that total fails as `UnknownError`,
    /// rolled back). With no identifiers nothing is done.
    pub fn add_batch(&mut self, endpoint_ids: &[String]) -> (r: EdmsResult<usize>)
        ensures
            final(self).queries() == old(self).queries(),
            final(self).core.path() == old(self).core.path(),
            final(self).core.is_connected() == old(self).core.is_connected(),
            old(self).core.journal().len() <= final(self).core.journal().len(),
            final(self).core.journal().take(old(self).core.journal().len() as int) == old(self).core.journal(),
            endpoint_ids@.len() == 0 ==> old(self).core.same(final(self).core) && (r matches Ok(n) && n == 0),
            endpoint_ids@.len() > 0 && !old(self).core.is_connected() ==> old(self).core.same(final(self).core) && is_unknown(r),
            endpoint_ids@.len() > 0 && old(self).core.is_connected() ==> {
                let j = final(self).core.journal();
                let s = old(self).core.journal().len() as int;
                let ids = strings_view(endpoint_ids@);
                &&& j.len() > s
                &&& j[s].stmt == tx_stmt("BEGIN IMMEDIATE"@)
                &&& r matches Ok(n) ==> {
                    &&& j[s].reply is Done
                    &&& j.len() == s + 2 + ids.len()
                    &&& logged_each(j, s + 1, ids, with_text(BATCH_INSERT_SQL@), ids.len() as int)
                    &&& n == changed_sum(j, s + 1, s + 1 + ids.len())
                    &&& j.last().stmt == tx_stmt("COMMIT"@) && j.last().reply is Done
                }
                &&& r is Err ==> {
                    ||| j.len() == s + 1 && j[s].reply is Failed && !is_unknown(r)
                    ||| j[s].reply is Done && j.last().stmt == tx_stmt("ROLLBACK"@) && {
                        let p = j.drop_last();
                        &&& s + 1 < p.len() <= s + 1 + ids.len()
                        &&& !is_unknown(r) ==> logged_each(p, s + 1, ids, with_text(BATCH_INSERT_SQL@), p.len() - s - 2)
                            && p.last().stmt == with_text(BATCH_INSERT_SQL@)(ids[p.len() - s - 2])
                            && p.last().reply is Failed
                        &&& is_unknown(r) ==> logged_each(p, s + 1, ids, with_text(BATCH_INSERT_SQL@), p.len() - s - 1)
                            && changed_sum(p, s + 1, p.len() as int) > usize::MAX
                    }
                    ||| j[s].reply is Done && j.len() == s + 2 + ids.len()
                        && logged_each(j, s + 1, ids, with_text(BATCH_INSERT_SQL@), ids.len() as int)
                        && j.last().stmt == tx_stmt("COMMIT"@) && j.last().reply is Failed && !is_unknown(r)
                }
            },
    {
        let ghost s = old(self).core.journal().len() as int;
        proof { assert(self.core.journal().take(s) =~= old(self).core.journal()); }
        if endpoint_ids.len() == 0 {
            return Ok(0);
        }
        match self.core.batch("BEGIN IMMEDIATE") {
            Ok(()) => {},
            Err(e) => {
                proof { assert(self.core.journal().take(s) =~= old(self).core.journal()); }
                return Err(e);
            },
        }
        let ghost j1 = self.core.journal();
        proof { assert(j1.take(s) =~= old(self).core.journal()); }
        let res = self.core.proc_each(BATCH_INSERT_SQL, endpoint_ids);
        let ghost j2 = self.core.journal();
        proof {
            assert(j2[s] == j1[s]);
            assert forall|k: int| 0 <= k < s implies j2.take(s)[k] == old(self).core.journal()[k] by {
                assert(j2[k] == j2.take(j1.len() as int)[k]);
                assert(j1[k] == j1.take(s)[k]);
            }
            assert(j2.take(s) =~= old(self).core.journal());
        }
        match res {
            Ok(count) => {
                let c = self.core.batch("COMMIT");
                proof {
                    let j = self.core.journal();
                    assert(j.drop_last() == j2);
                    assert(j[s] == j2[s]);
                    assert forall|k: int| 0 <= k < s implies j.take(s)[k] == old(self).core.journal()[k] by {
                        assert(j[k] == j2[k]);
                        assert(j2[k] == j2.take(s)[k]);
                    }
                    assert(j.take(s) =~= old(self).core.journal());
                    let ids = strings_view(endpoint_ids@);
                    assert forall|k: int| s + 1 <= k < s + 1 + ids.len() implies
                        #[trigger] j[k].stmt == with_text(BATCH_INSERT_SQL@)(ids[k - (s + 1)]) && j[k].reply is Changed by {
                        assert(j[k] == j2[k]);
                        assert(j2[k].stmt == with_text(BATCH_INSERT_SQL@)(ids[k - (s + 1)]));
                    }
                    crate::store::lemma_push_keeps(j2, j.last(), s + 1, s + 1 + ids.len());
                    assert(j == j2.push(j.last()));
                }
                match c {
                    Ok(()) => Ok(count),
                    Err(e) => Err(e),
                }
            },
            Err(e) => {
                let _ = self.core.batch("ROLLBACK");
                proof {
                    let j = self.core.journal();
                    assert(j.drop_last() == j2);
                    assert(j[s] == j2[s]);
                    assert forall|k: int| 0 <= k < s implies j.take(s)[k] == old(self).core.journal()[k] by {
                        assert(j[k] == j2[k]);
                        assert(j2[k] == j2.take(s)[k]);
                    }
                    assert(j.take(s) =~= old(self).core.journal());
                }
                Err(e)
            },
        }
    }

    /// The number of members, by query `COUNT` (the first row; 0 when none).
    pub fn count(&mut self) -> (r: EdmsResult<i64>)
        ensures
            final(self).queries() == old(self).queries(),
            !(old(self).queries().contains_key("COUNT"@) && old(self).core.is_connected())
                ==> old(self).core.same(final(self).core) && is_unknown(r),
            old(self).queries().contains_key("COUNT"@) && old(self).core.is_connected() ==> {
                &&& asked(old(self).core, final(self).core, stmt(old(self).queries()["COUNT"@], seq![]))
                &&& !is_unknown(r)
                &&& r is Err ==> last_reply(final(self).core) is Failed
                &&& r matches Ok(n) ==> last_reply(final(self).core) matches Reply::Ints(rows) && n == first_or_zero(rows)
            },
    {
        match self.queries.get_collection_membership_query("COUNT") {
            None => Err(EdmsError::UnknownError),
            Some(q) => {
                let args: Vec<SqlValue> = Vec::new();
                assert(args_view(args@) =~= seq![]);
                let res = self.core.query_ints(q, args);
                proof {
                    if old(self).core.is_connected() {
                        lemma_followed_by_asked(old(self).core, self.core, self.core.journal().last());
                    }
                }
                match res {
                    Ok(rows) => Ok(if rows.len() > 0 { rows[0] } else { 0 }),
                    Err(e) => Err(e),
                }
            },
        }
    }

    /// The number of tags carried for an endpoint, by query
    /// `COUNT_TAGS_FOR_ENDPOINT` (`endpoint_id`; the first row, 0 when none).
    pub fn count_tags_for_endpoint(&mut self, endpoint_id: &str) -> (r: EdmsResult<i64>)
        ensures
            final(self).queries() == old(self).queries(),
            !(old(self).queries().contains_key("COUNT_TAGS_FOR_ENDPOINT"@) && old(self).core.is_connected())
                ==> old(self).core.same(final(self).core) && is_unknown(r),
            old(self).queries().contains_key("COUNT_TAGS_FOR_ENDPOINT"@) && old(self).core.is_connected() ==> {
                &&& asked(old(self).core, final(self).core,
                    stmt(old(self).queries()["COUNT_TAGS_FOR_ENDPOINT"@], seq![text(endpoint_id@)]))
                &&& !is_unknown(r)
                &&& r is Err ==> last_reply(final(self).core) is Failed
                &&& r matches Ok(n) ==> last_reply(final(self).core) matches Reply::Ints(rows) && n == first_or_zero(rows)
            },
    {
        match self.queries.get_collection_membership_query("COUNT_TAGS_FOR_ENDPOINT") {
            None => Err(EdmsError::UnknownError),
            Some(q) => {
                let args = vec![SqlValue::Text(endpoint_id.to_owned())];
                assert(args_view(args@) =~= seq![text(endpoint_id@)]);
                let res = self.core.query_ints(q, args);
                proof {
                    if old(self).core.is_connected() {
                        lemma_followed_by_asked(old(self).core, self.core, self.core.journal().last());
                    }
                }
                match res {
                    Ok(rows) => Ok(if rows.len() > 0 { rows[0] } else { 0 }),
                    Err(e) => Err(e),
                }
            },
        }
    }

    /// Carries a tag for an endpoint, with query `ADD_TAG` (`endpoint_id`, `tag`).
    pub fn add_tag(&mut self, endpoint_id: &str, tag: &str) -> (r: EdmsResult<usize>)
        ensures
            final(self).queries() == old(self).queries(),
            ran_named(old(self).core, final(self).core, old(self).queries(), "ADD_TAG"@,
                seq![text(endpoint_id@), text(tag@)], r),
    {
        match self.queries.get_collection_membership_query("ADD_TAG") {
            None => Err(EdmsError::UnknownError),
            Some(q) => {
                let args = vec![SqlValue::Text(endpoint_id.to_owned()), SqlValue::Text(tag.to_owned())];
                assert(args_view(args@) =~= seq![text(endpoint_id@), text(tag@)]);
                self.core.proc(q, args)
            },
        }
    }

    /// The tags carried for an endpoint, by query `LIST_TAGS_FOR_ENDPOINT`.
    pub fn list_tags_for_endpoint(&mut self, endpoint_id: &str) -> (r: EdmsResult<Vec<String>>)
        ensures
            final(self).queries() == old(self).queries(),
            !(old(self).queries().contains_key("LIST_TAGS_FOR_ENDPOINT"@) && old(self).core.is_connected())
                ==> old(self).core.same(final(self).core) && is_unknown(r),
            old(self).queries().contains_key("LIST_TAGS_FOR_ENDPOINT"@) && old(self).core.is_connected() ==> {
                &&& old(self).core.followed_by(final(self).core, exchange(
                    stmt(old(self).queries()["LIST_TAGS_FOR_ENDPOINT"@], seq![text(endpoint_id@)]),
                    match r { Ok(v) => Reply::Texts(strings_view(v@)), Err(_) => Reply::Failed },
                ))
                &&& !is_unknown(r)
            },
    {
        match self.queries.get_collection_membership_query("LIST_TAGS_FOR_ENDPOINT") {
            None => Err(EdmsError::UnknownError),
            Some(q) => {
                let args = vec![SqlValue::Text(endpoint_id.to_owned())];
                assert(args_view(args@) =~= seq![text(endpoint_id@)]);
                self.core.query_texts(q, args)
            },
        }
    }

    /// Every carried (endpoint, tag) pair, by query `LIST_ALL_ENDPOINT_TAGS`.
    pub fn list_all_endpoint_tags(&mut self) -> (r: EdmsResult<Vec<(String, String)>>)
        ensures
            final(self).queries() == old(self).queries(),
            !(old(self).queries().contains_key("LIST_ALL_ENDPOINT_TAGS"@) && old(self).core.is_connected())
                ==> old(self).core.same(final(self).core) && is_unknown(r),
            old(self).queries().contains_key("LIST_ALL_ENDPOINT_TAGS"@) && old(self).core.is_connected() ==> {
                &&& old(self).core.followed_by(final(self).core, exchange(
                    stmt(old(self).queries()["LIST_ALL_ENDPOINT_TAGS"@], seq![]),
                    match r { Ok(v) => Reply::Pairs(pairs_view(v@)), Err(_) => Reply::Failed },
                ))
                &&& !is_unknown(r)
            },
    {
        match self.queries.get_collection_membership_query("LIST_ALL_ENDPOINT_TAGS") {
            None => Err(EdmsError::UnknownError),
            Some(q) => {
                let args: Vec<SqlValue> = Vec::new();
                assert(args_view(args@) =~= seq![]);
                self.core.query_pairs(q, args)
            },
        }
    }
}

/// Both tables that `initialize` creates are created only where they do not
/// exist yet (`CREATE TABLE IF NOT EXISTS`), so running it again on an
/// initialized file asks for nothing new.
pub proof fn lemma_initialize_creates_only_missing_tables()
    ensures
        occurs_at(MEMBERSHIP_TABLE_SQL@, "CREATE TABLE IF NOT EXISTS "@, 0),
        occurs_at(ENDPOINT_TAGS_TABLE_SQL@, "CREATE TABLE IF NOT EXISTS "@, 0),
{
    reveal_strlit("CREATE TABLE IF NOT EXISTS ");
    reveal_strlit("CREATE TABLE IF NOT EXISTS membership (
                endpoint_id TEXT NOT NULL UNIQUE,
                added_at    TIMESTAMP DEFAULT CURRENT_TIMESTAMP
            )");
    reveal_strlit("CREATE TABLE IF NOT EXISTS endpoint_tags (
                endpoint_id TEXT NOT NULL,
                tag         TEXT NOT NULL,
                added_at    TIMESTAMP DEFAULT CURRENT_TIMESTAMP,
                UNIQUE(endpoint_id, tag)
            )");
    assert(MEMBERSHIP_TABLE_SQL@.subrange(0, 27) =~= "CREATE TABLE IF NOT EXISTS "@);
    assert(ENDPOINT_TAGS_TABLE_SQL@.subrange(0, 27) =~= "CREATE TABLE IF NOT EXISTS "@);
}

} // verus!
