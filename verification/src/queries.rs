//! Named SQL queries, grouped by the table family they serve.
use vstd::prelude::*;
use crate::text::str_eq;

verus! {

/// The map from key to SQL that a list of entries describes: a later entry
/// for a key replaces an earlier one.
pub open spec fn entries_map(s: Seq<(String, String)>) -> Map<Seq<char>, Seq<char>>
    decreases s.len(),
{
    if s.len() == 0 {
        Map::empty()
    } else {
        entries_map(s.drop_last()).insert(s.last().0@, s.last().1@)
    }
}

/// Queries of one family, by key.
#[derive(Debug, Clone)]
pub struct QueryGroup {
    entries: Vec<(String, String)>,
}

impl QueryGroup {
    pub closed spec fn view(&self) -> Map<Seq<char>, Seq<char>> {
        entries_map(self.entries@)
    }

    /// A group with no queries.
    pub fn new() -> (g: Self)
        ensures
            g.view() == Map::<Seq<char>, Seq<char>>::empty(),
    {
        QueryGroup { entries: Vec::new() }
    }

    /// Sets the query stored under `key`.
    pub fn insert(&mut self, key: String, sql: String)
        ensures
            final(self).view() == old(self).view().insert(key@, sql@),
    {
        self.entries.push((key, sql));
        assert(self.entries@.drop_last() =~= old(self).entries@);
    }

    /// The query stored under `key`, if any.
    pub fn get(&self, key: &str) -> (r: Option<&str>)
        ensures
            r is Some <==> self.view().contains_key(key@),
            r matches Some(q) ==> q@ == self.view()[key@],
    {
        let ghost s = self.entries@;
        let mut i = self.entries.len();
        assert(s.take(i as int) =~= s);
        while i > 0
            invariant
                i <= s.len(),
                s == self.entries@,
                entries_map(s).contains_key(key@) == entries_map(s.take(i as int)).contains_key(key@),
                entries_map(s).contains_key(key@) ==> entries_map(s)[key@] == entries_map(s.take(i as int))[key@],
            decreases i,
        {
            let e = &self.entries[i - 1];
            assert(s.take(i as int).drop_last() =~= s.take(i - 1));
            if str_eq(e.0.as_str(), key) {
                return Some(e.1.as_str());
            }
            i -= 1;
        }
        None
    }
}

/// All named queries the database layer uses.
#[derive(Debug, Clone)]
pub struct QueryMap {
    pub endpoints: QueryGroup,
    pub requests: QueryGroup,
    pub responses: QueryGroup,
    pub collection_membership: QueryGroup,
    pub catalog: QueryGroup,
    pub view_tag_counts: QueryGroup,
}

impl QueryMap {
    /// A map with no queries.
    pub fn new() -> (m: Self)
        ensures
            m.endpoints.view() == Map::<Seq<char>, Seq<char>>::empty(),
            m.requests.view() == Map::<Seq<char>, Seq<char>>::empty(),
            m.responses.view() == Map::<Seq<char>, Seq<char>>::empty(),
            m.collection_membership.view() == Map::<Seq<char>, Seq<char>>::empty(),
            m.catalog.view() == Map::<Seq<char>, Seq<char>>::empty(),
            m.view_tag_counts.view() == Map::<Seq<char>, Seq<char>>::empty(),
    {
        QueryMap {
            endpoints: QueryGroup::new(),
            requests: QueryGroup::new(),
            responses: QueryGroup::new(),
            collection_membership: QueryGroup::new(),
            catalog: QueryGroup::new(),
            view_tag_counts: QueryGroup::new(),
        }
    }

    /// Endpoint query by key (`E1` ...).
    pub fn get_endpoint_query(&self, key: &str) -> (r: Option<&str>)
        ensures
            r is Some <==> self.endpoints.view().contains_key(key@),
            r matches Some(q) ==> q@ == self.endpoints.view()[key@],
    {
        self.endpoints.get(key)
    }

    /// Request-metadata query by key (`R1` ...).
    pub fn get_request_query(&self, key: &str) -> (r: Option<&str>)
        ensures
            r is Some <==> self.requests.view().contains_key(key@),
            r matches Some(q) ==> q@ == self.requests.view()[key@],
    {
        self.requests.get(key)
    }

    /// Response-metadata query by key (`RES1` ...).
    pub fn get_response_query(&self, key: &str) -> (r: Option<&str>)
        ensures
            r is Some <==> self.responses.view().contains_key(key@),
            r matches Some(q) ==> q@ == self.responses.view()[key@],
    {
        self.responses.get(key)
    }

    /// Collection-membership query by key (`ADD`, `LIST` ...).
    pub fn get_collection_membership_query(&self, key: &str) -> (r: Option<&str>)
        ensures
            r is Some <==> self.collection_membership.view().contains_key(key@),
            r matches Some(q) ==> q@ == self.collection_membership.view()[key@],
    {
        self.collection_membership.get(key)
    }

    /// Catalog query by key (`COLLECTIONS_CREATE` ...).
    pub fn get_catalog_query(&self, key: &str) -> (r: Option<&str>)
        ensures
            r is Some <==> self.catalog.view().contains_key(key@),
            r matches Some(q) ==> q@ == self.catalog.view()[key@],
    {
        self.catalog.get(key)
    }

    /// View tag-count query by key (`WEBVIEW_UPSERT` ...).
    pub fn get_view_tag_count_query(&self, key: &str) -> (r: Option<&str>)
        ensures
            r is Some <==> self.view_tag_counts.view().contains_key(key@),
            r matches Some(q) ==> q@ == self.view_tag_counts.view()[key@],
    {
        self.view_tag_counts.get(key)
    }
}

/// A query read back after it was stored is the one stored, and storing
/// it leaves the other keys' queries as they were.
pub proof fn lemma_stored_query_read_back(m: Map<Seq<char>, Seq<char>>, key: Seq<char>, sql: Seq<char>, other: Seq<char>)
    requires
        other != key,
    ensures
        m.insert(key, sql).contains_key(key),
        m.insert(key, sql)[key] == sql,
        m.insert(key, sql).contains_key(other) == m.contains_key(other),
        m.contains_key(other) ==> m.insert(key, sql)[other] == m[other],
{
}

} // verus!
