//! The audit of orphaned endpoint identifiers: folders on disk that no
//! endpoint or bookmark refers to, and endpoints that no bookmark refers
//! to; and the purge of the orphaned endpoints from the database.
use vstd::prelude::*;
use crate::text::{
    strings_view, dedup, dedup_strings, contains_text, sort_strings, text_order, decimal, push_decimal, append_str,
};
use crate::store::{EdmsCore, EdmsError, EdmsResult, SqlValue, Reply, Exchange, stmt, text, args_view, is_unknown, last_reply, extends, lemma_extends_trans, changed_count};

verus! {

/// The audit as written to disk.
#[derive(Debug, Clone)]
pub struct AuditReport {
    pub timestamp: String,
    pub total_disk_eids: usize,
    pub total_db_endpoints: usize,
    pub total_db_bookmarks: usize,
    pub orphaned_disk_eids: Vec<String>,
    pub orphaned_db_endpoints: Vec<String>,
    pub report_path: String,
}

/// What a purge removed.
#[derive(Debug, Clone)]
pub struct PurgeResult {
    pub disk_eids_purged: usize,
    pub db_endpoints_purged: usize,
    pub db_tags_purged: usize,
    pub success: bool,
    pub message: String,
}

/// An audit: the database, the folder of endpoint data, and where the
/// report goes.
#[derive(Debug, Clone)]
pub struct AuditRequest {
    pub db_path: String,
    pub eqp_dir: String,
    pub output_path: String,
}

/// A purge: the database, the folder of endpoint data, and an earlier
/// report to follow (a fresh audit otherwise).
#[derive(Debug, Clone)]
pub struct PurgeRequest {
    pub db_path: String,
    pub eqp_dir: String,
    pub audit_report_path: Option<String>,
}

/// The counts and orphan lists of an audit.
#[derive(Debug, Clone)]
pub struct OrphanFindings {
    pub total_disk_eids: usize,
    pub total_db_endpoints: usize,
    pub total_db_bookmarks: usize,
    pub orphaned_disk_eids: Vec<String>,
    pub orphaned_db_endpoints: Vec<String>,
}

/// Neither `endpoints` nor `bookmarks` holds the identifier.
pub open spec fn unreferenced(endpoints: Seq<Seq<char>>, bookmarks: Seq<Seq<char>>) -> spec_fn(Seq<char>) -> bool {
    |e: Seq<char>| !endpoints.contains(e) && !bookmarks.contains(e)
}

/// `bookmarks` does not hold the identifier.
pub open spec fn unbookmarked(bookmarks: Seq<Seq<char>>) -> spec_fn(Seq<char>) -> bool {
    |e: Seq<char>| !bookmarks.contains(e)
}

/// What a filter keeps comes from the filtered sequence.
proof fn lemma_filter_within(s: Seq<Seq<char>>, p: spec_fn(Seq<char>) -> bool)
    ensures
        forall|e: Seq<char>| #[trigger] s.filter(p).contains(e) ==> s.contains(e),
    decreases s.len(),
{
    reveal(Seq::filter);
    if s.len() > 0 {
        lemma_filter_within(s.drop_last(), p);
        assert forall|e: Seq<char>| #[trigger] s.filter(p).contains(e) implies s.contains(e) by {
            let f = s.filter(p);
            let k = choose|k: int| 0 <= k < f.len() && f[k] == e;
            if p(s.last()) && k == f.len() - 1 {
                assert(s[s.len() - 1] == e);
            } else {
                assert(s.drop_last().filter(p)[k] == e);
                assert(s.drop_last().filter(p).contains(e));
                let m = choose|m: int| 0 <= m < s.drop_last().len() && s.drop_last()[m] == e;
                assert(s[m] == e);
            }
        }
    }
}

/// Filtering keeps a sequence free of duplicates.
proof fn lemma_filter_keeps_distinct(s: Seq<Seq<char>>, p: spec_fn(Seq<char>) -> bool)
    requires
        s.no_duplicates(),
    ensures
        s.filter(p).no_duplicates(),
    decreases s.len(),
{
    reveal(Seq::filter);
    if s.len() > 0 {
        let d = s.drop_last();
        assert(d.no_duplicates()) by {
            assert forall|a: int, b: int| 0 <= a < d.len() && 0 <= b < d.len() && a != b implies d[a] != d[b] by {
                assert(d[a] == s[a] && d[b] == s[b]);
            }
        }
        lemma_filter_keeps_distinct(d, p);
        lemma_filter_within(d, p);
        if p(s.last()) {
            let f = d.filter(p);
            assert(!d.contains(s.last())) by {
                if d.contains(s.last()) {
                    let m = choose|m: int| 0 <= m < d.len() && d[m] == s.last();
                    assert(s[m] == s[s.len() - 1]);
                }
            }
            assert(!f.contains(s.last()));
            let g = f.push(s.last());
            assert forall|a: int, b: int| 0 <= a < g.len() && 0 <= b < g.len() && a != b implies g[a] != g[b] by {
                if a < f.len() && b < f.len() {
                } else if a < f.len() {
                    assert(f.contains(g[a]));
                } else {
                    assert(f.contains(g[b]));
                }
            }
        }
    }
}

fn keep_unreferenced(ids: &[String], endpoints: &Vec<String>, bookmarks: &Vec<String>) -> (r: Vec<String>)
    ensures
        strings_view(r@) == strings_view(ids@).filter(unreferenced(strings_view(endpoints@), strings_view(bookmarks@))),
{
    let ghost all = strings_view(ids@);
    let ghost keep = unreferenced(strings_view(endpoints@), strings_view(bookmarks@));
    let mut r: Vec<String> = Vec::new();
    let mut i: usize = 0;
    proof { reveal(Seq::filter); }
    assert(strings_view(r@) =~= all.take(0).filter(keep));
    while i < ids.len()
        invariant
            i <= ids@.len(),
            all == strings_view(ids@),
            keep == unreferenced(strings_view(endpoints@), strings_view(bookmarks@)),
            strings_view(r@) == all.take(i as int).filter(keep),
        decreases ids@.len() - i,
    {
        proof { reveal(Seq::filter); }
        assert(all.take(i + 1).drop_last() =~= all.take(i as int));
        assert(all.take(i + 1).last() == ids@[i as int]@);
        let kept = !contains_text(endpoints, ids[i].as_str()) && !contains_text(bookmarks, ids[i].as_str());
        assert(kept == keep(ids@[i as int]@));
        if kept {
            r.push(ids[i].clone());
            assert(strings_view(r@) =~= strings_view(r@.drop_last()).push(r@.last()@));
            assert(all.take(i + 1).filter(keep) == all.take(i as int).filter(keep).push(ids@[i as int]@));
        } else {
            assert(all.take(i + 1).filter(keep) == all.take(i as int).filter(keep));
        }
        i += 1;
    }
    assert(all.take(ids@.len() as int) =~= all);
    r
}

fn keep_unbookmarked(ids: &Vec<String>, bookmarks: &Vec<String>) -> (r: Vec<String>)
    ensures
        strings_view(r@) == strings_view(ids@).filter(unbookmarked(strings_view(bookmarks@))),
{
    let ghost all = strings_view(ids@);
    let ghost keep = unbookmarked(strings_view(bookmarks@));
    let mut r: Vec<String> = Vec::new();
    let mut i: usize = 0;
    proof { reveal(Seq::filter); }
    assert(strings_view(r@) =~= all.take(0).filter(keep));
    while i < ids.len()
        invariant
            i <= ids@.len(),
            all == strings_view(ids@),
            keep == unbookmarked(strings_view(bookmarks@)),
            strings_view(r@) == all.take(i as int).filter(keep),
        decreases ids@.len() - i,
    {
        proof { reveal(Seq::filter); }
        assert(all.take(i + 1).drop_last() =~= all.take(i as int));
        assert(all.take(i + 1).last() == ids@[i as int]@);
        let kept = !contains_text(bookmarks, ids[i].as_str());
        assert(kept == keep(ids@[i as int]@));
        if kept {
            r.push(ids[i].clone());
            assert(strings_view(r@) =~= strings_view(r@.drop_last()).push(r@.last()@));
            assert(all.take(i + 1).filter(keep) == all.take(i as int).filter(keep).push(ids@[i as int]@));
        } else {
            assert(all.take(i + 1).filter(keep) == all.take(i as int).filter(keep));
        }
        i += 1;
    }
    assert(all.take(ids@.len() as int) =~= all);
    r
}

/// The audit of the identifiers found: the database's endpoints and
/// bookmarked identifiers are taken as sets; a folder on disk is orphaned
/// when neither set holds its name, an endpoint when no bookmark refers to
/// it. Both orphan lists are sorted.
pub fn find_orphans(db_endpoints: &[String], db_bookmarks: &[String], disk_eids: &[String]) -> (f: OrphanFindings)
    ensures
        f.total_disk_eids == disk_eids@.len(),
        f.total_db_endpoints == dedup(strings_view(db_endpoints@)).len(),
        f.total_db_bookmarks == dedup(strings_view(db_bookmarks@)).len(),
        strings_view(f.orphaned_disk_eids@) == strings_view(disk_eids@).filter(
            unreferenced(strings_view(db_endpoints@), strings_view(db_bookmarks@)),
        ).sort_by(text_order()),
        strings_view(f.orphaned_db_endpoints@) == dedup(strings_view(db_endpoints@)).filter(
            unbookmarked(strings_view(db_bookmarks@)),
        ).sort_by(text_order()),
        forall|e: Seq<char>| #[trigger] strings_view(f.orphaned_disk_eids@).contains(e) ==> strings_view(disk_eids@).contains(e)
            && !strings_view(db_endpoints@).contains(e) && !strings_view(db_bookmarks@).contains(e),
        forall|e: Seq<char>| #[trigger] strings_view(f.orphaned_db_endpoints@).contains(e) ==> strings_view(db_endpoints@).contains(e)
            && !strings_view(db_bookmarks@).contains(e),
        strings_view(f.orphaned_db_endpoints@).no_duplicates(),
{
    let endpoints = dedup_strings(db_endpoints);
    let bookmarks = dedup_strings(db_bookmarks);
    proof {
        crate::text::lemma_dedup(strings_view(db_endpoints@));
        crate::text::lemma_dedup(strings_view(db_bookmarks@));
        assert(unreferenced(strings_view(endpoints@), strings_view(bookmarks@))
            =~= unreferenced(strings_view(db_endpoints@), strings_view(db_bookmarks@)));
        assert(unbookmarked(strings_view(bookmarks@)) =~= unbookmarked(strings_view(db_bookmarks@)));
    }
    let disk_orphans = keep_unreferenced(disk_eids, &endpoints, &bookmarks);
    let db_orphans = keep_unbookmarked(&endpoints, &bookmarks);
    let f = OrphanFindings {
        total_disk_eids: disk_eids.len(),
        total_db_endpoints: endpoints.len(),
        total_db_bookmarks: bookmarks.len(),
        orphaned_disk_eids: sort_strings(disk_orphans),
        orphaned_db_endpoints: sort_strings(db_orphans),
    };
    proof {
        let leq = text_order();
        crate::text::lemma_text_order_total();
        let d = strings_view(disk_eids@);
        let pd = unreferenced(strings_view(db_endpoints@), strings_view(db_bookmarks@));
        let fd = d.filter(pd);
        fd.lemma_sort_by_ensures(leq);
        assert forall|e: Seq<char>| #[trigger] strings_view(f.orphaned_disk_eids@).contains(e) implies d.contains(e)
            && !strings_view(db_endpoints@).contains(e) && !strings_view(db_bookmarks@).contains(e) by {
            assert(fd.contains(e));
            let k = choose|k: int| 0 <= k < fd.len() && fd[k] == e;
            d.lemma_filter_pred(pd, k);
            lemma_filter_within(d, pd);
        }
        let u = dedup(strings_view(db_endpoints@));
        let pb = unbookmarked(strings_view(db_bookmarks@));
        let fu = u.filter(pb);
        fu.lemma_sort_by_ensures(leq);
        crate::text::lemma_dedup(strings_view(db_endpoints@));
        assert forall|e: Seq<char>| #[trigger] strings_view(f.orphaned_db_endpoints@).contains(e) implies
            strings_view(db_endpoints@).contains(e) && !strings_view(db_bookmarks@).contains(e) by {
            assert(fu.contains(e));
            let k = choose|k: int| 0 <= k < fu.len() && fu[k] == e;
            u.lemma_filter_pred(pb, k);
            lemma_filter_within(u, pb);
            assert(u.contains(e));
        }
        lemma_filter_keeps_distinct(u, pb);
        fu.lemma_multiset_has_no_duplicates();
        let sorted = strings_view(f.orphaned_db_endpoints@);
        assert(sorted.to_multiset() =~= fu.to_multiset());
        sorted.lemma_multiset_has_no_duplicates_conv();
    }
    f
}

pub const ENDPOINT_IDS_SQL: &'static str = "SELECT endpoint_id FROM endpoints";
pub const BOOKMARKED_IDS_SQL: &'static str = "SELECT DISTINCT endpoint_id FROM bookmarks";
pub const DELETE_TAGS_SQL: &'static str = "DELETE FROM tags WHERE endpoint_id = ?1";
pub const DELETE_ENDPOINT_SQL: &'static str = "DELETE FROM endpoints WHERE endpoint_id = ?1";

/// Reads the identifiers of all endpoints and of all bookmarked endpoints.
pub fn read_audit_ids(core: &mut EdmsCore) -> (r: EdmsResult<(Vec<String>, Vec<String>)>)
    ensures
        final(core).path() == old(core).path(),
        final(core).is_connected() == old(core).is_connected(),
        extends(final(core).journal(), old(core).journal()),
        !old(core).is_connected() ==> old(core).same(*final(core)) && is_unknown(r),
        old(core).is_connected() ==> {
            let j = final(core).journal();
            let s = old(core).journal().len() as int;
            &&& !is_unknown(r)
            &&& j.len() > s
            &&& j[s].stmt == stmt(ENDPOINT_IDS_SQL@, seq![])
            &&& r is Err ==> last_reply(*final(core)) is Failed
            &&& r matches Ok((e, b)) ==> {
                &&& j.len() == s + 2
                &&& j[s].reply == Reply::Texts(strings_view(e@))
                &&& j[s + 1].stmt == stmt(BOOKMARKED_IDS_SQL@, seq![])
                &&& j[s + 1].reply == Reply::Texts(strings_view(b@))
            }
        },
{
    let ghost j0 = old(core).journal();
    proof { assert(j0.take(j0.len() as int) =~= j0); }
    let args: Vec<SqlValue> = Vec::new();
    assert(args_view(args@) =~= seq![]);
    let res = core.query_texts(ENDPOINT_IDS_SQL, args);
    let ghost j1 = core.journal();
    proof {
        if old(core).is_connected() {
            assert(j1.take(j0.len() as int) =~= j0);
        }
    }
    let endpoints = match res {
        Ok(v) => v,
        Err(e) => {
            return Err(e);
        },
    };
    let args: Vec<SqlValue> = Vec::new();
    assert(args_view(args@) =~= seq![]);
    let res = core.query_texts(BOOKMARKED_IDS_SQL, args);
    proof {
        let j = core.journal();
        assert(j.take(j1.len() as int) =~= j1);
        lemma_extends_trans(j0, j1, j);
        assert(j[j0.len() as int] == j1[j0.len() as int]);
    }
    match res {
        Ok(bookmarks) => Ok((endpoints, bookmarks)),
        Err(e) => Err(e),
    }
}

/// The tags and endpoint deletions for `ids`, in order, at `j[from..]`:
/// for each identifier its tags, then the endpoint.
pub open spec fn purge_logged(j: Seq<Exchange>, from: int, ids: Seq<Seq<char>>, n: int) -> bool {
    &&& 0 <= from
    &&& 0 <= n <= ids.len()
    &&& from + 2 * n <= j.len()
    &&& forall|k: int| 0 <= k < n ==> {
        &&& #[trigger] j[from + 2 * k].stmt == stmt(DELETE_TAGS_SQL@, seq![text(ids[k])])
        &&& j[from + 2 * k].reply is Changed
        &&& j[from + 2 * k + 1].stmt == stmt(DELETE_ENDPOINT_SQL@, seq![text(ids[k])])
        &&& j[from + 2 * k + 1].reply is Changed
    }
}

/// Rows changed by the `n` tag deletions (`offset` 0) or endpoint
/// deletions (`offset` 1) logged from `from`.
pub open spec fn purged_sum(j: Seq<Exchange>, from: int, n: int, offset: int) -> int
    decreases n,
{
    if n <= 0 {
        0
    } else {
        purged_sum(j, from, n - 1, offset) + changed_count(j[from + 2 * (n - 1) + offset].reply)
    }
}

proof fn lemma_purged_sum_prefix(j: Seq<Exchange>, j2: Seq<Exchange>, from: int, n: int, offset: int)
    requires
        0 <= from,
        0 <= offset <= 1,
        0 <= n,
        from + 2 * n <= j.len(),
        extends(j2, j),
    ensures
        purged_sum(j2, from, n, offset) == purged_sum(j, from, n, offset),
    decreases n,
{
    if n > 0 {
        lemma_purged_sum_prefix(j, j2, from, n - 1, offset);
        let k = from + 2 * (n - 1) + offset;
        assert(j2[k] == j2.take(j.len() as int)[k]);
    }
}

/// The journal `j`, from `s`, is that of a purge of `ids` that began its
/// transaction, completed the deletions of `ids[..n]`, then stopped and
/// rolled back: on a refused deletion of `ids[n]` (SQLite's error), on a
/// total beyond `usize::MAX` after `ids[n]` (`unknown`: `UnknownError`), or,
/// with every deletion done, on a refused `COMMIT`.
pub open spec fn purge_stopped(j: Seq<Exchange>, s: int, ids: Seq<Seq<char>>, n: int, unknown: bool) -> bool {
    let k = s + 1 + 2 * n;
    &&& 0 <= s
    &&& 0 <= n <= ids.len()
    &&& s < j.len()
    &&& j[s].reply is Done
    &&& purge_logged(j, s + 1, ids, n)
    &&& j.last().stmt == stmt("ROLLBACK"@, seq![])
    &&& {
        ||| n < ids.len() && j.len() == k + 2 && j[k].stmt == stmt(DELETE_TAGS_SQL@, seq![text(ids[n])])
            && j[k].reply is Failed && !unknown
        ||| n < ids.len() && j.len() == k + 3 && j[k].stmt == stmt(DELETE_TAGS_SQL@, seq![text(ids[n])])
            && j[k].reply is Changed && j[k + 1].stmt == stmt(DELETE_ENDPOINT_SQL@, seq![text(ids[n])])
            && j[k + 1].reply is Failed && !unknown
        ||| n < ids.len() && j.len() == k + 3 && purge_logged(j, s + 1, ids, n + 1) && unknown
            && (purged_sum(j, s + 1, n + 1, 1) > usize::MAX || purged_sum(j, s + 1, n + 1, 0) > usize::MAX)
        ||| n == ids.len() && j.len() == k + 2 && j[k].stmt == stmt("COMMIT"@, seq![]) && j[k].reply is Failed
            && !unknown
    }
}

proof fn lemma_purge_logged_prefix(j: Seq<Exchange>, j2: Seq<Exchange>, from: int, ids: Seq<Seq<char>>, n: int)
    requires
        purge_logged(j, from, ids, n),
        extends(j2, j),
    ensures
        purge_logged(j2, from, ids, n),
{
    assert forall|k: int| 0 <= k < n implies {
        &&& #[trigger] j2[from + 2 * k].stmt == stmt(DELETE_TAGS_SQL@, seq![text(ids[k])])
        &&& j2[from + 2 * k].reply is Changed
        &&& j2[from + 2 * k + 1].stmt == stmt(DELETE_ENDPOINT_SQL@, seq![text(ids[k])])
        &&& j2[from + 2 * k + 1].reply is Changed
    } by {
        assert(j2[from + 2 * k] == j2.take(j.len() as int)[from + 2 * k]);
        assert(j2[from + 2 * k + 1] == j2.take(j.len() as int)[from + 2 * k + 1]);
        assert(j[from + 2 * k].stmt == stmt(DELETE_TAGS_SQL@, seq![text(ids[k])]));
    }
}

/// Deletes, in one transaction, the tags and then the row of each of
/// `ids` in order: `BEGIN DEFERRED`, the deletions, `COMMIT`; after a
/// failure (or a total beyond `usize::MAX`, reported as `UnknownError`),
/// `ROLLBACK`. Returns the numbers of endpoints and of tags deleted.
pub fn purge_orphaned_endpoints(core: &mut EdmsCore, ids: &[String]) -> (r: EdmsResult<(usize, usize)>)
    ensures
        final(core).path() == old(core).path(),
        final(core).is_connected() == old(core).is_connected(),
        extends(final(core).journal(), old(core).journal()),
        !old(core).is_connected() ==> old(core).same(*final(core)) && is_unknown(r),
        old(core).is_connected() ==> {
            let j = final(core).journal();
            let s = old(core).journal().len() as int;
            let idv = strings_view(ids@);
            &&& j.len() > s
            &&& j[s].stmt == stmt("BEGIN DEFERRED"@, seq![])
            &&& r matches Ok((eps, tags)) ==> {
                &&& j[s].reply is Done
                &&& j.len() == s + 2 + 2 * idv.len()
                &&& purge_logged(j, s + 1, idv, idv.len() as int)
                &&& eps == purged_sum(j, s + 1, idv.len() as int, 1)
                &&& tags == purged_sum(j, s + 1, idv.len() as int, 0)
                &&& j.last().stmt == stmt("COMMIT"@, seq![]) && j.last().reply is Done
            }
            &&& r is Err ==> {
                ||| j.len() == s + 1 && j[s].reply is Failed && !is_unknown(r)
                ||| exists|n: int| #[trigger] purge_stopped(j, s, idv, n, is_unknown(r))
            }
        },
{
    let ghost s = old(core).journal().len() as int;
    let ghost j0 = old(core).journal();
    let ghost idv = strings_view(ids@);
    proof { assert(j0.take(s) =~= j0); }
    if !core.is_open() {
        return Err(EdmsError::UnknownError);
    }
    match core.batch("BEGIN DEFERRED") {
        Ok(()) => {},
        Err(e) => {
            proof { assert(core.journal().take(s) =~= j0); }
            return Err(e);
        },
    }
    let ghost j1 = core.journal();
    proof { assert(j1.take(s) =~= j0); }
    let mut eps: usize = 0;
    let mut tags: usize = 0;
    let mut i: usize = 0;
    proof { assert(j1.take(j1.len() as int) =~= j1); }
    while i < ids.len()
        invariant
            i <= ids@.len(),
            idv == strings_view(ids@),
            s == j0.len(),
            j1.len() == s + 1,
            j1[s].stmt == stmt("BEGIN DEFERRED"@, seq![]),
            j1[s].reply is Done,
            core.path() == old(core).path(),
            core.is_connected(),
            old(core).is_connected(),
            extends(core.journal(), j1),
            extends(j1, j0),
            j0 == old(core).journal(),
            core.journal().len() == s + 1 + 2 * i,
            purge_logged(core.journal(), s + 1, idv, i as int),
            eps == purged_sum(core.journal(), s + 1, i as int, 1),
            tags == purged_sum(core.journal(), s + 1, i as int, 0),
        decreases ids@.len() - i,
    {
        let ghost jb = core.journal();
        let args = vec![SqlValue::Text(ids[i].clone())];
        assert(args_view(args@) =~= seq![text(idv[i as int])]);
        let t = core.proc(DELETE_TAGS_SQL, args);
        let ghost jt = core.journal();
        proof {
            assert(jt.take(jb.len() as int) =~= jb);
            lemma_extends_trans(j1, jb, jt);
        }
        let t = match t {
            Ok(n) => n,
            Err(err) => {
                let _ = core.batch("ROLLBACK");
                proof {
                    let j = core.journal();
                    assert(j.take(jt.len() as int) =~= jt);
                    lemma_extends_trans(j1, jt, j);
                    lemma_extends_trans(j0, j1, j);
                    assert(j[s] == j1[s]);
                    lemma_extends_trans(jb, jt, j);
                    lemma_purge_logged_prefix(jb, j, s + 1, idv, i as int);
                    assert(j[s + 1 + 2 * i] == jt.last());
                    assert(purge_stopped(j, s, idv, i as int, is_unknown(Err::<(usize, usize), EdmsError>(err))));
                }
                return Err(err);
            },
        };
        let args = vec![SqlValue::Text(ids[i].clone())];
        assert(args_view(args@) =~= seq![text(idv[i as int])]);
        let e = core.proc(DELETE_ENDPOINT_SQL, args);
        let ghost je = core.journal();
        proof {
            assert(je.take(jt.len() as int) =~= jt);
            lemma_extends_trans(j1, jt, je);
        }
        let e = match e {
            Ok(n) => n,
            Err(err) => {
                let _ = core.batch("ROLLBACK");
                proof {
                    let j = core.journal();
                    assert(j.take(je.len() as int) =~= je);
                    lemma_extends_trans(j1, je, j);
                    lemma_extends_trans(j0, j1, j);
                    assert(j[s] == j1[s]);
                    lemma_extends_trans(jt, je, j);
                    lemma_extends_trans(jb, jt, j);
                    lemma_purge_logged_prefix(jb, j, s + 1, idv, i as int);
                    assert(j[s + 1 + 2 * i] == jt[s + 1 + 2 * i]);
                    assert(jt[s + 1 + 2 * i] == jt.last());
                    assert(j[s + 2 + 2 * i] == je.last());
                    assert(purge_stopped(j, s, idv, i as int, is_unknown(Err::<(usize, usize), EdmsError>(err))));
                }
                return Err(err);
            },
        };
        proof {
            let j = core.journal();
            lemma_extends_trans(jb, jt, j);
            lemma_purge_logged_prefix(jb, j, s + 1, idv, i as int);
            lemma_purged_sum_prefix(jb, j, s + 1, i as int, 0);
            lemma_purged_sum_prefix(jb, j, s + 1, i as int, 1);
            assert(j[s + 1 + 2 * i] == jt[s + 1 + 2 * i]);
            assert(jt[s + 1 + 2 * i] == jt.last());
            assert(j[s + 1 + 2 * i + 1] == j.last());
            assert forall|k: int| 0 <= k < i + 1 implies {
                &&& #[trigger] j[s + 1 + 2 * k].stmt == stmt(DELETE_TAGS_SQL@, seq![text(idv[k])])
                &&& j[s + 1 + 2 * k].reply is Changed
                &&& j[s + 1 + 2 * k + 1].stmt == stmt(DELETE_ENDPOINT_SQL@, seq![text(idv[k])])
                &&& j[s + 1 + 2 * k + 1].reply is Changed
            } by {
                if k < i {
                    assert(j[s + 1 + 2 * k].stmt == stmt(DELETE_TAGS_SQL@, seq![text(idv[k])]));
                }
            }
            assert(purge_logged(j, s + 1, idv, i + 1));
        }
        let sums = (eps.checked_add(e), tags.checked_add(t));
        match sums {
            (Some(a), Some(b)) => {
                eps = a;
                tags = b;
            },
            _ => {
                let ghost jr = core.journal();
                let _ = core.batch("ROLLBACK");
                proof {
                    let j = core.journal();
                    assert(j.take(je.len() as int) =~= je);
                    lemma_extends_trans(j1, je, j);
                    lemma_extends_trans(j0, j1, j);
                    assert(j[s] == j1[s]);
                    assert(j.take(jr.len() as int) =~= jr);
                    lemma_purge_logged_prefix(jr, j, s + 1, idv, i + 1);
                    lemma_purged_sum_prefix(jr, j, s + 1, i + 1, 0);
                    lemma_purged_sum_prefix(jr, j, s + 1, i + 1, 1);
                    assert(purge_stopped(j, s, idv, i as int, true));
                    assert(exists|n: int| #[trigger] purge_stopped(j, s, idv, n, true));
                }
                let r: EdmsResult<(usize, usize)> = Err(EdmsError::UnknownError);
                assert(is_unknown(r));
                return r;
            },
        }
        i += 1;
    }
    let ghost ju = core.journal();
    let c = core.batch("COMMIT");
    proof {
        let j = core.journal();
        assert(j.take(ju.len() as int) =~= ju);
        lemma_extends_trans(j1, ju, j);
        lemma_extends_trans(j0, j1, j);
        assert(j[s] == j1[s]);
        lemma_purge_logged_prefix(ju, j, s + 1, idv, idv.len() as int);
        lemma_purged_sum_prefix(ju, j, s + 1, idv.len() as int, 0);
        lemma_purged_sum_prefix(ju, j, s + 1, idv.len() as int, 1);
    }
    match c {
        Ok(()) => Ok((eps, tags)),
        Err(err) => {
            let _ = core.batch("ROLLBACK");
            proof {
                let j = core.journal();
                assert(j.drop_last().take(ju.len() as int) =~= ju);
                assert(j.take(j.len() - 1) =~= j.drop_last());
                lemma_extends_trans(j0, j1, ju);
                lemma_extends_trans(j0, ju, j.drop_last());
                lemma_extends_trans(j0, j.drop_last(), j);
                assert(j[s] == j1[s]);
                lemma_extends_trans(ju, j.drop_last(), j);
                lemma_purge_logged_prefix(ju, j, s + 1, idv, idv.len() as int);
                assert(j[s + 1 + 2 * idv.len()] == j.drop_last().last());
                assert(purge_stopped(j, s, idv, idv.len() as int, is_unknown(Err::<(usize, usize), EdmsError>(err))));
            }
            Err(err)
        },
    }
}

/// The summary of a purge.
pub fn purge_result(disk_eids_purged: usize, db_endpoints_purged: usize, db_tags_purged: usize) -> (r: PurgeResult)
    ensures
        r.success,
        r.disk_eids_purged == disk_eids_purged,
        r.db_endpoints_purged == db_endpoints_purged,
        r.db_tags_purged == db_tags_purged,
        r.message@ == "Purge completed: "@ + decimal(disk_eids_purged as nat) + " disk directories removed, "@
            + decimal(db_endpoints_purged as nat) + " database endpoints deleted, "@ + decimal(db_tags_purged as nat)
            + " tags cleaned"@,
{
    let mut m = String::new();
    append_str(&mut m, "Purge completed: ");
    push_decimal(&mut m, disk_eids_purged as u128);
    append_str(&mut m, " disk directories removed, ");
    push_decimal(&mut m, db_endpoints_purged as u128);
    append_str(&mut m, " database endpoints deleted, ");
    push_decimal(&mut m, db_tags_purged as u128);
    append_str(&mut m, " tags cleaned");
    PurgeResult { disk_eids_purged, db_endpoints_purged, db_tags_purged, success: true, message: m }
}

} // verus!
