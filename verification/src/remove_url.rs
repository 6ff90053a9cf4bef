//! Stripping scheme and authority from endpoint addresses, leaving the
//! relative path together with its query string and fragment: for one
//! address, and for the endpoints stored in a database (selected ones, the
//! ones with selected tags, or all of them).
use vstd::prelude::*;
use crate::text::{
    is_unicode_whitespace, is_whitespace_char, chars_of, string_from_range, vec_subrange, strings_view,
    dedup, dedup_strings, concat, push_char,
};
use crate::store::{
    EdmsCore, EdmsError, EdmsResult, SqlValue, SqlArg, Reply, Exchange, Stmt, stmt, text, args_view,
    is_unknown, last_reply, extends, lemma_extends_trans, pairs_view,
};

verus! {

/// `s` with its leading white space removed.
pub open spec fn trim_start_ws(s: Seq<char>) -> Seq<char>
    decreases s.len(),
{
    if s.len() > 0 && is_unicode_whitespace(s[0]) {
        trim_start_ws(s.drop_first())
    } else {
        s
    }
}

/// `s` with its trailing white space removed.
pub open spec fn trim_end_ws(s: Seq<char>) -> Seq<char>
    decreases s.len(),
{
    if s.len() > 0 && is_unicode_whitespace(s.last()) {
        trim_end_ws(s.drop_last())
    } else {
        s
    }
}

/// `str::trim`: white space removed from both ends.
pub open spec fn trim_ws(s: Seq<char>) -> Seq<char> {
    trim_end_ws(trim_start_ws(s))
}

/// Whether `s` starts with two slashes.
pub open spec fn starts_with_double_slash(s: Seq<char>) -> bool {
    s.len() >= 2 && s[0] == '/' && s[1] == '/'
}

/// The first position at or after `i` where `"://"` occurs in `s`.
pub open spec fn find_scheme_sep_from(s: Seq<char>, i: nat) -> Option<nat>
    decreases s.len() - i,
{
    if i + 3 > s.len() {
        None
    } else if s[i as int] == ':' && s[i as int + 1] == '/' && s[i as int + 2] == '/' {
        Some(i)
    } else {
        find_scheme_sep_from(s, i + 1)
    }
}

/// Characters at which the path part of an address begins.
pub open spec fn is_path_delim(c: char) -> bool {
    c == '/' || c == '?' || c == '#'
}

/// The first position at or after `i` holding a path delimiter.
pub open spec fn find_path_delim_from(s: Seq<char>, i: nat) -> Option<nat>
    decreases s.len() - i,
{
    if i >= s.len() {
        None
    } else if is_path_delim(s[i as int]) {
        Some(i)
    } else {
        find_path_delim_from(s, i + 1)
    }
}

/// Where the authority (host and port) begins in a trimmed address: after
/// the first `"://"`, else after a leading `"//"`, else at the start.
pub open spec fn authority_start(t: Seq<char>) -> nat {
    match find_scheme_sep_from(t, 0) {
        Some(p) => p + 3,
        None => if starts_with_double_slash(t) { 2 } else { 0 },
    }
}

/// What `strip_url_prefix` returns for `raw`.
pub open spec fn strip_url_prefix_spec(raw: Seq<char>) -> Seq<char> {
    let t = trim_ws(raw);
    if t.len() == 0 {
        seq![]
    } else if t[0] == '/' && !starts_with_double_slash(t) {
        t
    } else {
        match find_path_delim_from(t, authority_start(t)) {
            Some(k) => if t[k as int] == '/' {
                t.skip(k as int)
            } else {
                seq!['/'] + t.skip(k as int)
            },
            None => seq!['/'],
        }
    }
}

proof fn lemma_trim_start_is_suffix(s: Seq<char>)
    ensures
        trim_start_ws(s).len() <= s.len(),
        trim_start_ws(s) == s.skip(s.len() - trim_start_ws(s).len()),
        trim_start_ws(s).len() > 0 ==> !is_unicode_whitespace(trim_start_ws(s)[0]),
        forall|i: int| 0 <= i < s.len() - trim_start_ws(s).len() ==> is_unicode_whitespace(s[i]),
    decreases s.len(),
{
    if s.len() > 0 && is_unicode_whitespace(s[0]) {
        lemma_trim_start_is_suffix(s.drop_first());
        assert(s.drop_first().skip(s.drop_first().len() - trim_start_ws(s).len()) =~= s.skip(
            s.len() - trim_start_ws(s).len(),
        ));
        assert forall|i: int| 0 <= i < s.len() - trim_start_ws(s).len() implies is_unicode_whitespace(s[i]) by {
            if i > 0 {
                assert(s[i] == s.drop_first()[i - 1]);
            }
        }
    } else {
        assert(s.skip(0) =~= s);
    }
}

proof fn lemma_trim_end_is_prefix(s: Seq<char>)
    ensures
        trim_end_ws(s).len() <= s.len(),
        trim_end_ws(s) == s.take(trim_end_ws(s).len() as int),
        trim_end_ws(s).len() > 0 ==> !is_unicode_whitespace(trim_end_ws(s).last()),
        forall|i: int| trim_end_ws(s).len() <= i < s.len() ==> is_unicode_whitespace(s[i]),
    decreases s.len(),
{
    if s.len() > 0 && is_unicode_whitespace(s.last()) {
        lemma_trim_end_is_prefix(s.drop_last());
        assert(s.drop_last().take(trim_end_ws(s).len() as int) =~= s.take(
            trim_end_ws(s).len() as int,
        ));
        assert forall|i: int| trim_end_ws(s).len() <= i < s.len() implies is_unicode_whitespace(s[i]) by {
            if i < s.len() - 1 {
                assert(s[i] == s.drop_last()[i]);
            }
        }
    } else {
        assert(s.take(s.len() as int) =~= s);
    }
}

/// The trimmed text is `s[lo..hi]`, with white space before `lo` and after
/// `hi`, and non-white characters at both ends of the kept part.
proof fn lemma_trim_bounds(s: Seq<char>)
    ensures
        ({
            let t = trim_ws(s);
            let lo = s.len() - trim_start_ws(s).len();
            &&& 0 <= lo <= lo + t.len() <= s.len()
            &&& t == s.subrange(lo, lo + t.len())
            &&& t.len() > 0 ==> !is_unicode_whitespace(t[0]) && !is_unicode_whitespace(t.last())
        }),
{
    let u = trim_start_ws(s);
    lemma_trim_start_is_suffix(s);
    lemma_trim_end_is_prefix(u);
    let lo = s.len() - u.len();
    let t = trim_ws(s);
    assert(t =~= s.subrange(lo, lo + t.len()));
    if t.len() > 0 {
        assert(t[0] == u[0]);
    }
}

proof fn lemma_find_path_delim_found(s: Seq<char>, i: nat)
    ensures
        find_path_delim_from(s, i) matches Some(k) ==> i <= k < s.len() && is_path_delim(s[k as int]),
    decreases s.len() - i,
{
    if i < s.len() && !is_path_delim(s[i as int]) {
        lemma_find_path_delim_found(s, i + 1);
    }
}

/// Text whose first and last characters are not white space is left alone
/// by `str::trim`.
proof fn lemma_trim_keeps_clean(s: Seq<char>)
    requires
        s.len() > 0,
        !is_unicode_whitespace(s[0]),
        !is_unicode_whitespace(s.last()),
    ensures
        trim_ws(s) == s,
{
}

/// What `strip_url_prefix` returns is empty exactly when the input is blank;
/// otherwise it is a relative path: it starts with `/`, and it neither
/// starts nor ends with white space.
pub proof fn lemma_strip_url_prefix_shape(raw: Seq<char>)
    ensures
        strip_url_prefix_spec(raw).len() == 0 <==> trim_ws(raw).len() == 0,
        strip_url_prefix_spec(raw).len() > 0 ==> {
            let r = strip_url_prefix_spec(raw);
            &&& r[0] == '/'
            &&& !is_unicode_whitespace(r.last())
        },
{
    let t = trim_ws(raw);
    lemma_trim_bounds(raw);
    if t.len() > 0 && !(t[0] == '/' && !starts_with_double_slash(t)) {
        lemma_find_path_delim_found(t, authority_start(t));
        match find_path_delim_from(t, authority_start(t)) {
            Some(k) => {
                if t[k as int] == '/' {
                    assert(t.skip(k as int).last() == t.last());
                } else {
                    assert((seq!['/'] + t.skip(k as int)).last() == t.last());
                }
            },
            None => {},
        }
    }
}

/// Stripping is idempotent: a second application changes nothing. The one
/// exception is a result that itself begins with `//` (as for
/// `"http://host//a"`, which gives `"//a"`): such a result is read again as a
/// protocol-relative address.
pub proof fn lemma_strip_url_prefix_idempotent(raw: Seq<char>)
    requires
        !starts_with_double_slash(strip_url_prefix_spec(raw)),
    ensures
        strip_url_prefix_spec(strip_url_prefix_spec(raw)) == strip_url_prefix_spec(raw),
{
    let r = strip_url_prefix_spec(raw);
    lemma_strip_url_prefix_shape(raw);
    if r.len() > 0 {
        lemma_trim_keeps_clean(r);
    } else {
        assert(trim_ws(r) =~= r);
    }
}

/// An address that, once trimmed, is already a relative path (one slash, not
/// two, at the start) comes back trimmed and otherwise unchanged.
pub proof fn lemma_strip_url_prefix_keeps_relative(raw: Seq<char>)
    requires
        trim_ws(raw).len() > 0,
        trim_ws(raw)[0] == '/',
        !starts_with_double_slash(trim_ws(raw)),
    ensures
        strip_url_prefix_spec(raw) == trim_ws(raw),
{
}

proof fn lemma_scheme_sep_at(s: Seq<char>, i: nat, n: nat)
    requires
        i <= n,
        n + 3 <= s.len(),
        s[n as int] == ':' && s[n as int + 1] == '/' && s[n as int + 2] == '/',
        forall|k: int| i <= k < n ==> !(s[k] == ':' && #[trigger] s[k + 1] == '/' && s[k + 2] == '/'),
    ensures
        find_scheme_sep_from(s, i) == Some(n),
    decreases n - i,
{
    if i < n {
        assert(!(s[i as int] == ':' && s[i as int + 1] == '/' && s[i as int + 2] == '/'));
        lemma_scheme_sep_at(s, i + 1, n);
    }
}

proof fn lemma_path_delim_at(s: Seq<char>, i: nat, n: nat)
    requires
        i <= n < s.len(),
        is_path_delim(s[n as int]),
        forall|k: int| i <= k < n ==> !is_path_delim(#[trigger] s[k]),
    ensures
        find_path_delim_from(s, i) == Some(n),
    decreases n - i,
{
    if i < n {
        lemma_path_delim_at(s, i + 1, n);
    }
}

/// The scheme and the authority are what is stripped: for an address made
/// of a scheme, `://`, a host (with its port) and a path that starts with
/// `/`, where neither scheme nor host holds a path delimiter (`/`, `?`,
/// `#`), the result is exactly the path, whatever the path holds (another
/// address in its query, say). The authority ends at the first delimiter
/// after the first `://`. (The address must not begin or end with white
/// space, which would be trimmed first.)
pub proof fn lemma_strip_url_prefix_drops_authority(scheme: Seq<char>, host: Seq<char>, path: Seq<char>)
    requires
        forall|i: int| 0 <= i < scheme.len() ==> !is_path_delim(#[trigger] scheme[i]),
        forall|i: int| 0 <= i < host.len() ==> !is_path_delim(#[trigger] host[i]),
        path.len() > 0,
        path[0] == '/',
        scheme.len() == 0 || !is_unicode_whitespace(scheme[0]),
        !is_unicode_whitespace(path.last()),
    ensures
        strip_url_prefix_spec(scheme + "://"@ + host + path) == path,
{
    reveal_strlit("://");
    let raw = scheme + "://"@ + host + path;
    let a: int = scheme.len() as int + 3;
    let k: int = a + host.len();
    let m: int = scheme.len() as int;
    assert(raw[m] == ':' && raw[m + 1] == '/' && raw[m + 2] == '/');
    assert forall|q: int| 0 <= q < scheme.len() implies !(raw[q] == ':' && #[trigger] raw[q + 1] == '/' && raw[q + 2] == '/') by {
        if q + 1 < scheme.len() {
            assert(raw[q + 1] == scheme[q + 1]);
        } else {
            assert(raw[q + 1] == ':');
        }
    }
    lemma_scheme_sep_at(raw, 0, scheme.len());
    assert forall|q: int| a <= q < k implies !is_path_delim(#[trigger] raw[q]) by {
        assert(raw[q] == host[q - a]);
    }
    assert(raw[k] == path[0]);
    lemma_path_delim_at(raw, a as nat, k as nat);
    if scheme.len() > 0 {
        assert(raw[0] == scheme[0]);
    } else {
        assert(raw[0] == ':');
    }
    assert(raw.last() == path.last());
    lemma_trim_keeps_clean(raw);
    assert(raw.skip(k) =~= path);
}

/// Positions `[lo, hi)` of `v` that `str::trim` keeps.
fn trim_bounds(v: &Vec<char>) -> (r: (usize, usize))
    ensures
        r.0 <= r.1 <= v@.len(),
        v@.subrange(r.0 as int, r.1 as int) == trim_ws(v@),
{
    let ghost s = v@;
    let mut lo: usize = 0;
    assert(s.skip(0) =~= s);
    while lo < v.len() && is_whitespace_char(v[lo])
        invariant
            lo <= v@.len(),
            v@ == s,
            trim_start_ws(s) == trim_start_ws(s.skip(lo as int)),
        decreases v@.len() - lo,
    {
        assert(s.skip(lo as int).drop_first() =~= s.skip(lo + 1));
        lo += 1;
    }
    let ghost u = s.skip(lo as int);
    assert(trim_start_ws(u) == u);
    let mut hi: usize = v.len();
    while hi > lo && is_whitespace_char(v[hi - 1])
        invariant
            lo <= hi <= v@.len(),
            v@ == s,
            trim_ws(s) == trim_end_ws(s.subrange(lo as int, hi as int)),
        decreases hi,
    {
        assert(s.subrange(lo as int, hi as int).drop_last() =~= s.subrange(lo as int, hi - 1));
        hi -= 1;
    }
    assert(trim_end_ws(s.subrange(lo as int, hi as int)) == s.subrange(lo as int, hi as int));
    (lo, hi)
}

/// The first `"://"` at or after `i` in `t`.
fn find_scheme_sep(t: &Vec<char>, i: usize) -> (r: Option<usize>)
    ensures
        r matches Some(p) ==> find_scheme_sep_from(t@, i as nat) == Some(p as nat) && p + 3 <= t@.len(),
        r is None ==> find_scheme_sep_from(t@, i as nat) is None,
{
    let mut j = i;
    while j < t.len() && t.len() - j >= 3
        invariant
            i <= j,
            find_scheme_sep_from(t@, i as nat) == find_scheme_sep_from(t@, j as nat),
        decreases t@.len() - j,
    {
        if t[j] == ':' && t[j + 1] == '/' && t[j + 2] == '/' {
            return Some(j);
        }
        j += 1;
    }
    None
}

/// The first path delimiter at or after `i` in `t`.
fn find_path_delim(t: &Vec<char>, i: usize) -> (r: Option<usize>)
    ensures
        r matches Some(k) ==> find_path_delim_from(t@, i as nat) == Some(k as nat) && k < t@.len(),
        r is None ==> find_path_delim_from(t@, i as nat) is None,
{
    let mut j = i;
    while j < t.len()
        invariant
            i <= j,
            find_path_delim_from(t@, i as nat) == find_path_delim_from(t@, j as nat),
        decreases t@.len() - j,
    {
        let c = t[j];
        if c == '/' || c == '?' || c == '#' {
            return Some(j);
        }
        j += 1;
    }
    None
}

/// Strips scheme (`http://`, `https://`, `ws://`, `wss://`, ...) and the
/// host:port authority from an endpoint string, keeping the path, query
/// string and fragment. Surrounding white space is trimmed first; an address
/// without a path becomes `"/"`, and an already relative path is kept.
pub fn strip_url_prefix(raw: &str) -> (r: String)
    ensures
        r@ == strip_url_prefix_spec(raw@),
{
    let v = chars_of(raw);
    let (lo, hi) = trim_bounds(&v);
    let t = vec_subrange(&v, lo, hi);
    if t.len() == 0 {
        return String::new();
    }
    if t[0] == '/' && !(t.len() >= 2 && t[1] == '/') {
        return string_from_range(&t, 0, t.len());
    }
    let start: usize = match find_scheme_sep(&t, 0) {
        Some(p) => p + 3,
        None => if t.len() >= 2 && t[0] == '/' && t[1] == '/' {
            2
        } else {
            0
        },
    };
    match find_path_delim(&t, start) {
        Some(k) => {
            let mut s = String::new();
            if t[k] != '/' {
                s = string_from_range(&vec!['/'], 0, 1);
            }
            let rest = string_from_range(&t, k, t.len());
            s.append(rest.as_str());
            s
        },
        None => string_from_range(&vec!['/'], 0, 1),
    }
}

/* ---------------- applying the stripping to stored endpoints ---------------- */

/// Which stored endpoints a removal applies to.
#[derive(Debug, Clone)]
pub enum TargetSelection {
    /// These endpoint identifiers.
    SelectedEndpoints(Vec<String>),
    /// The endpoints that carry any of these tags.
    SelectedTags(Vec<String>),
    /// Every endpoint.
    All,
}

/// A removal: the database file and the endpoints to apply it to.
#[derive(Debug, Clone)]
pub struct RemoveUrlRequest {
    pub db_path: String,
    pub target: TargetSelection,
}

/// What a removal did.
#[derive(Debug, Clone)]
pub struct RemoveUrlSummary {
    pub mode: String,
    pub total_scanned: usize,
    pub updated_count: usize,
    pub unchanged_count: usize,
}

impl View for RemoveUrlSummary {
    type V = (Seq<char>, int, int, int);

    open spec fn view(&self) -> Self::V {
        (self.mode@, self.total_scanned as int, self.updated_count as int, self.unchanged_count as int)
    }
}

/// Why a removal failed.
#[derive(Debug)]
pub enum RemoveUrlError {
    /// There is no file at this path.
    DatabaseNotFound(String),
    /// The database refused or failed a statement.
    Database(EdmsError),
}

/// An endpoint's identifier and address.
pub type EndpointRow = (Seq<char>, Seq<char>);

pub const ENDPOINT_ROW_SQL: &'static str = "SELECT endpoint_id, endpoint_str FROM endpoints WHERE endpoint_id = ?1";
pub const ALL_ROWS_SQL: &'static str = "SELECT endpoint_id, endpoint_str FROM endpoints";
pub const UPDATE_ROW_SQL: &'static str = "UPDATE endpoints SET endpoint_str = ?1 WHERE endpoint_id = ?2";
pub const TAG_TARGETS_SQL_HEAD: &'static str = "SELECT DISTINCT endpoint_id FROM tags WHERE tag IN (";

/// `n` comma-separated `?` placeholders.
pub open spec fn placeholders(n: nat) -> Seq<char>
    decreases n,
{
    if n == 0 {
        seq![]
    } else if n == 1 {
        seq!['?']
    } else {
        placeholders((n - 1) as nat) + seq![',', '?']
    }
}

/// The query for the endpoints that carry any of `n` tags.
pub open spec fn tag_targets_sql(n: nat) -> Seq<char> {
    TAG_TARGETS_SQL_HEAD@ + placeholders(n) + ")"@
}

pub open spec fn text_args(v: Seq<String>) -> Seq<SqlArg> {
    v.map_values(|x: String| text(x@))
}

/// The name a summary gives to a selection.
pub open spec fn mode_name(t: TargetSelection) -> Seq<char> {
    match t {
        TargetSelection::SelectedEndpoints(_) => "SelectedEndpoints"@,
        TargetSelection::SelectedTags(_) => "SelectedTags"@,
        TargetSelection::All => "All"@,
    }
}

/// Where the journal `j`, from index `i`, ends after the endpoints a
/// selection names were looked for, and the identifiers it names: `None`
/// for every endpoint.
pub open spec fn selected_ids(j: Seq<Exchange>, i: int, t: TargetSelection) -> Option<(int, Option<Seq<Seq<char>>>)> {
    match t {
        TargetSelection::SelectedEndpoints(e) => Some((i, Some(dedup(strings_view(e@))))),
        TargetSelection::SelectedTags(tags) => {
            if tags@.len() == 0 {
                Some((i, Some(seq![])))
            } else if 0 <= i < j.len() && j[i].stmt == stmt(tag_targets_sql(tags@.len()), text_args(tags@)) {
                match j[i].reply {
                    Reply::Texts(found) => Some((i + 1, Some(dedup(found)))),
                    _ => None,
                }
            } else {
                None
            }
        },
        TargetSelection::All => Some((i, None)),
    }
}

/// `j[from..from + ids.len()]` holds the lookups of `ids` in order, each
/// answered (a lookup whose query failed to run counts as answered, and is
/// skipped).
pub open spec fn lookups_logged(j: Seq<Exchange>, from: int, ids: Seq<Seq<char>>) -> bool {
    &&& 0 <= from
    &&& from + ids.len() <= j.len()
    &&& forall|k: int| from <= k < from + ids.len() ==> #[trigger] j[k].stmt == stmt(ENDPOINT_ROW_SQL@, seq![text(ids[k - from])])
        && j[k].reply is Lookup
}

/// The rows found by the lookups `j[from..from + n]`: the row of each
/// lookup that found one, in order; lookups that found none, or whose query
/// failed to run, are skipped.
pub open spec fn found_rows(j: Seq<Exchange>, from: int, n: int) -> Seq<EndpointRow>
    decreases n,
{
    if n <= 0 {
        seq![]
    } else {
        let before = found_rows(j, from, n - 1);
        match j[from + n - 1].reply {
            Reply::Lookup(Some(Some(row))) => before.push(row),
            _ => before,
        }
    }
}

/// Where the journal ends after the endpoints were read, and the rows read.
pub open spec fn scanned_rows(j: Seq<Exchange>, i: int, ids: Option<Seq<Seq<char>>>) -> Option<(int, Seq<EndpointRow>)> {
    match ids {
        Some(ids) => if lookups_logged(j, i, ids) { Some((i + ids.len(), found_rows(j, i, ids.len() as int))) } else { None },
        None => {
            if 0 <= i < j.len() && j[i].stmt == stmt(ALL_ROWS_SQL@, seq![]) {
                match j[i].reply {
                    Reply::Pairs(rows) => Some((i + 1, rows)),
                    _ => None,
                }
            } else {
                None
            }
        },
    }
}

/// The row's address differs from its stripped form.
pub open spec fn needs_update(row: EndpointRow) -> bool {
    strip_url_prefix_spec(row.1) != row.1
}

/// The update that replaces a row's address by its stripped form.
pub open spec fn update_stmt(row: EndpointRow) -> Stmt {
    stmt(UPDATE_ROW_SQL@, seq![text(strip_url_prefix_spec(row.1)), text(row.0)])
}

/// How many rows need an update.
pub open spec fn count_updates(rows: Seq<EndpointRow>) -> int
    decreases rows.len(),
{
    if rows.len() == 0 {
        0
    } else {
        count_updates(rows.drop_last()) + if needs_update(rows.last()) { 1int } else { 0 }
    }
}

/// Where the journal `j`, from index `i`, ends when it holds, in order, a
/// successful update for each of `rows[k..]` that needs one.
pub open spec fn updates_log(j: Seq<Exchange>, i: int, rows: Seq<EndpointRow>, k: int) -> Option<int>
    decreases rows.len() - k,
{
    if k < 0 || k >= rows.len() {
        Some(i)
    } else if needs_update(rows[k]) {
        if 0 <= i < j.len() && j[i].stmt == update_stmt(rows[k]) && j[i].reply is Changed {
            updates_log(j, i + 1, rows, k + 1)
        } else {
            None
        }
    } else {
        updates_log(j, i, rows, k + 1)
    }
}

pub open spec fn tx_stmt(sql: Seq<char>) -> Stmt {
    stmt(sql, seq![])
}

/// The journal `j`, from index `s` on, is that of a removal for target `t`
/// that reported `summary`: the selected identifiers were resolved, their
/// rows read, and in one transaction each row whose address changes when
/// stripped was updated; the summary counts the rows read, updated and left.
pub open spec fn removal_logged(j: Seq<Exchange>, s: int, t: TargetSelection, summary: (Seq<char>, int, int, int)) -> bool {
    match selected_ids(j, s, t) {
        None => false,
        Some((i1, ids)) => match scanned_rows(j, i1, ids) {
            None => false,
            Some((i2, rows)) => {
                &&& 0 <= i2 < j.len() - 1
                &&& j[i2].stmt == tx_stmt("BEGIN DEFERRED"@) && j[i2].reply is Done
                &&& updates_log(j, i2 + 1, rows, 0) == Some(j.len() - 1)
                &&& j.last().stmt == tx_stmt("COMMIT"@) && j.last().reply is Done
                &&& summary == (mode_name(t), rows.len() as int, count_updates(rows), rows.len() - count_updates(rows))
            },
        },
    }
}

proof fn lemma_found_rows_prefix(j: Seq<Exchange>, j2: Seq<Exchange>, from: int, n: int)
    requires
        0 <= from,
        0 <= n,
        from + n <= j.len(),
        extends(j2, j),
    ensures
        found_rows(j2, from, n) == found_rows(j, from, n),
    decreases n,
{
    if n > 0 {
        lemma_found_rows_prefix(j, j2, from, n - 1);
        assert(j2[from + n - 1] == j2.take(j.len() as int)[from + n - 1]);
    }
}

proof fn lemma_lookups_prefix(j: Seq<Exchange>, j2: Seq<Exchange>, from: int, ids: Seq<Seq<char>>)
    requires
        lookups_logged(j, from, ids),
        extends(j2, j),
    ensures
        lookups_logged(j2, from, ids),
{
    assert forall|k: int| from <= k < from + ids.len() implies #[trigger] j2[k].stmt == stmt(ENDPOINT_ROW_SQL@, seq![text(ids[k - from])])
        && j2[k].reply is Lookup by {
        assert(j2[k] == j2.take(j.len() as int)[k]);
        assert(j[k].stmt == stmt(ENDPOINT_ROW_SQL@, seq![text(ids[k - from])]));
    }
}

fn placeholders_of(n: usize) -> (s: String)
    ensures
        s@ == placeholders(n as nat),
{
    let mut s = String::new();
    let mut i: usize = 0;
    while i < n
        invariant
            i <= n,
            s@ == placeholders(i as nat),
        decreases n - i,
    {
        if i > 0 {
            push_char(&mut s, ',');
        }
        push_char(&mut s, '?');
        proof {
            if i > 0 {
                assert(s@ =~= placeholders(i as nat) + seq![',', '?']);
            } else {
                assert(s@ =~= seq!['?']);
            }
        }
        i += 1;
    }
    s
}

fn text_values(v: &Vec<String>) -> (a: Vec<SqlValue>)
    ensures
        args_view(a@) == text_args(v@),
{
    let mut a: Vec<SqlValue> = Vec::new();
    let mut i: usize = 0;
    while i < v.len()
        invariant
            i <= v@.len(),
            args_view(a@) == text_args(v@.take(i as int)),
        decreases v@.len() - i,
    {
        a.push(SqlValue::Text(v[i].clone()));
        assert(text_args(v@.take(i + 1)) =~= text_args(v@.take(i as int)).push(text(v@[i as int]@)));
        assert(args_view(a@) =~= args_view(a@.drop_last()).push(a@.last()@));
        i += 1;
    }
    assert(v@.take(v@.len() as int) =~= v@);
    a
}

/// Looks up each of `ids` in order; an identifier whose lookup finds
/// nothing, or whose query fails to run, is skipped. A lookup whose
/// statement cannot be prepared, or whose row cannot be read, stops the
/// reading with SQLite's error.
fn lookup_rows(core: &mut EdmsCore, ids: &Vec<String>) -> (r: EdmsResult<Vec<(String, String)>>)
    requires
        old(core).is_connected(),
    ensures
        final(core).path() == old(core).path(),
        final(core).is_connected(),
        extends(final(core).journal(), old(core).journal()),
        r matches Ok(rows) ==> {
            &&& final(core).journal().len() == old(core).journal().len() + ids@.len()
            &&& lookups_logged(final(core).journal(), old(core).journal().len() as int, strings_view(ids@))
            &&& pairs_view(rows@) == found_rows(final(core).journal(), old(core).journal().len() as int, ids@.len() as int)
        },
        r is Err ==> {
            let j = final(core).journal();
            let s = old(core).journal().len() as int;
            let n = j.len() - s - 1;
            &&& s < j.len() <= s + ids@.len()
            &&& lookups_logged(j, s, strings_view(ids@).take(n))
            &&& j.last().stmt == stmt(ENDPOINT_ROW_SQL@, seq![text(ids@[n]@)])
            &&& j.last().reply is Failed
            &&& !is_unknown(r)
        },
{
    let ghost s = old(core).journal().len() as int;
    let ghost idv = strings_view(ids@);
    proof { assert(core.journal().take(s) =~= old(core).journal()); }
    let mut rows: Vec<(String, String)> = Vec::new();
    let mut i: usize = 0;
    while i < ids.len()
        invariant
            i <= ids@.len(),
            idv == strings_view(ids@),
            s == old(core).journal().len(),
            core.path() == old(core).path(),
            core.is_connected(),
            core.journal().len() == s + i,
            extends(core.journal(), old(core).journal()),
            lookups_logged(core.journal(), s, idv.take(i as int)),
            pairs_view(rows@) == found_rows(core.journal(), s, i as int),
        decreases ids@.len() - i,
    {
        let ghost jb = core.journal();
        let args = vec![SqlValue::Text(ids[i].clone())];
        assert(args_view(args@) =~= seq![text(idv[i as int])]);
        let res = core.lookup_pair(ENDPOINT_ROW_SQL, args);
        proof {
            let j = core.journal();
            assert(j.drop_last() == jb);
            assert(j.take(jb.len() as int) =~= jb);
            lemma_extends_trans(old(core).journal(), jb, j);
            lemma_found_rows_prefix(jb, j, s, i as int);
            lemma_lookups_prefix(jb, j, s, idv.take(i as int));
            assert(j[s + i as int] == j.last());
        }
        match res {
            Ok(found) => {
                proof {
                    let j = core.journal();
                    assert forall|k: int| s <= k < s + i + 1 implies #[trigger] j[k].stmt == stmt(ENDPOINT_ROW_SQL@, seq![text(idv.take(i + 1)[k - s])])
                        && j[k].reply is Lookup by {
                        if k < s + i {
                            assert(j[k].stmt == stmt(ENDPOINT_ROW_SQL@, seq![text(idv.take(i as int)[k - s])]));
                        }
                    }
                    assert(lookups_logged(j, s, idv.take(i + 1)));
                }
                match found {
                    Some(Some(row)) => {
                        let ghost before = rows@;
                        rows.push(row);
                        assert(pairs_view(rows@) =~= pairs_view(before).push(pairs_view(rows@).last()));
                    },
                    _ => {},
                }
            },
            Err(e) => {
                proof {
                    assert(idv[i as int] == ids@[i as int]@);
                    assert(idv.take(i as int) == strings_view(ids@).take(i as int));
                }
                return Err(e);
            },
        }
        i += 1;
    }
    assert(idv.take(ids@.len() as int) =~= idv);
    Ok(rows)
}

/// Updates, in order, each row whose address changes when stripped, and
/// counts them; stops at the first failure.
fn update_rows(core: &mut EdmsCore, rows: &Vec<(String, String)>) -> (r: EdmsResult<usize>)
    requires
        old(core).is_connected(),
    ensures
        final(core).path() == old(core).path(),
        final(core).is_connected(),
        extends(final(core).journal(), old(core).journal()),
        r matches Ok(n) ==> n == count_updates(pairs_view(rows@)) && n <= rows@.len() && forall|j2: Seq<Exchange>| extends(j2, final(core).journal()) ==>
            #[trigger] updates_log(j2, old(core).journal().len() as int, pairs_view(rows@), 0) == Some(final(core).journal().len() as int),
        r is Err ==> final(core).journal().len() > old(core).journal().len() && last_reply(*final(core)) is Failed
            && !is_unknown(r),
{
    let ghost s = old(core).journal().len() as int;
    let ghost rv = pairs_view(rows@);
    proof { assert(core.journal().take(s) =~= old(core).journal()); }
    let mut updated: usize = 0;
    let mut i: usize = 0;
    while i < rows.len()
        invariant
            i <= rows@.len(),
            rv == pairs_view(rows@),
            s == old(core).journal().len(),
            core.path() == old(core).path(),
            core.is_connected(),
            extends(core.journal(), old(core).journal()),
            updated == count_updates(rv.take(i as int)),
            updated <= i,
            forall|j2: Seq<Exchange>| extends(j2, core.journal()) ==>
                #[trigger] updates_log(j2, s, rv, 0) == updates_log(j2, core.journal().len() as int, rv, i as int),
        decreases rows@.len() - i,
    {
        let ghost jb = core.journal();
        let ghost row = rv[i as int];
        assert(rv.take(i + 1).drop_last() =~= rv.take(i as int));
        let stripped = strip_url_prefix(rows[i].1.as_str());
        if !crate::text::str_eq(stripped.as_str(), rows[i].1.as_str()) {
            let args = vec![SqlValue::Text(stripped), SqlValue::Text(rows[i].0.clone())];
            assert(args_view(args@) =~= update_stmt(row).args);
            let res = core.proc(UPDATE_ROW_SQL, args);
            proof {
                let j = core.journal();
                assert(j.drop_last() == jb);
                assert(j.take(jb.len() as int) =~= jb);
                lemma_extends_trans(old(core).journal(), jb, j);
            }
            match res {
                Ok(_) => {},
                Err(e) => {
                    return Err(e);
                },
            }
            proof {
                let j = core.journal();
                assert forall|j2: Seq<Exchange>| extends(j2, j) implies
                    #[trigger] updates_log(j2, s, rv, 0) == updates_log(j2, j.len() as int, rv, i + 1) by {
                    lemma_extends_trans(jb, j, j2);
                    assert(j2[jb.len() as int] == j2.take(j.len() as int)[jb.len() as int]);
                    assert(updates_log(j2, s, rv, 0) == updates_log(j2, jb.len() as int, rv, i as int));
                }
            }
            updated = updated + 1;
        } else {
            proof {
                assert forall|j2: Seq<Exchange>| extends(j2, jb) implies
                    #[trigger] updates_log(j2, s, rv, 0) == updates_log(j2, jb.len() as int, rv, i + 1) by {
                    assert(updates_log(j2, s, rv, 0) == updates_log(j2, jb.len() as int, rv, i as int));
                }
            }
        }
        i += 1;
    }
    proof {
        assert(rv.take(rows@.len() as int) =~= rv);
        assert forall|j2: Seq<Exchange>| extends(j2, core.journal()) implies
            #[trigger] updates_log(j2, s, rv, 0) == Some(core.journal().len() as int) by {
            assert(updates_log(j2, s, rv, 0) == updates_log(j2, core.journal().len() as int, rv, rows@.len() as int));
        }
    }
    Ok(updated)
}

fn mode_of(t: &TargetSelection) -> (m: String)
    ensures
        m@ == mode_name(*t),
{
    match t {
        TargetSelection::SelectedEndpoints(_) => "SelectedEndpoints".to_owned(),
        TargetSelection::SelectedTags(_) => "SelectedTags".to_owned(),
        TargetSelection::All => "All".to_owned(),
    }
}

/// Strips the address of each endpoint that `target` selects, on an open
/// database: resolves the selection (the identifiers given, each once; or
/// the endpoints carrying any of the tags; or all endpoints), reads each
/// selected endpoint (one whose lookup fails or finds nothing is skipped),
/// then in one transaction updates every address that stripping changes.
/// A failed update or commit is followed by `ROLLBACK`.
pub fn remove_url_prefix_in(core: &mut EdmsCore, target: &TargetSelection) -> (r: EdmsResult<RemoveUrlSummary>)
    ensures
        final(core).path() == old(core).path(),
        final(core).is_connected() == old(core).is_connected(),
        extends(final(core).journal(), old(core).journal()),
        !old(core).is_connected() ==> old(core).same(*final(core)) && is_unknown(r),
        old(core).is_connected() && r is Ok ==> (r matches Ok(sum)
            && removal_logged(final(core).journal(), old(core).journal().len() as int, *target, sum@)),
        old(core).is_connected() && r is Err ==> !is_unknown(r) && final(core).journal().len() > old(core).journal().len()
            && (last_reply(*final(core)) is Failed || final(core).journal().last().stmt == tx_stmt("ROLLBACK"@)),
{
    let ghost s = old(core).journal().len() as int;
    let ghost j0 = old(core).journal();
    proof { assert(j0.take(s) =~= j0); }
    if !core.is_open() {
        return Err(EdmsError::UnknownError);
    }
    let ids: Option<Vec<String>> = match target {
        TargetSelection::SelectedEndpoints(e) => Some(dedup_strings(e.as_slice())),
        TargetSelection::SelectedTags(tags) => {
            if tags.len() == 0 {
                Some(Vec::new())
            } else {
                let head = concat(TAG_TARGETS_SQL_HEAD, placeholders_of(tags.len()).as_str());
                let sql = concat(head.as_str(), ")");
                let res = core.query_texts(sql.as_str(), text_values(tags));
                proof {
                    let j = core.journal();
                    assert(j.drop_last() == j0);
                    assert(j.take(s) =~= j0);
                }
                match res {
                    Ok(found) => Some(dedup_strings(found.as_slice())),
                    Err(e) => {
                        return Err(e);
                    },
                }
            }
        },
        TargetSelection::All => None,
    };
    let ghost j1 = core.journal();
    let ghost i1 = j1.len() as int;
    proof {
        assert(selected_ids(j1, s, *target) == Some((i1, match ids { Some(v) => Some(strings_view(v@)), None => None })));
    }
    let rows: Vec<(String, String)> = match &ids {
        Some(v) => match lookup_rows(core, v) {
            Ok(r) => r,
            Err(e) => {
                proof { lemma_extends_trans(j0, j1, core.journal()); }
                return Err(e);
            },
        },
        None => {
            let args: Vec<SqlValue> = Vec::new();
            assert(args_view(args@) =~= seq![]);
            let res = core.query_pairs(ALL_ROWS_SQL, args);
            proof {
                let j = core.journal();
                assert(j.drop_last() == j1);
                assert(j.take(j1.len() as int) =~= j1);
                lemma_extends_trans(j0, j1, j);
            }
            match res {
                Ok(r) => r,
                Err(e) => {
                    return Err(e);
                },
            }
        },
    };
    let ghost j2 = core.journal();
    let ghost i2 = j2.len() as int;
    proof {
        lemma_extends_trans(j0, j1, j2);
        assert(scanned_rows(j2, i1, match ids { Some(v) => Some(strings_view(v@)), None => None }) == Some((i2, pairs_view(rows@))));
    }
    match core.batch("BEGIN DEFERRED") {
        Ok(()) => {},
        Err(e) => {
            proof {
                let j = core.journal();
                assert(j.take(j2.len() as int) =~= j2);
                lemma_extends_trans(j0, j2, j);
            }
            return Err(e);
        },
    }
    let ghost j3 = core.journal();
    proof {
        assert(j3.take(j2.len() as int) =~= j2);
        lemma_extends_trans(j0, j2, j3);
    }
    let res = update_rows(core, &rows);
    let ghost ju = core.journal();
    let updated = match res {
        Ok(n) => n,
        Err(e) => {
            let _ = core.batch("ROLLBACK");
            proof {
                let j = core.journal();
                assert(j.drop_last() == ju);
                assert(j.take(ju.len() as int) =~= ju);
                lemma_extends_trans(j0, j3, ju);
                lemma_extends_trans(j0, ju, j);
            }
            return Err(e);
        },
    };
    let ghost j4 = core.journal();
    proof { lemma_extends_trans(j0, j3, j4); }
    match core.batch("COMMIT") {
        Ok(()) => {},
        Err(e) => {
            let _ = core.batch("ROLLBACK");
            proof {
                let j = core.journal();
                assert(j.take(j.len() - 1) =~= j.drop_last());
                assert(j.drop_last().take(j4.len() as int) =~= j4);
                lemma_extends_trans(j0, j4, j.drop_last());
                lemma_extends_trans(j0, j.drop_last(), j);
            }
            return Err(e);
        },
    }
    let total = rows.len();
    let summary = RemoveUrlSummary {
        mode: mode_of(target),
        total_scanned: total,
        updated_count: updated,
        unchanged_count: total - updated,
    };
    proof {
        let j = core.journal();
        assert(j.take(j4.len() as int) =~= j4);
        lemma_extends_trans(j0, j4, j);
        lemma_extends_trans(j1, j2, j3);
        lemma_extends_trans(j1, j3, j4);
        lemma_extends_trans(j1, j4, j);
        lemma_extends_trans(j2, j3, j4);
        lemma_extends_trans(j2, j4, j);
        lemma_extends_trans(j3, j4, j);
        let idsv = match ids { Some(v) => Some(strings_view(v@)), None => None };
        match target {
            TargetSelection::SelectedTags(tags) => {
                if tags@.len() > 0 {
                    assert(j[s] == j.take(j1.len() as int)[s]);
                }
            },
            _ => {},
        }
        assert(selected_ids(j, s, *target) == Some((i1, idsv)));
        match idsv {
            Some(v) => {
                lemma_lookups_prefix(j2, j, i1, v);
                lemma_found_rows_prefix(j2, j, i1, v.len() as int);
            },
            None => {
                assert(j[i1] == j.take(j2.len() as int)[i1]);
            },
        }
        assert(scanned_rows(j, i1, idsv) == Some((i2, pairs_view(rows@))));
        assert(j[i2] == j.take(j3.len() as int)[i2]);
        assert(j3[i2] == j3.last());
        assert(updates_log(j, i2 + 1, pairs_view(rows@), 0) == Some(j4.len() as int));
    }
    Ok(summary)
}

/// A removal settles the rows it updates: the address written by an
/// update needs no second update, unless it begins with `//` (which a
/// second stripping would read as an authority).
pub proof fn lemma_updated_rows_settle(row: EndpointRow)
    requires
        needs_update(row),
        !starts_with_double_slash(strip_url_prefix_spec(row.1)),
    ensures
        !needs_update((row.0, strip_url_prefix_spec(row.1))),
{
    lemma_strip_url_prefix_idempotent(row.1);
}

/// Whether a file exists at `path` (`std::path::Path::exists`). What is on
/// disk decides it, so nothing is stated of the result.
#[verifier::external_body]
fn path_exists(path: &str) -> bool {
    std::path::Path::new(path).exists()
}

/// Applies `remove_url_prefix_in` to the database file `req.db_path`:
/// `DatabaseNotFound` when there is no such file; otherwise the file is
/// opened and the removal run on it. A summary comes from a removal run on
/// a fresh connection to `req.db_path` whose whole exchange with SQLite is
/// `removal_logged` for `req.target`: only the rows that target selects are
/// read, exactly those whose address changes are updated, and the counts
/// are those of the rows read.
pub fn apply_remove_url_prefix(req: RemoveUrlRequest) -> (r: Result<RemoveUrlSummary, RemoveUrlError>)
    ensures
        r matches Err(RemoveUrlError::DatabaseNotFound(p)) ==> p@ == req.db_path@,
        r matches Ok(sum) ==> sum.mode@ == mode_name(req.target)
            && sum.total_scanned == sum.updated_count + sum.unchanged_count,
        r matches Err(RemoveUrlError::Database(e)) ==> !(e is UnknownError),
        r matches Ok(sum) ==> exists|c: EdmsCore| #![trigger c.journal()]
            c.path() == req.db_path@ && c.is_connected() && removal_logged(c.journal(), 0, req.target, sum@),
{
    if !path_exists(req.db_path.as_str()) {
        return Err(RemoveUrlError::DatabaseNotFound(req.db_path));
    }
    let mut core = EdmsCore::new(req.db_path.as_str());
    match core.connect() {
        Ok(()) => {},
        Err(e) => {
            return Err(RemoveUrlError::Database(e));
        },
    }
    let res = remove_url_prefix_in(&mut core, &req.target);
    proof {
        if res is Ok {
            assert(core.path() == req.db_path@ && core.is_connected());
        }
    }
    match res {
        Ok(sum) => Ok(sum),
        Err(e) => Err(RemoveUrlError::Database(e)),
    }
}

} // verus!
