//! The table of imported items (compressed archives and uncompressed
//! folders): their sizes for display, the view each belongs to, where a move
//! puts them, and which files a takeout leaves out.
use vstd::prelude::*;
use crate::text::{
    decimal, push_decimal, append_str, push_char, digit, digit_char, lowercase, to_lowercase, str_contains, chars_of,
    contains_seq, str_eq, debug_quoted, debug_str, concat, path_debug_quoted, debug_path,
};
use crate::validate::{ValidationReport, eq_ignore_ascii_case, eq_ignore_ascii_case_exec};

verus! {

/// The view an item is meant for.
#[derive(Debug, Clone, Copy, PartialEq, Eq, Structural)]
pub enum ViewPurpose {
    Collections,
    RepoView,
    WebView,
}

/// One row of the imports table.
#[derive(Debug, Clone)]
pub struct TableItem {
    pub name: String,
    pub relative_path: String,
    pub full_path: String,
    pub is_compressed: bool,
    pub purpose: Option<ViewPurpose>,
    pub size_bytes: u64,
    pub size_display: String,
    pub format_check: Option<ValidationReport>,
}

/// The imports table: archives and folders.
#[derive(Debug, Clone)]
pub struct TableViewResponse {
    pub compressed: Vec<TableItem>,
    pub uncompressed: Vec<TableItem>,
}

/// The outcome of moving an item into its view.
#[derive(Debug, Clone)]
pub struct MoveResult {
    pub success: bool,
    pub destination: String,
    pub message: String,
}

/// The outcome of a takeout.
#[derive(Debug, Clone)]
pub struct TakeoutResult {
    pub success: bool,
    pub destination: String,
    pub files_copied: usize,
    pub sqlite_files_stripped: usize,
    pub collision: bool,
    pub message: String,
}

pub const KB: u64 = 1024;
pub const MB: u64 = 1048576;
pub const GB: u64 = 1073741824;

/// `n / d` rounded to the nearest integer, ties to the even one.
pub open spec fn round_half_even(n: nat, d: nat) -> nat
    recommends
        d > 0,
{
    let q = n / d;
    let r = n % d;
    if 2 * r > d || (2 * r == d && q % 2 == 1) {
        q + 1
    } else {
        q
    }
}

/// The distance between neighbouring `f64` values near `b` (a 64-bit
/// integer): 1 below 2^53, doubling with each power of two above.
pub open spec fn f64_spacing(b: nat) -> nat {
    if b >= 0x8000_0000_0000_0000 {
        2048
    } else if b >= 0x4000_0000_0000_0000 {
        1024
    } else if b >= 0x2000_0000_0000_0000 {
        512
    } else if b >= 0x1000_0000_0000_0000 {
        256
    } else if b >= 0x0800_0000_0000_0000 {
        128
    } else if b >= 0x0400_0000_0000_0000 {
        64
    } else if b >= 0x0200_0000_0000_0000 {
        32
    } else if b >= 0x0100_0000_0000_0000 {
        16
    } else if b >= 0x0080_0000_0000_0000 {
        8
    } else if b >= 0x0040_0000_0000_0000 {
        4
    } else if b >= 0x0020_0000_0000_0000 {
        2
    } else {
        1
    }
}

/// The `f64` nearest to `b` (ties to even), as `b as f64` gives it.
pub open spec fn f64_value(b: nat) -> nat {
    round_half_even(b, f64_spacing(b)) * f64_spacing(b)
}

/// Two decimal digits of `n < 100`.
pub open spec fn two_digits(n: nat) -> Seq<char> {
    seq![digit_char((n / 10) as int), digit_char((n % 10) as int)]
}

/// `v / unit` printed with two decimals, rounding the exact quotient to
/// the nearest hundredth, ties to even (as `{:.2}` prints it).
pub open spec fn fixed2(v: nat, unit: nat) -> Seq<char> {
    let h = round_half_even(v * 100, unit);
    decimal(h / 100) + seq!['.'] + two_digits(h % 100)
}

/// A byte count for display: whole bytes below 1 KiB, else KB, MB or GB
/// (powers of 1024) with two decimals.
pub open spec fn format_size_spec(bytes: nat) -> Seq<char> {
    if bytes >= GB {
        fixed2(f64_value(bytes), GB as nat) + " GB"@
    } else if bytes >= MB {
        fixed2(bytes, MB as nat) + " MB"@
    } else if bytes >= KB {
        fixed2(bytes, KB as nat) + " KB"@
    } else {
        decimal(bytes) + " B"@
    }
}

fn spacing_of(b: u64) -> (s: u64)
    ensures
        s as nat == f64_spacing(b as nat),
        1 <= s <= 2048,
{
    if b >= 0x8000_0000_0000_0000 {
        2048
    } else if b >= 0x4000_0000_0000_0000 {
        1024
    } else if b >= 0x2000_0000_0000_0000 {
        512
    } else if b >= 0x1000_0000_0000_0000 {
        256
    } else if b >= 0x0800_0000_0000_0000 {
        128
    } else if b >= 0x0400_0000_0000_0000 {
        64
    } else if b >= 0x0200_0000_0000_0000 {
        32
    } else if b >= 0x0100_0000_0000_0000 {
        16
    } else if b >= 0x0080_0000_0000_0000 {
        8
    } else if b >= 0x0040_0000_0000_0000 {
        4
    } else if b >= 0x0020_0000_0000_0000 {
        2
    } else {
        1
    }
}

fn round_half_even_of(n: u128, d: u128) -> (q: u128)
    requires
        d > 0,
        n / d < u128::MAX,
    ensures
        q as nat == round_half_even(n as nat, d as nat),
{
    let q = n / d;
    let r = n % d;
    assert(r < d);
    if r > d - r || (r == d - r && q % 2 == 1) {
        q + 1
    } else {
        q
    }
}

fn f64_value_of(b: u64) -> (v: u128)
    ensures
        v as nat == f64_value(b as nat),
        v <= 0x1_0000_0000_0000_0800,
{
    let s = spacing_of(b) as u128;
    let q = round_half_even_of(b as u128, s);
    assert(q <= (b as u128) / s + 1);
    assert((b as u128) / s * s <= b) by (nonlinear_arith)
        requires
            s >= 1;
    assert(q * s <= 0x1_0000_0000_0000_0800) by (nonlinear_arith)
        requires
            q <= (b as u128) / s + 1,
            (b as u128) / s * s <= b,
            b < 0x1_0000_0000_0000_0000,
            1 <= s <= 2048,
    {
        assert(q * s <= ((b as u128) / s + 1) * s);
        assert(((b as u128) / s + 1) * s == (b as u128) / s * s + s);
    }
    q * s
}

fn push_fixed2(out: &mut String, v: u128, unit: u128)
    requires
        unit >= 1,
        v <= 0x1_0000_0000_0000_0800,
    ensures
        final(out)@ == old(out)@ + fixed2(v as nat, unit as nat),
{
    let n = v * 100;
    assert(n / unit <= n) by (nonlinear_arith)
        requires
            unit >= 1;
    let h = round_half_even_of(n, unit);
    push_decimal(out, h / 100);
    push_char(out, '.');
    let hundredths = h % 100;
    push_char(out, digit((hundredths / 10) as u8));
    push_char(out, digit((hundredths % 10) as u8));
    assert(out@ =~= old(out)@ + fixed2(v as nat, unit as nat));
}

/// A byte count for display (`format_size_spec`).
pub fn format_size(bytes: u64) -> (s: String)
    ensures
        s@ == format_size_spec(bytes as nat),
{
    let mut s = String::new();
    if bytes >= GB {
        push_fixed2(&mut s, f64_value_of(bytes), GB as u128);
        append_str(&mut s, " GB");
    } else if bytes >= MB {
        push_fixed2(&mut s, bytes as u128, MB as u128);
        append_str(&mut s, " MB");
    } else if bytes >= KB {
        push_fixed2(&mut s, bytes as u128, KB as u128);
        append_str(&mut s, " KB");
    } else {
        push_decimal(&mut s, bytes as u128);
        append_str(&mut s, " B");
    }
    assert(s@ =~= format_size_spec(bytes as nat));
    s
}

/// The view a lowercased path names: `collection` anywhere means
/// Collections, else `repoview` or `repo` means RepoView, else `webview`
/// means WebView.
pub open spec fn purpose_named(s: Seq<char>) -> Option<ViewPurpose> {
    if contains_seq(s, "collection"@) {
        Some(ViewPurpose::Collections)
    } else if contains_seq(s, "repoview"@) || contains_seq(s, "repo"@) {
        Some(ViewPurpose::RepoView)
    } else if contains_seq(s, "webview"@) {
        Some(ViewPurpose::WebView)
    } else {
        None
    }
}

/// The view a lowercased path names (`purpose_named`).
pub fn purpose_from_lowercase(s: &str) -> (r: Option<ViewPurpose>)
    ensures
        r == purpose_named(s@),
{
    if str_contains(s, "collection") {
        Some(ViewPurpose::Collections)
    } else if str_contains(s, "repoview") || str_contains(s, "repo") {
        Some(ViewPurpose::RepoView)
    } else if str_contains(s, "webview") {
        Some(ViewPurpose::WebView)
    } else {
        None
    }
}

/// The view an item's path names, matched on its lowercase form.
pub fn infer_purpose(path: &str) -> (r: Option<ViewPurpose>)
    ensures
        r == purpose_named(lowercase(path@)),
{
    let lowered = to_lowercase(path);
    purpose_from_lowercase(lowered.as_str())
}

/// The storage folder of a view.
pub open spec fn view_folder(p: ViewPurpose) -> Seq<char> {
    match p {
        ViewPurpose::Collections => "collections"@,
        ViewPurpose::RepoView => "repoview"@,
        ViewPurpose::WebView => "webview"@,
    }
}

/// The storage folder an item moved into view `purpose` goes under.
pub fn dest_folder_name(purpose: ViewPurpose) -> (r: &'static str)
    ensures
        r@ == view_folder(purpose),
{
    match purpose {
        ViewPurpose::Collections => "collections",
        ViewPurpose::RepoView => "repoview",
        ViewPurpose::WebView => "webview",
    }
}

/// The report of a successful move of the item named `item_name` to
/// `destination`.
pub fn move_result(item_name: &str, destination: &str) -> (r: MoveResult)
    ensures
        r.success,
        r.destination@ == destination@,
        r.message@ == "Successfully moved "@ + path_debug_quoted(item_name@) + " to "@ + path_debug_quoted(destination@),
{
    let mut m = concat("Successfully moved ", debug_path(item_name).as_str());
    append_str(&mut m, " to ");
    append_str(&mut m, debug_path(destination).as_str());
    MoveResult { success: true, destination: destination.to_owned(), message: m }
}

/// The extensions (lowercased) of the SQLite database family that a
/// takeout leaves out: the database and its write-ahead log and shared
/// memory files.
pub open spec fn is_sqlite_family(lower: Seq<char>) -> bool {
    lower == "sqlite"@ || lower == "db"@ || lower == "sqlitedb"@ || lower == "sqlite-wal"@ || lower == "sqlite-shm"@
}

/// Whether a takeout leaves out a file with this extension (`None`: no
/// extension, or one that is not UTF-8).
pub fn is_stripped_in_takeout(ext: Option<&str>) -> (b: bool)
    ensures
        b == (ext matches Some(e) && is_sqlite_family(lowercase(e@))),
{
    match ext {
        None => false,
        Some(e) => {
            let lower = to_lowercase(e);
            is_sqlite_family_name(lower.as_str())
        },
    }
}

/// Whether a lowercased extension is one of the SQLite database family
/// (`is_sqlite_family`).
pub fn is_sqlite_family_name(lower: &str) -> (b: bool)
    ensures
        b == is_sqlite_family(lower@),
{
    str_eq(lower, "sqlite") || str_eq(lower, "db") || str_eq(lower, "sqlitedb") || str_eq(lower, "sqlite-wal")
        || str_eq(lower, "sqlite-shm")
}

/// What a takeout does with an existing destination.
#[derive(Debug, Clone, Copy, PartialEq, Eq, Structural)]
pub enum TakeoutStart {
    /// The destination exists and may not be overwritten: stop.
    Collision,
    /// The destination exists and is removed first.
    Replace,
    /// The destination does not exist.
    Fresh,
}

/// How a takeout starts, given whether its destination exists.
pub fn takeout_start(dest_exists: bool, overwrite: bool) -> (r: TakeoutStart)
    ensures
        r == (if !dest_exists { TakeoutStart::Fresh } else if overwrite { TakeoutStart::Replace } else { TakeoutStart::Collision }),
{
    if !dest_exists {
        TakeoutStart::Fresh
    } else if overwrite {
        TakeoutStart::Replace
    } else {
        TakeoutStart::Collision
    }
}

/// The report of a takeout stopped because `destination` (named
/// `dest_name`) exists.
pub fn takeout_collision(destination: &str, dest_name: &str) -> (r: TakeoutResult)
    ensures
        !r.success && r.collision,
        r.files_copied == 0 && r.sqlite_files_stripped == 0,
        r.destination@ == destination@,
        r.message@ == "Destination folder already exists: "@ + debug_quoted(dest_name@) + ". Rename or enable overwrite."@,
{
    let mut m = concat("Destination folder already exists: ", debug_str(dest_name).as_str());
    append_str(&mut m, ". Rename or enable overwrite.");
    TakeoutResult {
        success: false,
        destination: destination.to_owned(),
        files_copied: 0,
        sqlite_files_stripped: 0,
        collision: true,
        message: m,
    }
}

/// The report of a completed takeout.
pub fn takeout_done(destination: &str, files_copied: usize, sqlite_files_stripped: usize) -> (r: TakeoutResult)
    ensures
        r.success && !r.collision,
        r.files_copied == files_copied && r.sqlite_files_stripped == sqlite_files_stripped,
        r.destination@ == destination@,
        r.message@ == "Takeout complete: "@ + decimal(files_copied as nat) + " files copied, "@
            + decimal(sqlite_files_stripped as nat) + " SQLite database files stripped"@,
{
    let mut m = String::new();
    append_str(&mut m, "Takeout complete: ");
    push_decimal(&mut m, files_copied as u128);
    append_str(&mut m, " files copied, ");
    push_decimal(&mut m, sqlite_files_stripped as u128);
    append_str(&mut m, " SQLite database files stripped");
    TakeoutResult {
        success: true,
        destination: destination.to_owned(),
        files_copied,
        sqlite_files_stripped,
        collision: false,
        message: m,
    }
}

/// Whether `c` separates path components in a displayed relative path.
pub open spec fn is_path_sep(c: char) -> bool {
    c == '/' || c == '\\'
}

/// The number of separators among the first `n` characters of `s`.
pub open spec fn seps_in(s: Seq<char>, n: int) -> nat
    decreases n,
{
    if n <= 0 {
        0
    } else {
        seps_in(s, n - 1) + if is_path_sep(s[n - 1]) { 1nat } else { 0nat }
    }
}

/// How many pieces splitting `rel` at `/` and `\` gives: one more than
/// its separators.
pub open spec fn path_depth(rel: Seq<char>) -> nat {
    seps_in(rel, rel.len() as int) + 1
}

/// A folder met while scanning the uncompressed imports: its path relative
/// to the scanned root, its full path, and whether it or an entry right
/// under it is a file or has an extension.
#[derive(Debug, Clone)]
pub struct DirCandidate {
    pub relative_path: String,
    pub full_path: String,
    pub has_file: bool,
}

impl View for DirCandidate {
    type V = (Seq<char>, Seq<char>, bool);

    open spec fn view(&self) -> (Seq<char>, Seq<char>, bool) {
        (self.relative_path@, self.full_path@, self.has_file)
    }
}

/// A folder is listed when it lies two or more levels down, or one level
/// down with a file in it.
pub open spec fn is_listed_dir(c: (Seq<char>, Seq<char>, bool)) -> bool {
    path_depth(c.0) >= 2 || (path_depth(c.0) == 1 && c.2)
}

/// The indices of the listed folders among `cands[..n]`, in order, each
/// full path once (the first folder with it).
pub open spec fn listed_dirs(cands: Seq<(Seq<char>, Seq<char>, bool)>, n: int) -> Seq<int>
    decreases n,
{
    if n <= 0 {
        seq![]
    } else {
        let before = listed_dirs(cands, n - 1);
        let c = cands[n - 1];
        if is_listed_dir(c) && !(exists|k: int| 0 <= k < before.len() && cands[before[k]].1 == c.1) {
            before.push(n - 1)
        } else {
            before
        }
    }
}

/// The view of each candidate.
pub open spec fn candidates_view(v: Seq<DirCandidate>) -> Seq<(Seq<char>, Seq<char>, bool)> {
    v.map_values(|c: DirCandidate| c@)
}

fn count_seps(s: &str) -> (n: usize)
    ensures
        n as nat == seps_in(s@, s@.len() as int),
{
    let v = chars_of(s);
    let mut n: usize = 0;
    let mut i: usize = 0;
    while i < v.len()
        invariant
            i <= v@.len(),
            v@ == s@,
            n as nat == seps_in(s@, i as int),
            n <= i,
        decreases v@.len() - i,
    {
        if v[i] == '/' || v[i] == '\\' {
            n = n + 1;
        }
        i = i + 1;
    }
    n
}

/// Whether a candidate folder is listed (`is_listed_dir`).
pub fn dir_is_listed(c: &DirCandidate) -> (b: bool)
    ensures
        b == is_listed_dir(c@),
{
    let seps = count_seps(c.relative_path.as_str());
    seps >= 1 || (seps == 0 && c.has_file)
}

/// The folders the uncompressed side of the imports table shows
/// (`listed_dirs`), as indices into `cands`.
pub fn select_uncompressed(cands: &[DirCandidate]) -> (r: Vec<usize>)
    ensures
        r@.map_values(|i: usize| i as int) == listed_dirs(candidates_view(cands@), cands@.len() as int),
{
    let ghost cv = candidates_view(cands@);
    let mut r: Vec<usize> = Vec::new();
    let mut i: usize = 0;
    while i < cands.len()
        invariant
            i <= cands@.len(),
            cv == candidates_view(cands@),
            r@.map_values(|x: usize| x as int) == listed_dirs(cv, i as int),
            forall|k: int| 0 <= k < r@.len() ==> #[trigger] r@[k] < i,
        decreases cands@.len() - i,
    {
        let ghost before = listed_dirs(cv, i as int);
        let c = &cands[i];
        assert(cv[i as int] == c@);
        let listed = dir_is_listed(c);
        let mut seen = false;
        if listed {
            let mut k: usize = 0;
            while k < r.len()
                invariant
                    k <= r@.len(),
                    i < cands@.len(),
                    cv == candidates_view(cands@),
                    r@.map_values(|x: usize| x as int) == before,
                    cv[i as int] == cands@[i as int]@,
                    c@ == cv[i as int],
                    forall|q: int| 0 <= q < r@.len() ==> #[trigger] r@[q] < i,
                    seen <==> exists|q: int| 0 <= q < k && cv[before[q]].1 == cv[i as int].1,
                decreases r@.len() - k,
            {
                let j = r[k];
                assert(r@.map_values(|x: usize| x as int)[k as int] == j as int);
                assert(before[k as int] == j as int);
                assert(cv[j as int] == cands@[j as int]@);
                let same = str_eq(cands[j].full_path.as_str(), c.full_path.as_str());
                assert(same == (cv[before[k as int]].1 == cv[i as int].1));
                if same {
                    seen = true;
                }
                assert(seen <==> exists|q: int| 0 <= q < k + 1 && cv[before[q]].1 == cv[i as int].1) by {
                    if same {
                        assert(0 <= k < k + 1 && cv[before[k as int]].1 == cv[i as int].1);
                    }
                }
                k = k + 1;
            }
        }
        if listed && !seen {
            r.push(i);
            assert(r@.map_values(|x: usize| x as int) =~= before.push(i as int));
        }
        i = i + 1;
    }
    r
}

/// Whether a file with extension `ext` is listed among the compressed
/// imports: its extension is `zip`, in any ASCII case.
pub fn is_zip_extension(ext: Option<&str>) -> (b: bool)
    ensures
        b == (ext matches Some(e) && eq_ignore_ascii_case(e@, "zip"@)),
{
    match ext {
        None => false,
        Some(e) => eq_ignore_ascii_case_exec(e, "zip"),
    }
}

/// One entry met by the walk of a takeout's source.
#[derive(Debug, Clone)]
pub struct TakeoutEntry {
    pub is_dir: bool,
    pub is_file: bool,
    /// Its extension, when it has one that is UTF-8.
    pub extension: Option<String>,
}

/// What a takeout does with one entry of its source.
#[derive(Debug, Clone, Copy, PartialEq, Eq, Structural)]
pub enum TakeoutAction {
    /// Create the matching folder.
    MakeDir,
    /// Copy the file.
    Copy,
    /// Leave out the file: it belongs to a SQLite database.
    Strip,
    /// Neither a folder nor a file: nothing.
    Skip,
}

/// The action for one entry.
pub open spec fn takeout_action(e: TakeoutEntry) -> TakeoutAction {
    if e.is_dir {
        TakeoutAction::MakeDir
    } else if e.is_file {
        if e.extension matches Some(x) && is_sqlite_family(lowercase(x@)) {
            TakeoutAction::Strip
        } else {
            TakeoutAction::Copy
        }
    } else {
        TakeoutAction::Skip
    }
}

/// How many of the first `n` entries get action `a`.
pub open spec fn action_count(es: Seq<TakeoutEntry>, a: TakeoutAction, n: int) -> nat
    decreases n,
{
    if n <= 0 {
        0
    } else {
        action_count(es, a, n - 1) + if takeout_action(es[n - 1]) == a { 1nat } else { 0nat }
    }
}

/// The takeout of a source walked as `entries`: the action for each entry,
/// in order, with the number of files copied and of files left out.
pub fn takeout_plan(entries: &[TakeoutEntry]) -> (r: (Vec<TakeoutAction>, usize, usize))
    ensures
        r.0@.len() == entries@.len(),
        forall|i: int| 0 <= i < entries@.len() ==> r.0@[i] == takeout_action(#[trigger] entries@[i]),
        r.1 as nat == action_count(entries@, TakeoutAction::Copy, entries@.len() as int),
        r.2 as nat == action_count(entries@, TakeoutAction::Strip, entries@.len() as int),
{
    let mut actions: Vec<TakeoutAction> = Vec::new();
    let mut copied: usize = 0;
    let mut stripped: usize = 0;
    let mut i: usize = 0;
    while i < entries.len()
        invariant
            i <= entries@.len(),
            actions@.len() == i,
            forall|k: int| 0 <= k < i ==> actions@[k] == takeout_action(#[trigger] entries@[k]),
            copied as nat == action_count(entries@, TakeoutAction::Copy, i as int),
            stripped as nat == action_count(entries@, TakeoutAction::Strip, i as int),
            copied + stripped <= i,
        decreases entries@.len() - i,
    {
        let e = &entries[i];
        let a = if e.is_dir {
            TakeoutAction::MakeDir
        } else if e.is_file {
            let ext = match &e.extension {
                Some(x) => Some(x.as_str()),
                None => None,
            };
            if is_stripped_in_takeout(ext) {
                TakeoutAction::Strip
            } else {
                TakeoutAction::Copy
            }
        } else {
            TakeoutAction::Skip
        };
        assert(a == takeout_action(entries@[i as int]));
        match a {
            TakeoutAction::Copy => {
                copied = copied + 1;
            },
            TakeoutAction::Strip => {
                stripped = stripped + 1;
            },
            _ => {},
        }
        actions.push(a);
        i = i + 1;
    }
    (actions, copied, stripped)
}

} // verus!
