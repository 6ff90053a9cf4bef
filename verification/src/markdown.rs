//! The markdown index of endpoints: a table split over numbered files of a
//! fixed number of rows each, and the plain list of endpoint identifiers.
use vstd::prelude::*;
use crate::text::{decimal, push_decimal, append_str, strings_view};

verus! {

/// One endpoint row of the index.
#[derive(Debug, Clone)]
pub struct EndpointRecord {
    pub eid: u64,
    pub eid_string: String,
    pub endpoint_type: String,
    pub request_type: String,
    pub annotation: String,
    pub tags: String,
    pub req_count: u32,
    pub res_count: u32,
}

/// One file of the index: its name and content.
#[derive(Debug, Clone)]
pub struct MarkdownPage {
    pub file_name: String,
    pub content: String,
}

pub const TABLE_HEAD: &'static str = "| EID | EID String | Type | Request Type | Annotation | Tags | Req/Res |\n";
pub const TABLE_RULE: &'static str = "|-----|------------|------|--------------|------------|------|---------|\n";

/// The two header lines of each file.
pub open spec fn md_header() -> Seq<char> {
    TABLE_HEAD@ + TABLE_RULE@
}

/// The table row of one endpoint.
pub open spec fn md_row(r: EndpointRecord) -> Seq<char> {
    "| "@ + decimal(r.eid as nat) + " | "@ + r.eid_string@ + " | "@ + r.endpoint_type@ + " | "@ + r.request_type@
        + " | "@ + r.annotation@ + " | "@ + r.tags@ + " | "@ + decimal(r.req_count as nat) + "/"@
        + decimal(r.res_count as nat) + " |\n"@
}

/// The rows of `recs[lo..hi]`.
pub open spec fn md_rows(recs: Seq<EndpointRecord>, lo: int, hi: int) -> Seq<char>
    decreases hi - lo,
{
    if hi <= lo {
        seq![]
    } else {
        md_rows(recs, lo, hi - 1) + md_row(recs[hi - 1])
    }
}

/// `n` written with at least three digits (`{:03}`).
pub open spec fn zero_pad3(n: nat) -> Seq<char> {
    if n < 10 {
        "00"@ + decimal(n)
    } else if n < 100 {
        "0"@ + decimal(n)
    } else {
        decimal(n)
    }
}

/// The name of the `i`-th file (from 1).
pub open spec fn page_name(i: nat) -> Seq<char> {
    "endpoints-"@ + zero_pad3(i) + ".md"@
}

/// How many files an index of `n` rows, `per` to a file, has: always at
/// least one; everything in one file when `per` is 0.
pub open spec fn page_count(n: nat, per: nat) -> nat {
    if n == 0 || per == 0 {
        1
    } else {
        ((n - 1) / (per as int) + 1) as nat
    }
}

pub open spec fn min(a: int, b: int) -> int {
    if a < b { a } else { b }
}

/// The rows of file `p` (from 0): `per` at a time.
pub open spec fn page_rows(n: int, per: int, p: int) -> (int, int) {
    if per == 0 {
        (0, n)
    } else {
        (p * per, min((p + 1) * per, n))
    }
}

fn push_row(s: &mut String, r: &EndpointRecord)
    ensures
        final(s)@ == old(s)@ + md_row(*r),
{
    append_str(s, "| ");
    push_decimal(s, r.eid as u128);
    append_str(s, " | ");
    append_str(s, r.eid_string.as_str());
    append_str(s, " | ");
    append_str(s, r.endpoint_type.as_str());
    append_str(s, " | ");
    append_str(s, r.request_type.as_str());
    append_str(s, " | ");
    append_str(s, r.annotation.as_str());
    append_str(s, " | ");
    append_str(s, r.tags.as_str());
    append_str(s, " | ");
    push_decimal(s, r.req_count as u128);
    append_str(s, "/");
    push_decimal(s, r.res_count as u128);
    append_str(s, " |\n");
    assert(s@ =~= old(s)@ + md_row(*r));
}

fn page_name_of(i: usize) -> (s: String)
    ensures
        s@ == page_name(i as nat),
{
    let mut s = String::new();
    append_str(&mut s, "endpoints-");
    if i < 10 {
        append_str(&mut s, "00");
    } else if i < 100 {
        append_str(&mut s, "0");
    }
    push_decimal(&mut s, i as u128);
    append_str(&mut s, ".md");
    assert(s@ =~= page_name(i as nat));
    s
}

fn new_page_content() -> (s: String)
    ensures
        s@ == md_header(),
{
    let mut s = String::new();
    append_str(&mut s, TABLE_HEAD);
    append_str(&mut s, TABLE_RULE);
    s
}

proof fn lemma_page_boundary(q: int, per: int, k: int)
    by (nonlinear_arith)
    requires
        per > 0,
        q >= 0,
        q * per < k <= q * per + per,
        k % per == 0,
    ensures
        k == q * per + per,
{
}

proof fn lemma_page_count(q: int, per: int, n: int)
    by (nonlinear_arith)
    requires
        per > 0,
        q >= 0,
        q * per < n <= q * per + per,
    ensures
        (n - 1) / per == q,
{
}

/// The files of the index of `recs`, `per_md_file` rows to a file: file
/// `p` (named `endpoints-00{p+1}.md`, three digits at least) holds the two
/// header lines and the rows of its share.
pub fn markdown_pages(per_md_file: usize, recs: &[EndpointRecord]) -> (pages: Vec<MarkdownPage>)
    requires
        per_md_file > 0 || recs@.len() <= 1,
    ensures
        pages@.len() == page_count(recs@.len(), per_md_file as nat),
        forall|p: int| 0 <= p < pages@.len() ==> {
            &&& #[trigger] pages@[p].file_name@ == page_name((p + 1) as nat)
            &&& pages@[p].content@ == md_header() + md_rows(recs@, page_rows(recs@.len() as int, per_md_file as int, p).0,
                page_rows(recs@.len() as int, per_md_file as int, p).1)
        },
{
    let n = recs.len();
    let per = per_md_file;
    let mut pages: Vec<MarkdownPage> = Vec::new();
    let mut content = new_page_content();
    let mut start: usize = 0;
    let mut k: usize = 0;
    assert(md_rows(recs@, 0, 0) =~= seq![]);
    assert(content@ =~= md_header() + md_rows(recs@, 0, 0));
    while k < n
        invariant
            n == recs@.len(),
            per == per_md_file,
            per > 0 || n <= 1,
            k <= n,
            start <= k,
            per > 0 ==> start == pages@.len() * per,
            per > 0 && k > 0 ==> start < k <= start + per,
            per == 0 ==> start == 0 && pages@.len() == 0,
            k == 0 ==> pages@.len() == 0,
            content@ == md_header() + md_rows(recs@, start as int, k as int),
            forall|p: int| 0 <= p < pages@.len() ==> {
                &&& #[trigger] pages@[p].file_name@ == page_name((p + 1) as nat)
                &&& pages@[p].content@ == md_header() + md_rows(recs@, page_rows(n as int, per as int, p).0,
                    page_rows(n as int, per as int, p).1)
            },
        decreases n - k,
    {
        if k > 0 && k % per == 0 {
            proof {
                lemma_page_boundary(pages@.len() as int, per as int, k as int);
                let q = pages@.len() as int;
                assert((q + 1) * per == q * per + per) by (nonlinear_arith);
                assert(page_rows(n as int, per as int, q) == (start as int, k as int));
                assert(q <= q * per) by (nonlinear_arith)
                    requires
                        q >= 0,
                        per >= 1,
                ;
            }
            let name = page_name_of(pages.len() + 1);
            let finished = MarkdownPage { file_name: name, content };
            pages.push(finished);
            content = new_page_content();
            start = k;
            assert(md_rows(recs@, start as int, k as int) =~= seq![]);
            assert(content@ =~= md_header() + md_rows(recs@, start as int, k as int));
            proof {
                assert(start == pages@.len() * per) by (nonlinear_arith)
                    requires
                        start == (pages@.len() - 1) * per + per,
                ;
            }
        }
        proof {
            if per > 0 && k > 0 && start < k && (k as int) % (per as int) != 0 {
                let q = pages@.len() as int;
                assert((q * per + per) % (per as int) == 0) by (nonlinear_arith)
                    requires
                        per >= 1,
                ;
                assert(k < start + per);
            }
        }
        push_row(&mut content, &recs[k]);
        assert(content@ =~= md_header() + md_rows(recs@, start as int, k + 1));
        k += 1;
    }
    proof {
        let q = pages@.len() as int;
        if per > 0 && n > 0 {
            lemma_page_count(q, per as int, n as int);
            assert((q + 1) * per == q * per + per) by (nonlinear_arith);
            assert(page_rows(n as int, per as int, q) == (start as int, n as int));
        }
        if per > 0 {
            assert(q <= q * per) by (nonlinear_arith)
                requires
                    q >= 0,
                    per >= 1,
            ;
        }
    }
    let last = MarkdownPage { file_name: page_name_of(pages.len() + 1), content };
    pages.push(last);
    pages
}

/// The list of endpoint identifiers: one `- ` line each.
pub open spec fn meta_lines(eids: Seq<Seq<char>>) -> Seq<char>
    decreases eids.len(),
{
    if eids.len() == 0 {
        seq![]
    } else {
        meta_lines(eids.drop_last()) + "- "@ + eids.last() + "\n"@
    }
}

/// The content of the identifier list (`meta_lines`).
pub fn markdown_meta(eids: &[String]) -> (s: String)
    ensures
        s@ == meta_lines(strings_view(eids@)),
{
    let ghost all = strings_view(eids@);
    let mut s = String::new();
    let mut i: usize = 0;
    assert(all.take(0) =~= seq![]);
    while i < eids.len()
        invariant
            i <= eids@.len(),
            all == strings_view(eids@),
            s@ == meta_lines(all.take(i as int)),
        decreases eids@.len() - i,
    {
        append_str(&mut s, "- ");
        append_str(&mut s, eids[i].as_str());
        append_str(&mut s, "\n");
        assert(all.take(i + 1).drop_last() =~= all.take(i as int));
        assert(s@ =~= meta_lines(all.take(i + 1)));
        i += 1;
    }
    assert(all.take(eids@.len() as int) =~= all);
    s
}

} // verus!
