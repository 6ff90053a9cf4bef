//! Exporting a bookmark collection: its endpoints, read from the central
//! database, and the markdown summary returned at once while the archive
//! is packed in the background.
use vstd::prelude::*;
use crate::text::{concat, append_str};
use crate::store::{EdmsCore, EdmsResult, Reply, extends, lemma_extends_trans, is_unknown, stmt, text, args_view, SqlValue};
use crate::queries::QueryMap;
use crate::db::{
    EndpointDto, dtos_view, endpoints_for_ids, folder_list_stmt, found_endpoints, lookups_logged,
};

verus! {

/// The endpoints bookmarked in `collection`, most recent first: the
/// folder's identifiers, then one `E2` lookup per identifier (identifiers
/// without an endpoint are skipped).
pub fn collection_endpoints(core: &mut EdmsCore, queries: &QueryMap, collection: &str) -> (r: EdmsResult<Vec<EndpointDto>>)
    ensures
        final(core).path() == old(core).path(),
        final(core).is_connected() == old(core).is_connected(),
        extends(final(core).journal(), old(core).journal()),
        !old(core).is_connected() ==> old(core).same(*final(core)) && is_unknown(r),
        old(core).is_connected() ==> {
            let j = final(core).journal();
            let s = old(core).journal().len() as int;
            &&& j.len() > s
            &&& j[s].stmt == folder_list_stmt(collection@)
            &&& j[s].reply is Failed ==> r is Err && j.len() == s + 1
            &&& is_unknown(r) <==> (j[s].reply matches Reply::Texts(ids) && ids.len() > 0
                && !queries.endpoints.view().contains_key("E2"@))
            &&& is_unknown(r) ==> j.len() == s + 1
            &&& (r is Err && !is_unknown(r)) ==> j.last().reply is Failed
            &&& r matches Ok(v) ==> (j[s].reply matches Reply::Texts(ids) && {
                ||| ids.len() == 0 && j.len() == s + 1 && v@.len() == 0
                ||| ids.len() > 0 && lookups_logged(j, s + 1, queries.endpoints.view()["E2"@], ids)
                    && dtos_view(v@) == found_endpoints(j, s + 1, ids.len() as int)
            })
        },
{
    let ghost j0 = old(core).journal();
    let ghost s = j0.len() as int;
    proof { assert(j0.take(s) =~= j0); }
    let args = vec![SqlValue::Text(collection.to_owned())];
    assert(args_view(args@) =~= seq![text(collection@)]);
    let res = core.query_texts("SELECT endpoint_id FROM bookmarks WHERE folder = ? ORDER BY timestamp DESC", args);
    let ghost j1 = core.journal();
    proof {
        if old(core).is_connected() {
            assert(j1.take(s) =~= j0);
        }
    }
    let ids = match res {
        Ok(v) => v,
        Err(e) => {
            return Err(e);
        },
    };
    let out = endpoints_for_ids(core, queries, ids.as_slice());
    proof {
        let j = core.journal();
        lemma_extends_trans(j0, j1, j);
        assert(j[s] == j.take(j1.len() as int)[s]);
    }
    out
}

/// The markdown line of one endpoint: its identifier, address and, when
/// there is one, annotation.
pub open spec fn export_line(e: (Seq<char>, Seq<char>, Option<Seq<char>>)) -> Seq<char> {
    "- **"@ + e.0 + "**: `"@ + e.1 + "`"@ + match e.2 {
        Some(a) => " — "@ + a,
        None => seq![],
    } + "\n"@
}

/// The lines of `eps[..n]`.
pub open spec fn export_lines(eps: Seq<(Seq<char>, Seq<char>, Option<Seq<char>>)>, n: int) -> Seq<char>
    decreases n,
{
    if n <= 0 {
        seq![]
    } else {
        export_lines(eps, n - 1) + export_line(eps[n - 1])
    }
}

/// The markdown summary of an exported collection.
pub open spec fn export_markdown_spec(collection: Seq<char>, filename: Seq<char>, eps: Seq<(Seq<char>, Seq<char>, Option<Seq<char>>)>) -> Seq<char> {
    "# Export: "@ + collection + "\n\n"@ + "Generated as `"@ + filename + "`\n\n"@ + export_lines(eps, eps.len() as int)
}

/// The markdown summary of an exported collection (`export_markdown_spec`).
pub fn export_markdown(collection: &str, filename: &str, endpoints: &[EndpointDto]) -> (md: String)
    ensures
        md@ == export_markdown_spec(collection@, filename@, dtos_view(endpoints@)),
{
    let ghost eps = dtos_view(endpoints@);
    let mut md = concat("# Export: ", collection);
    append_str(&mut md, "\n\n");
    append_str(&mut md, "Generated as `");
    append_str(&mut md, filename);
    append_str(&mut md, "`\n\n");
    let ghost head = md@;
    let mut i: usize = 0;
    while i < endpoints.len()
        invariant
            i <= endpoints@.len(),
            eps == dtos_view(endpoints@),
            md@ == head + export_lines(eps, i as int),
        decreases endpoints@.len() - i,
    {
        let ep = &endpoints[i];
        append_str(&mut md, "- **");
        append_str(&mut md, ep.endpoint_id.as_str());
        append_str(&mut md, "**: `");
        append_str(&mut md, ep.endpoint_str.as_str());
        append_str(&mut md, "`");
        match &ep.annotation {
            Some(a) => {
                append_str(&mut md, " — ");
                append_str(&mut md, a.as_str());
            },
            None => {},
        }
        append_str(&mut md, "\n");
        assert(md@ =~= head + export_lines(eps, i + 1));
        i += 1;
    }
    assert(md@ =~= export_markdown_spec(collection@, filename@, eps));
    md
}

} // verus!
