//! The dashboard's views of stored data: the CRUD breakdown grouped by
//! entity type with each row's total, and the answer for a day that has no
//! snapshot.
use vstd::prelude::*;
use crate::text::{append_str, concat, text_le, text_le_exec, str_eq};
use crate::api::{CrudOperationsRowOut, crud_rows_view};

verus! {

/// The entity types of `rows[..n]`, each once, in order of first appearance.
pub open spec fn entity_list(rows: Seq<(Seq<char>, Seq<char>, int)>, n: int) -> Seq<Seq<char>>
    decreases n,
{
    if n <= 0 {
        seq![]
    } else {
        let before = entity_list(rows, n - 1);
        if before.contains(rows[n - 1].0) { before } else { before.push(rows[n - 1].0) }
    }
}

/// The (method, count) cells of entity `e` among `rows[..n]`, in order.
pub open spec fn entity_cells(rows: Seq<(Seq<char>, Seq<char>, int)>, e: Seq<char>, n: int) -> Seq<(Seq<char>, int)>
    decreases n,
{
    if n <= 0 {
        seq![]
    } else if rows[n - 1].0 == e {
        entity_cells(rows, e, n - 1).push((rows[n - 1].1, rows[n - 1].2))
    } else {
        entity_cells(rows, e, n - 1)
    }
}

/// The sum of the counts of entity `e` among `rows[..n]`.
pub open spec fn entity_total(rows: Seq<(Seq<char>, Seq<char>, int)>, e: Seq<char>, n: int) -> int
    decreases n,
{
    if n <= 0 {
        0
    } else if rows[n - 1].0 == e {
        entity_total(rows, e, n - 1) + rows[n - 1].2
    } else {
        entity_total(rows, e, n - 1)
    }
}

/// One row of the grouped breakdown.
#[derive(Debug, Clone)]
pub struct CrudGroup {
    pub entity_type: String,
    pub cells: Vec<(String, i64)>,
    pub total: i64,
}

pub open spec fn cells_view(v: Seq<(String, i64)>) -> Seq<(Seq<char>, int)> {
    v.map_values(|c: (String, i64)| (c.0@, c.1 as int))
}

/// Every running total of every entity fits in an `i64`.
pub open spec fn totals_fit(rows: Seq<(Seq<char>, Seq<char>, int)>) -> bool {
    forall|k: int, n: int| 0 <= k < rows.len() && 0 <= n <= rows.len()
        ==> i64::MIN <= #[trigger] entity_total(rows, rows[k].0, n) <= i64::MAX
}

proof fn lemma_absent_entity(rows: Seq<(Seq<char>, Seq<char>, int)>, e: Seq<char>, n: int)
    requires
        0 <= n <= rows.len(),
        !entity_list(rows, n).contains(e),
    ensures
        entity_cells(rows, e, n) == Seq::<(Seq<char>, int)>::empty(),
        entity_total(rows, e, n) == 0,
    decreases n,
{
    if n > 0 {
        let before = entity_list(rows, n - 1);
        if before.contains(e) {
            let k = choose|k: int| 0 <= k < before.len() && before[k] == e;
            if !before.contains(rows[n - 1].0) {
                assert(before.push(rows[n - 1].0)[k] == e);
            }
        }
        if rows[n - 1].0 == e {
            if before.contains(rows[n - 1].0) {
            } else {
                assert(before.push(rows[n - 1].0)[before.len() as int] == e);
            }
        }
        lemma_absent_entity(rows, e, n - 1);
    }
}

proof fn lemma_entity_list_distinct(rows: Seq<(Seq<char>, Seq<char>, int)>, n: int)
    requires
        0 <= n <= rows.len(),
    ensures
        entity_list(rows, n).no_duplicates(),
    decreases n,
{
    if n > 0 {
        lemma_entity_list_distinct(rows, n - 1);
    }
}

/// The breakdown grouped by entity type, in order of first appearance:
/// each entity's (method, count) cells in row order, and their total.
pub fn group_crud_rows(rows: &[CrudOperationsRowOut]) -> (g: Vec<CrudGroup>)
    requires
        totals_fit(crud_rows_view(rows@)),
    ensures
        g@.len() == entity_list(crud_rows_view(rows@), rows@.len() as int).len(),
        forall|i: int| 0 <= i < g@.len() ==> {
            let e = #[trigger] entity_list(crud_rows_view(rows@), rows@.len() as int)[i];
            &&& g@[i].entity_type@ == e
            &&& cells_view(g@[i].cells@) == entity_cells(crud_rows_view(rows@), e, rows@.len() as int)
            &&& g@[i].total as int == entity_total(crud_rows_view(rows@), e, rows@.len() as int)
        },
{
    let ghost rv = crud_rows_view(rows@);
    let mut g: Vec<CrudGroup> = Vec::new();
    let mut i: usize = 0;
    while i < rows.len()
        invariant
            i <= rows@.len(),
            rv == crud_rows_view(rows@),
            totals_fit(rv),
            g@.len() == entity_list(rv, i as int).len(),
            forall|q: int| 0 <= q < g@.len() ==> {
                let e = #[trigger] entity_list(rv, i as int)[q];
                &&& g@[q].entity_type@ == e
                &&& cells_view(g@[q].cells@) == entity_cells(rv, e, i as int)
                &&& g@[q].total as int == entity_total(rv, e, i as int)
            },
        decreases rows@.len() - i,
    {
        let ghost list = entity_list(rv, i as int);
        proof { lemma_entity_list_distinct(rv, i as int); }
        let row = &rows[i];
        assert(rv[i as int] == (row.entity_type@, row.method@, row.count as int));
        let mut found: usize = g.len();
        let mut k: usize = 0;
        while k < g.len()
            invariant_except_break
                found == g@.len(),
                forall|q: int| 0 <= q < k ==> list[q] != row.entity_type@,
            invariant
                k <= g@.len(),
                g@.len() == list.len(),
                forall|q: int| 0 <= q < g@.len() ==> #[trigger] g@[q].entity_type@ == list[q],
            ensures
                found < g@.len() ==> list[found as int] == row.entity_type@,
                found >= g@.len() ==> forall|q: int| 0 <= q < g@.len() ==> list[q] != row.entity_type@,
            decreases g@.len() - k,
        {
            if str_eq(g[k].entity_type.as_str(), row.entity_type.as_str()) {
                found = k;
                break;
            }
            k = k + 1;
        }
        let ghost e = row.entity_type@;
        if found < g.len() {
            assert(list[found as int] == e);
            assert(list.contains(e));
            assert(entity_list(rv, i + 1) == list);
            proof {
                assert(0 <= i < rv.len());
                assert(entity_total(rv, rv[i as int].0, i + 1) == entity_total(rv, e, i + 1));
            }
            let mut grp = g.remove(found);
            grp.cells.push((row.method.clone(), row.count));
            grp.total = grp.total + row.count;
            g.insert(found, grp);
            assert forall|q: int| 0 <= q < g@.len() implies {
                let e2 = #[trigger] entity_list(rv, i + 1)[q];
                &&& g@[q].entity_type@ == e2
                &&& cells_view(g@[q].cells@) == entity_cells(rv, e2, i + 1)
                &&& g@[q].total as int == entity_total(rv, e2, i + 1)
            } by {
                if q == found as int {
                    assert(cells_view(g@[q].cells@) =~= entity_cells(rv, e, i as int).push((row.method@, row.count as int)));
                } else {
                    assert(list[q] != list[found as int]);
                }
            }
        } else {
            assert(!list.contains(e)) by {
                if list.contains(e) {
                    let q = choose|q: int| 0 <= q < list.len() && list[q] == e;
                }
            }
            proof {
                lemma_absent_entity(rv, e, i as int);
                assert(0 <= i < rv.len());
                assert(entity_total(rv, rv[i as int].0, i + 1) == entity_total(rv, e, i + 1));
            }
            let mut cells: Vec<(String, i64)> = Vec::new();
            cells.push((row.method.clone(), row.count));
            g.push(CrudGroup { entity_type: row.entity_type.clone(), cells, total: row.count });
            assert(entity_list(rv, i + 1) == list.push(e));
            assert forall|q: int| 0 <= q < g@.len() implies {
                let e2 = #[trigger] entity_list(rv, i + 1)[q];
                &&& g@[q].entity_type@ == e2
                &&& cells_view(g@[q].cells@) == entity_cells(rv, e2, i + 1)
                &&& g@[q].total as int == entity_total(rv, e2, i + 1)
            } by {
                if q == list.len() {
                    assert(cells_view(g@[q].cells@) =~= seq![(row.method@, row.count as int)]);
                    assert(entity_cells(rv, e, i + 1) =~= seq![(row.method@, row.count as int)]);
                } else {
                    assert(list[q] != e);
                    assert(entity_list(rv, i + 1)[q] == list[q]);
                }
            }
        }
        i = i + 1;
    }
    g
}

/// The answer for a day without a snapshot: a day before `cutoff` (the
/// first day still kept) is outside the retention window; a later one has
/// no data yet.
pub open spec fn missing_snapshot_message_spec(date: Seq<char>, cutoff: Seq<char>) -> Seq<char> {
    if text_le(date, cutoff) && date != cutoff {
        "no snapshot for "@ + date + " — outside the 30-day retention window"@
    } else {
        "no snapshot for "@ + date + " yet"@
    }
}

/// `missing_snapshot_message_spec`; dates are compared as strings.
pub fn missing_snapshot_message(date: &str, cutoff: &str) -> (m: String)
    ensures
        m@ == missing_snapshot_message_spec(date@, cutoff@),
{
    let mut m = concat("no snapshot for ", date);
    if text_le_exec(date, cutoff) && !str_eq(date, cutoff) {
        append_str(&mut m, " — outside the 30-day retention window");
    } else {
        append_str(&mut m, " yet");
    }
    m
}

} // verus!
