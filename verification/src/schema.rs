//! The schema explorer's tree: one node per table, with a lazily loaded
//! column list and an expansion flag, and the flattened view used for
//! display and selection.
//!
//! A collapsed node contributes one row to the flattened view; an expanded
//! node contributes one row per loaded column besides its own. Resolving a
//! flat selection back to a node walks the node list once, and only a
//! selection on a node's own row resolves.

use vstd::prelude::*;
use vstd::pervasive::VecAdditionalExecFns;
use crate::grid::clone_string_vec;
use crate::value::Backend;

verus! {

/// One table of the schema tree: its name, its column names once loaded,
/// and whether it is shown expanded.
#[derive(Clone, Debug)]
pub struct TableInfo {
    pub name: String,
    pub fields: Option<Vec<String>>,
    pub expanded: bool,
}

/// The mathematical shape of one table node.
#[verifier::ext_equal]
pub struct TableModel {
    pub name: Seq<char>,
    pub fields: Option<Seq<Seq<char>>>,
    pub expanded: bool,
}

impl View for TableInfo {
    type V = TableModel;

    open spec fn view(&self) -> TableModel {
        TableModel {
            name: self.name@,
            fields: match self.fields {
                Some(f) => Some(f.deep_view()),
                None => None,
            },
            expanded: self.expanded,
        }
    }
}

impl DeepView for TableInfo {
    type V = TableModel;

    open spec fn deep_view(&self) -> TableModel {
        self.view()
    }
}

/// How many flattened rows one node contributes.
pub open spec fn node_rows(t: TableModel) -> nat {
    1 + (if t.expanded && t.fields is Some {
        t.fields->0.len()
    } else {
        0
    })
}

/// How many flattened rows the whole tree contributes.
pub open spec fn flat_count(ts: Seq<TableModel>) -> nat
    decreases ts.len(),
{
    if ts.len() == 0 {
        0
    } else {
        node_rows(ts[0]) + flat_count(ts.drop_first())
    }
}

/// The node whose own row sits at flat position `sel`, if `sel` is on a
/// node's own row and not on a column row.
pub open spec fn resolve_flat(ts: Seq<TableModel>, sel: int) -> Option<int>
    decreases ts.len(),
{
    if ts.len() == 0 {
        None
    } else if sel == 0 {
        Some(0int)
    } else if sel < node_rows(ts[0]) {
        None
    } else {
        match resolve_flat(ts.drop_first(), sel - node_rows(ts[0])) {
            Some(k) => Some(k + 1),
            None => None,
        }
    }
}

/// A resolved node index names a node.
pub proof fn lemma_resolve_in_range(ts: Seq<TableModel>, sel: int)
    ensures
        resolve_flat(ts, sel) matches Some(k) ==> 0 <= k < ts.len(),
    decreases ts.len(),
{
    if ts.len() > 0 && sel != 0 && sel >= node_rows(ts[0]) {
        lemma_resolve_in_range(ts.drop_first(), sel - node_rows(ts[0]));
    }
}

/// Counts the flattened rows, reporting overflow instead of a wrong count.
pub fn flat_count_checked(ts: &Vec<TableInfo>) -> (r: Option<usize>)
    ensures
        r matches Some(n) ==> n as nat == flat_count(ts.deep_view()),
        r is None ==> flat_count(ts.deep_view()) > usize::MAX,
{
    let ghost all = ts.deep_view();
    let mut acc: usize = 0;
    let mut i: usize = 0;
    proof {
        lemma_flat_count_split(all, 0);
    }
    while i < ts.len()
        invariant
            all == ts.deep_view(),
            i <= ts@.len(),
            all.len() == ts@.len(),
            acc as nat == flat_count(all.take(i as int)),
            flat_count(all) == flat_count(all.take(i as int)) + flat_count(all.skip(i as int)),
        decreases ts@.len() - i,
    {
        let ghost rest = all.skip(i as int);
        proof {
            assert(rest[0] == all[i as int]);
            assert(rest.drop_first() =~= all.skip(i as int + 1));
            assert(all.take(i as int + 1).drop_last() =~= all.take(i as int));
            assert(all.take(i as int + 1).last() == all[i as int]);
            lemma_flat_count_snoc(all.take(i as int + 1));
        }
        if acc == usize::MAX {
            proof {
                lemma_flat_count_nonneg(all.skip(i as int + 1));
            }
            return None;
        }
        acc += 1;
        let t = &ts[i];
        if t.expanded {
            if let Some(f) = &t.fields {
                if f.len() > usize::MAX - acc {
                    proof {
                        lemma_flat_count_nonneg(all.skip(i as int + 1));
                    }
                    return None;
                }
                acc += f.len();
            }
        }
        proof {
            assert(ts@[i as int]@ == all[i as int]);
            assert(acc as nat == flat_count(all.take(i as int + 1)));
        }
        i += 1;
    }
    proof {
        assert(all.take(i as int) =~= all);
    }
    Some(acc)
}

proof fn lemma_flat_count_nonneg(ts: Seq<TableModel>)
    ensures
        flat_count(ts) >= 0,
{
}

/// The flattened count of a tree splits at any point.
proof fn lemma_flat_count_split(ts: Seq<TableModel>, i: int)
    requires
        0 <= i <= ts.len(),
    ensures
        flat_count(ts) == flat_count(ts.take(i)) + flat_count(ts.skip(i)),
    decreases i,
{
    if i == 0 {
        assert(ts.take(0) =~= Seq::<TableModel>::empty());
        assert(ts.skip(0) =~= ts);
    } else {
        lemma_flat_count_split(ts, i - 1);
        lemma_flat_count_snoc(ts.take(i));
        assert(ts.take(i).drop_last() =~= ts.take(i - 1));
        assert(ts.skip(i - 1) =~= seq![ts[i - 1]] + ts.skip(i));
        assert(flat_count(seq![ts[i - 1]] + ts.skip(i)) == node_rows(ts[i - 1]) + flat_count(
            ts.skip(i),
        )) by {
            assert((seq![ts[i - 1]] + ts.skip(i)).drop_first() =~= ts.skip(i));
        }
    }
}

/// Appending one node adds its rows to the count.
proof fn lemma_flat_count_snoc(ts: Seq<TableModel>)
    requires
        ts.len() > 0,
    ensures
        flat_count(ts) == flat_count(ts.drop_last()) + node_rows(ts.last()),
    decreases ts.len(),
{
    if ts.len() == 1 {
        assert(ts.drop_last() =~= Seq::<TableModel>::empty());
        assert(ts.drop_first() =~= Seq::<TableModel>::empty());
    } else {
        lemma_flat_count_snoc(ts.drop_first());
        assert(ts.drop_first().drop_last() =~= ts.drop_last().drop_first());
        assert(ts.drop_first().last() == ts.last());
        assert(ts.drop_last()[0] == ts[0]);
    }
}

/// Resolves a flat selection to the node whose own row it names, walking
/// the node list once.
pub fn resolve_selection(ts: &Vec<TableInfo>, sel: usize) -> (r: Option<usize>)
    ensures
        match resolve_flat(ts.deep_view(), sel as int) {
            Some(k) => r matches Some(u) && u as int == k,
            None => r is None,
        },
{
    let ghost all = ts.deep_view();
    let mut rem: usize = sel;
    let mut i: usize = 0;
    proof {
        assert(all.skip(0) =~= all);
    }
    while i < ts.len()
        invariant
            all == ts.deep_view(),
            all.len() == ts@.len(),
            i <= ts@.len(),
            match resolve_flat(all.skip(i as int), rem as int) {
                Some(k) => resolve_flat(all, sel as int) == Some(k + i),
                None => resolve_flat(all, sel as int) is None,
            },
        decreases ts@.len() - i,
    {
        let ghost rest = all.skip(i as int);
        proof {
            assert(rest[0] == all[i as int]);
            assert(rest.drop_first() =~= all.skip(i as int + 1));
            assert(ts@[i as int]@ == all[i as int]);
        }
        if rem == 0 {
            return Some(i);
        }
        let t = &ts[i];
        if t.expanded {
            if let Some(f) = &t.fields {
                if rem <= f.len() {
                    proof {
                        assert((rem as int) < node_rows(rest[0]));
                    }
                    return None;
                }
                rem = rem - 1 - f.len();
            } else {
                rem -= 1;
            }
        } else {
            rem -= 1;
        }
        i += 1;
    }
    proof {
        assert(all.skip(i as int) =~= Seq::<TableModel>::empty());
    }
    None
}

/// What activating the node under the current selection should do.
#[derive(Clone, Copy, Debug, PartialEq, Eq, Structural)]
pub enum ToggleStep {
    NoNode,
    Collapse(usize),
    ExpandCached(usize),
    NeedColumns(usize),
}

/// The decision for activating flat position `sel`: nothing when no node's
/// own row sits there; collapse an expanded node; re-expand from the cache
/// when the columns were already loaded; fetch them otherwise.
pub open spec fn spec_toggle_step(ts: Seq<TableModel>, sel: int) -> ToggleStep {
    match resolve_flat(ts, sel) {
        None => ToggleStep::NoNode,
        Some(k) => if ts[k].expanded {
            ToggleStep::Collapse(k as usize)
        } else if ts[k].fields is Some {
            ToggleStep::ExpandCached(k as usize)
        } else {
            ToggleStep::NeedColumns(k as usize)
        },
    }
}

/// Decides what activating the current selection does.
pub fn toggle_step(ts: &Vec<TableInfo>, sel: usize) -> (r: ToggleStep)
    ensures
        r == spec_toggle_step(ts.deep_view(), sel as int),
{
    proof {
        lemma_resolve_in_range(ts.deep_view(), sel as int);
    }
    match resolve_selection(ts, sel) {
        None => ToggleStep::NoNode,
        Some(k) => {
            proof {
                assert(ts@[k as int]@ == ts.deep_view()[k as int]);
            }
            let t = &ts[k];
            if t.expanded {
                ToggleStep::Collapse(k)
            } else if t.fields.is_some() {
                ToggleStep::ExpandCached(k)
            } else {
                ToggleStep::NeedColumns(k)
            }
        },
    }
}

/// A node with its expansion flag set or cleared, columns kept.
pub open spec fn with_expanded(t: TableModel, e: bool) -> TableModel {
    TableModel { name: t.name, fields: t.fields, expanded: e }
}

/// Collapses the node at `k` without discarding its cached columns, so
/// that re-expanding it is free.
pub fn collapse_node(ts: &mut Vec<TableInfo>, k: usize)
    requires
        k < old(ts)@.len(),
    ensures
        final(ts).deep_view() == old(ts).deep_view().update(
            k as int,
            with_expanded(old(ts).deep_view()[k as int], false),
        ),
        final(ts)@.len() == old(ts)@.len(),
{
    let name = {
        let t = &ts[k];
        t.name.clone()
    };
    let fields = {
        let t = &ts[k];
        match &t.fields {
            Some(f) => Some(clone_string_vec(f)),
            None => None,
        }
    };
    let node = TableInfo { name, fields, expanded: false };
    proof {
        assert(node@ =~~= with_expanded(old(ts).deep_view()[k as int], false));
    }
    ts.set(k, node);
    proof {
        assert(ts.deep_view() =~~= old(ts).deep_view().update(
            k as int,
            with_expanded(old(ts).deep_view()[k as int], false),
        ));
    }
}

/// Expands the node at `k` from its cached columns; no introspection query
/// is needed.
pub fn expand_cached(ts: &mut Vec<TableInfo>, k: usize)
    requires
        k < old(ts)@.len(),
    ensures
        final(ts).deep_view() == old(ts).deep_view().update(
            k as int,
            with_expanded(old(ts).deep_view()[k as int], true),
        ),
        final(ts)@.len() == old(ts)@.len(),
{
    let name = {
        let t = &ts[k];
        t.name.clone()
    };
    let fields = {
        let t = &ts[k];
        match &t.fields {
            Some(f) => Some(clone_string_vec(f)),
            None => None,
        }
    };
    let node = TableInfo { name, fields, expanded: true };
    proof {
        assert(node@ =~~= with_expanded(old(ts).deep_view()[k as int], true));
    }
    ts.set(k, node);
    proof {
        assert(ts.deep_view() =~~= old(ts).deep_view().update(
            k as int,
            with_expanded(old(ts).deep_view()[k as int], true),
        ));
    }
}

/// The node at `k` after an introspection attempt: on success the column
/// names are stored and the node expands; a failure degrades silently and
/// the node is left as it was.
pub open spec fn after_expansion(t: TableModel, cols: Option<Seq<Seq<char>>>) -> TableModel {
    match cols {
        Some(cs) => TableModel { name: t.name, fields: Some(cs), expanded: true },
        None => t,
    }
}

/// Stores the outcome of the column-introspection query for the node at
/// `k`: loaded columns expand the node; a failed introspection leaves it
/// collapsed with no columns, so browsing the other tables goes on.
pub fn finish_expansion(ts: &mut Vec<TableInfo>, k: usize, cols: Option<Vec<String>>)
    requires
        k < old(ts)@.len(),
    ensures
        final(ts).deep_view() == old(ts).deep_view().update(
            k as int,
            after_expansion(
                old(ts).deep_view()[k as int],
                match cols {
                    Some(cs) => Some(cs.deep_view()),
                    None => None,
                },
            ),
        ),
        final(ts)@.len() == old(ts)@.len(),
{
    match cols {
        Some(cs) => {
            let name = {
                let t = &ts[k];
                t.name.clone()
            };
            let node = TableInfo { name, fields: Some(cs), expanded: true };
            proof {
                assert(node@ =~~= after_expansion(
                    old(ts).deep_view()[k as int],
                    Some(cs.deep_view()),
                ));
            }
            ts.set(k, node);
            proof {
                assert(ts.deep_view() =~~= old(ts).deep_view().update(
                    k as int,
                    after_expansion(old(ts).deep_view()[k as int], Some(cs.deep_view())),
                ));
            }
        },
        None => {
            proof {
                assert(ts.deep_view() =~~= old(ts).deep_view().update(
                    k as int,
                    after_expansion(old(ts).deep_view()[k as int], None),
                ));
            }
        },
    }
}

/// The query that lists a backend's tables.
pub open spec fn spec_table_list_query(b: Backend) -> Seq<char> {
    match b {
        Backend::Postgres => "SELECT table_name FROM information_schema.tables WHERE table_schema = 'public'"@,
        Backend::MySql => "SHOW TABLES"@,
        Backend::Sqlite => "SELECT name FROM sqlite_master WHERE type='table'"@,
    }
}

/// The backend-specific query that lists all tables.
pub fn table_list_query(b: Backend) -> (r: &'static str)
    ensures
        r@ == spec_table_list_query(b),
{
    match b {
        Backend::Postgres => "SELECT table_name FROM information_schema.tables WHERE table_schema = 'public'",
        Backend::MySql => "SHOW TABLES",
        Backend::Sqlite => "SELECT name FROM sqlite_master WHERE type='table'",
    }
}

/// The query that lists one table's columns.
pub open spec fn spec_column_query(b: Backend, table: Seq<char>) -> Seq<char> {
    match b {
        Backend::Postgres => "SELECT column_name FROM information_schema.columns WHERE table_name = '"@
            + table + "'"@,
        Backend::MySql => "DESCRIBE "@ + table,
        Backend::Sqlite => "PRAGMA table_info("@ + table + ")"@,
    }
}

/// Builds the backend-specific column-introspection query for one table.
pub fn column_query(b: Backend, table: &str) -> (r: String)
    ensures
        r@ == spec_column_query(b, table@),
{
    match b {
        Backend::Postgres => {
            let mut out = String::new();
            out.append("SELECT column_name FROM information_schema.columns WHERE table_name = '");
            out.append(table);
            out.append("'");
            assert(out@ =~= spec_column_query(b, table@));
            out
        },
        Backend::MySql => {
            let mut out = String::new();
            out.append("DESCRIBE ");
            out.append(table);
            assert(out@ =~= spec_column_query(b, table@));
            out
        },
        Backend::Sqlite => {
            let mut out = String::new();
            out.append("PRAGMA table_info(");
            out.append(table);
            out.append(")");
            assert(out@ =~= spec_column_query(b, table@));
            out
        },
    }
}

/// At which ordinal the column name sits in one row of the introspection
/// result.
pub fn column_field_index(b: Backend) -> (r: usize)
    ensures
        r == (match b {
            Backend::Postgres => 0usize,
            Backend::MySql => 0usize,
            Backend::Sqlite => 1usize,
        }),
{
    match b {
        Backend::Postgres => 0,
        Backend::MySql => 0,
        Backend::Sqlite => 1,
    }
}

/// Fresh table nodes from the rows of the table-listing query: each row's
/// first cell names one table, columns unloaded, collapsed.
pub fn tables_from_rows(rows: &Vec<Vec<String>>) -> (r: Vec<TableInfo>)
    requires
        forall|i: int| 0 <= i < rows@.len() ==> (#[trigger] rows@[i])@.len() > 0,
    ensures
        r.deep_view().len() == rows@.len(),
        forall|i: int|
            0 <= i < rows@.len() ==> #[trigger] r.deep_view()[i] == (TableModel {
                name: rows@[i]@[0]@,
                fields: None,
                expanded: false,
            }),
{
    let mut out: Vec<TableInfo> = Vec::new();
    let mut i: usize = 0;
    while i < rows.len()
        invariant
            i <= rows@.len(),
            forall|k: int| 0 <= k < rows@.len() ==> (#[trigger] rows@[k])@.len() > 0,
            out@.len() == i,
            forall|k: int|
                0 <= k < i ==> #[trigger] out.deep_view()[k] == (TableModel {
                    name: rows@[k]@[0]@,
                    fields: None,
                    expanded: false,
                }),
        decreases rows@.len() - i,
    {
        let row = &rows[i];
        let node = TableInfo { name: row[0].clone(), fields: None, expanded: false };
        let ghost prev = out.deep_view();
        out.push(node);
        proof {
            assert(out.deep_view() =~= prev.push(node@));
            assert(node@ =~~= (TableModel { name: rows@[i as int]@[0]@, fields: None, expanded: false }));
        }
        i += 1;
    }
    out
}

/// The column names in the introspection result: the cell at the
/// backend's ordinal of each row, or an empty name where a row is too
/// short.
pub fn columns_from_rows(rows: &Vec<Vec<String>>, field_index: usize) -> (r: Vec<String>)
    ensures
        r.deep_view().len() == rows@.len(),
        forall|i: int|
            0 <= i < rows@.len() ==> #[trigger] r.deep_view()[i] == (if field_index < rows@[i]@.len() {
                rows@[i]@[field_index as int]@
            } else {
                Seq::<char>::empty()
            }),
{
    let mut out: Vec<String> = Vec::new();
    let mut i: usize = 0;
    while i < rows.len()
        invariant
            i <= rows@.len(),
            out@.len() == i,
            forall|k: int|
                0 <= k < i ==> #[trigger] out.deep_view()[k] == (if field_index < rows@[k]@.len() {
                    rows@[k]@[field_index as int]@
                } else {
                    Seq::<char>::empty()
                }),
        decreases rows@.len() - i,
    {
        let row = &rows[i];
        let cell = if field_index < row.len() {
            row[field_index].clone()
        } else {
            String::new()
        };
        let ghost prev = out.deep_view();
        out.push(cell);
        proof {
            assert(out.deep_view() =~= prev.push(cell@));
        }
        i += 1;
    }
    out
}

/// Collapsing a node keeps its cached columns: the next activation of that
/// node re-expands it from the cache — no second introspection query — and
/// shows exactly the column list the first expansion loaded.
pub proof fn lemma_collapse_then_expand(ts: Seq<TableModel>, k: int, sel: int)
    requires
        0 <= k < ts.len(),
        ts[k].expanded,
        ts[k].fields is Some,
        resolve_flat(ts.update(k, with_expanded(ts[k], false)), sel) == Some(k),
    ensures
        spec_toggle_step(ts.update(k, with_expanded(ts[k], false)), sel)
            == ToggleStep::ExpandCached(k as usize),
        with_expanded(ts.update(k, with_expanded(ts[k], false))[k], true).fields
            == ts[k].fields,
{
}

} // verus!
