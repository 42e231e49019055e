//! What statements do to tables, and what operations come to.
//!
//! A backend is described by how it reads values and conditions; what each
//! statement makes of the rows of its table follows from that. An operation is
//! held against this: what it runs leaves the tables as its name says, and
//! what it answers is true of them.

use vstd::prelude::*;

use crate::database::exec::batch;
use crate::database::exec::batch::{OpPending, OpPlan, Planned};
use crate::database::exec::guarded;
use crate::database::exec::ops;
use crate::database::exec::ops::{Outcome, Pending, Plan, Reading, Reply, Request, Settled, Work};
use crate::database::exec::prepare::{Need, Prepared};
use crate::database::exec::rows;
use crate::database::exec::statement::{BatchResult, BatchStatement, Statement, TxResult, TxStatement};
use crate::database::exec::upsert;
use crate::database::filter;
use crate::database::filter::{Filter, FilterTree, FilterView, SortField};
use crate::database::service::{
    CapGuard,
    CapGuardView,
    DatabaseError,
    Record,
    UpsertConflict,
    UpsertSpec,
    WriteOp,
};
use crate::double::Double;
use crate::json;
use crate::json::{Json, JsonView};
use crate::row;
use crate::text;

verus! {

/// How a backend reads what it holds.
pub struct Backend {
    /// Whether a row is the one of an id.
    pub is_id: spec_fn(Map<Seq<char>, JsonView>, Seq<char>) -> bool,
    /// Whether a row meets all of the conditions.
    pub meets: spec_fn(Seq<FilterView>, Map<Seq<char>, JsonView>) -> bool,
    /// Whether a row passes a tree of conditions; where there is none, it does.
    pub passes: spec_fn(Option<Vec<FilterTree>>, Map<Seq<char>, JsonView>) -> bool,
    /// The number that a value counts as in a sum.
    pub worth: spec_fn(JsonView) -> int,
    /// Whether a real number is given out for a sum.
    pub stands_for: spec_fn(Double, int) -> bool,
    /// A value that a number was added to.
    pub added: spec_fn(JsonView, int) -> JsonView,
    /// Whether a window that began at a value had ended by a time.
    pub ended: spec_fn(JsonView, int) -> bool,
    /// The time at which statements are run.
    pub stamp: JsonView,
}

/// The value of a column; null where the row has none.
pub open spec fn cell(r: Map<Seq<char>, JsonView>, column: Seq<char>) -> JsonView {
    if r.dom().contains(column) {
        r[column]
    } else {
        JsonView::Null
    }
}

/// The row that columns with values make.
pub open spec fn row_of(pairs: Seq<(String, Json)>) -> Map<Seq<char>, JsonView> {
    row::entries_map(json::entry_views(pairs))
}

/// The rows of which something holds.
pub open spec fn those(
    all: Seq<Map<Seq<char>, JsonView>>,
    which: spec_fn(Map<Seq<char>, JsonView>) -> bool,
) -> Seq<Map<Seq<char>, JsonView>> {
    all.filter(which)
}

/// The rows of which something does not hold.
pub open spec fn the_others(
    all: Seq<Map<Seq<char>, JsonView>>,
    which: spec_fn(Map<Seq<char>, JsonView>) -> bool,
) -> Seq<Map<Seq<char>, JsonView>> {
    all.filter(|r: Map<Seq<char>, JsonView>| !which(r))
}

/// The rows, each of which something holds with these columns set.
pub open spec fn with_set(
    all: Seq<Map<Seq<char>, JsonView>>,
    which: spec_fn(Map<Seq<char>, JsonView>) -> bool,
    columns: Map<Seq<char>, JsonView>,
) -> Seq<Map<Seq<char>, JsonView>> {
    all.map_values(
        |r: Map<Seq<char>, JsonView>|
            if which(r) {
                r.union_prefer_right(columns)
            } else {
                r
            },
    )
}

/// A row is the one of the id.
pub open spec fn of_id(b: Backend, id: Seq<char>) -> spec_fn(Map<Seq<char>, JsonView>) -> bool {
    |r: Map<Seq<char>, JsonView>| (b.is_id)(r, id)
}

/// A row meets the filters.
pub open spec fn meeting(b: Backend, filters: Seq<Filter>) -> spec_fn(
    Map<Seq<char>, JsonView>,
) -> bool {
    |r: Map<Seq<char>, JsonView>| (b.meets)(text::views(filters), r)
}

/// What a column adds up to over rows.
pub open spec fn total(
    b: Backend,
    all: Seq<Map<Seq<char>, JsonView>>,
    field: Seq<char>,
) -> int
    decreases all.len(),
{
    if all.len() == 0 {
        0
    } else {
        total(b, all.drop_last(), field) + (b.worth)(cell(all.last(), field))
    }
}

/// A guard holds of the rows of its table.
pub open spec fn holds(b: Backend, g: CapGuardView, all: Seq<Map<Seq<char>, JsonView>>) -> bool {
    match g {
        CapGuardView::CountBelow { filters, cap } => those(
            all,
            |r: Map<Seq<char>, JsonView>| (b.meets)(filters, r),
        ).len() < cap,
        CapGuardView::SumAtMost { field, filters, add, cap } => total(
            b,
            those(all, |r: Map<Seq<char>, JsonView>| (b.meets)(filters, r)),
            field,
        ) + add <= cap,
    }
}

/// All guards hold.
pub open spec fn all_hold(
    b: Backend,
    guards: Seq<CapGuardView>,
    all: Seq<Map<Seq<char>, JsonView>>,
) -> bool {
    forall|i: int| 0 <= i < guards.len() ==> holds(b, #[trigger] guards[i], all)
}

/// Two rows have a value for each of the columns, and the same.
pub open spec fn agrees(
    r: Map<Seq<char>, JsonView>,
    data: Map<Seq<char>, JsonView>,
    columns: Seq<Seq<char>>,
) -> bool {
    forall|c: Seq<char>| #[trigger]
        columns.contains(c) ==> r.dom().contains(c) && data.dom().contains(c) && r[c] == data[c]
}

/// The row with those of the columns that `data` has set to its values.
pub open spec fn taking(
    r: Map<Seq<char>, JsonView>,
    data: Map<Seq<char>, JsonView>,
    columns: Seq<Seq<char>>,
) -> Map<Seq<char>, JsonView> {
    Map::new(
        |c: Seq<char>| r.dom().contains(c) || (columns.contains(c) && data.dom().contains(c)),
        |c: Seq<char>|
            if columns.contains(c) && data.dom().contains(c) {
                data[c]
            } else {
                r[c]
            },
    )
}

/// Some row agrees with `data` on the columns.
pub open spec fn some_agrees(
    all: Seq<Map<Seq<char>, JsonView>>,
    data: Map<Seq<char>, JsonView>,
    columns: Seq<Seq<char>>,
) -> bool {
    exists|i: int| 0 <= i < all.len() && agrees(#[trigger] all[i], data, columns)
}

/// The row with each of the columns set to one value.
pub open spec fn stamped(
    r: Map<Seq<char>, JsonView>,
    columns: Seq<Seq<char>>,
    value: JsonView,
) -> Map<Seq<char>, JsonView> {
    Map::new(
        |c: Seq<char>| r.dom().contains(c) || columns.contains(c),
        |c: Seq<char>|
            if columns.contains(c) {
                value
            } else {
                r[c]
            },
    )
}

/// A counter's row, counted once more at `now`: it starts again where its
/// window has ended.
pub open spec fn counted(
    b: Backend,
    r: Map<Seq<char>, JsonView>,
    count: Seq<char>,
    window: Seq<char>,
    updated: Seq<Seq<char>>,
    now: int,
    cutoff: int,
) -> Map<Seq<char>, JsonView> {
    let fresh = stamped(r, updated, b.stamp);
    if (b.ended)(cell(r, window), cutoff) {
        fresh.insert(window, JsonView::Int(now as i64)).insert(count, JsonView::Int(1))
    } else {
        fresh.insert(count, (b.added)(cell(r, count), 1))
    }
}

/// A counter's first row.
pub open spec fn first_counted(
    b: Backend,
    id: Seq<char>,
    column: Seq<char>,
    key: Seq<char>,
    count: Seq<char>,
    window: Seq<char>,
    stamps: Seq<Seq<char>>,
    now: int,
) -> Map<Seq<char>, JsonView> {
    stamped(Map::empty(), stamps, b.stamp).insert(window, JsonView::Int(now as i64)).insert(
        count,
        JsonView::Int(1),
    ).insert(column, JsonView::Str(key)).insert("id"@, JsonView::Str(id))
}

/// A row holds this text in this column.
pub open spec fn has_text(
    r: Map<Seq<char>, JsonView>,
    column: Seq<char>,
    content: Seq<char>,
) -> bool {
    r.dom().contains(column) && r[column] == JsonView::Str(content)
}

/// Some row holds this text in this column.
pub open spec fn some_has_text(
    all: Seq<Map<Seq<char>, JsonView>>,
    column: Seq<char>,
    content: Seq<char>,
) -> bool {
    exists|i: int| 0 <= i < all.len() && has_text(#[trigger] all[i], column, content)
}

/// The table a statement is on.
pub open spec fn table_of(s: Statement) -> Seq<char> {
    match s {
        Statement::SelectById { table, .. } => table@,
        Statement::Select { table, .. } => table@,
        Statement::Count { table, .. } => table@,
        Statement::Sum { table, .. } => table@,
        Statement::Insert { table, .. } => table@,
        Statement::InsertReturning { table, .. } => table@,
        Statement::UpdateById { table, .. } => table@,
        Statement::UpdateByIdReturning { table, .. } => table@,
        Statement::DeleteById { table, .. } => table@,
        Statement::UpdateWhere { table, .. } => table@,
        Statement::DeleteWhere { table, .. } => table@,
        Statement::DeleteWhereReturning { table, .. } => table@,
        Statement::Increment { table, .. } => table@,
        Statement::Upsert { table, .. } => table@,
        Statement::WindowedCounter { table, .. } => table@,
        Statement::Grouped { query } => query.table@,
        Statement::GuardPreamble { table, .. } => table@,
        Statement::GuardProbe { table, .. } => table@,
        Statement::InsertGuarded { table, .. } => table@,
        Statement::UpdateGuarded { table, .. } => table@,
        Statement::Raw { .. } => Seq::empty(),
    }
}

/// What a statement makes of the rows of its table. Of a raw statement nothing
/// is said: it is taken to change nothing here.
pub open spec fn after(
    b: Backend,
    s: Statement,
    all: Seq<Map<Seq<char>, JsonView>>,
) -> Seq<Map<Seq<char>, JsonView>> {
    match s {
        Statement::Insert { pairs, .. } => all.push(row_of(pairs@)),
        Statement::InsertReturning { pairs, .. } => all.push(row_of(pairs@)),
        Statement::UpdateById { id, pairs, .. } => with_set(all, of_id(b, id@), row_of(pairs@)),
        Statement::UpdateByIdReturning { id, pairs, .. } => with_set(
            all,
            of_id(b, id@),
            row_of(pairs@),
        ),
        Statement::DeleteById { id, .. } => the_others(all, of_id(b, id@)),
        Statement::UpdateWhere { pairs, filters, .. } => with_set(
            all,
            meeting(b, filters@),
            row_of(pairs@),
        ),
        Statement::DeleteWhere { filters, .. } => the_others(all, meeting(b, filters@)),
        Statement::DeleteWhereReturning { filters, .. } => the_others(all, meeting(b, filters@)),
        Statement::Increment { column, delta, filters, .. } => all.map_values(
            |r: Map<Seq<char>, JsonView>|
                if meeting(b, filters@)(r) {
                    r.insert(column@, (b.added)(cell(r, column@), delta as int))
                } else {
                    r
                },
        ),
        Statement::Upsert { data, conflict, update, .. } => {
            let new = row_of(data@);
            if some_agrees(all, new, text::views(conflict@)) {
                all.map_values(
                    |r: Map<Seq<char>, JsonView>|
                        if agrees(r, new, text::views(conflict@)) {
                            taking(r, new, text::views(update@))
                        } else {
                            r
                        },
                )
            } else {
                all.push(new)
            }
        },
        Statement::WindowedCounter {
            conflict_column,
            id,
            key,
            count_field,
            window_field,
            created_fields,
            updated_fields,
            now,
            window_cutoff,
            ..
        } => if some_has_text(all, conflict_column@, key@) {
            all.map_values(
                |r: Map<Seq<char>, JsonView>|
                    if has_text(r, conflict_column@, key@) {
                        counted(
                            b,
                            r,
                            count_field@,
                            window_field@,
                            text::views(updated_fields@),
                            now as int,
                            window_cutoff as int,
                        )
                    } else {
                        r
                    },
            )
        } else {
            all.push(
                first_counted(
                    b,
                    id@,
                    conflict_column@,
                    key@,
                    count_field@,
                    window_field@,
                    text::views(created_fields@) + text::views(updated_fields@),
                    now as int,
                ),
            )
        },
        Statement::InsertGuarded { pairs, guards, .. } => if all_hold(
            b,
            text::views(guards@),
            all,
        ) {
            all.push(row_of(pairs@))
        } else {
            all
        },
        Statement::UpdateGuarded { pairs, filters, guards, .. } => if all_hold(
            b,
            text::views(guards@),
            all,
        ) {
            with_set(all, meeting(b, filters@), row_of(pairs@))
        } else {
            all
        },
        _ => all,
    }
}

/// The tables after a statement.
pub open spec fn run(
    b: Backend,
    s: Statement,
    db: Map<Seq<char>, Seq<Map<Seq<char>, JsonView>>>,
) -> Map<Seq<char>, Seq<Map<Seq<char>, JsonView>>> {
    db.insert(table_of(s), after(b, s, db[table_of(s)]))
}

// ---------------------------------------------------------------------------
// Upserts
// ---------------------------------------------------------------------------

/// An upsert that sets columns leaves every other table as it is. Where some
/// row of its own agrees with the new one on all conflict columns, no row is
/// added: such a row takes the new values in exactly the columns named to be
/// set, its other columns, those of the conflict among them, stay as they are,
/// and so do the other rows. Where none agrees, the new row is added.
pub proof fn an_upsert_sets_only_the_named_columns(
    b: Backend,
    collection: String,
    spec: UpsertSpec,
    columns: Vec<String>,
    s: Statement,
    db: Map<Seq<char>, Seq<Map<Seq<char>, JsonView>>>,
)
    requires
        upsert::upsert_renders(collection, spec, Ok(s)),
        spec.on_conflict == UpsertConflict::SetColumns(columns),
    ensures
        forall|t: Seq<char>| t != collection@ ==> #[trigger] run(b, s, db)[t] == db[t],
        ({
            let new = row_of(spec.data@);
            let conflict = text::views(spec.conflict_columns@);
            let before = db[collection@];
            let now = run(b, s, db)[collection@];
            if some_agrees(before, new, conflict) {
                &&& now.len() == before.len()
                &&& forall|i: int|
                    0 <= i < before.len() && !agrees(before[i], new, conflict) ==> #[trigger] now[i]
                        == before[i]
                &&& forall|i: int, c: Seq<char>|
                    0 <= i < before.len() && agrees(before[i], new, conflict) && text::views(
                        columns@,
                    ).contains(c) && new.dom().contains(c) ==> #[trigger] now[i].dom().contains(c)
                        && now[i][c] == new[c]
                &&& forall|i: int, c: Seq<char>|
                    0 <= i < before.len() && agrees(before[i], new, conflict) && (!text::views(
                        columns@,
                    ).contains(c) || !new.dom().contains(c) || conflict.contains(c)) ==> (
                    #[trigger] now[i].dom().contains(c) <==> before[i].dom().contains(c)) && (
                    before[i].dom().contains(c) ==> now[i][c] == before[i][c])
            } else {
                now == before.push(new)
            }
        }),
{
}

proof fn lemma_entry_at(data: Seq<(Seq<char>, JsonView)>, name: Seq<char>, from: int)
    requires
        0 <= from,
    ensures
        entry_found(data, name, from),
    decreases data.len() - from,
{
    if from < data.len() && data[from].0 != name {
        lemma_entry_at(data, name, from + 1);
    }
}

spec fn entry_found(data: Seq<(Seq<char>, JsonView)>, name: Seq<char>, from: int) -> bool {
    upsert::entry_at(data, name, from) matches Some(i) ==> from <= i < data.len() && data[i].0
        == name
}

/// The columns of an upsert hold this text under this name.
pub open spec fn gives_text(
    data: Seq<(String, Json)>,
    name: Seq<char>,
    content: Seq<char>,
) -> bool {
    exists|i: int|
        0 <= i < data.len() && (#[trigger] data[i]).0@ == name && data[i].1@ == JsonView::Str(
            content,
        )
}

/// A windowed counter is told apart by the text in its one conflict column.
/// Where no row holds that text, one is added: it has the given id and that
/// text, counts one, its window begins now, and it is stamped in the columns
/// for creation and for change. Where a row holds it, none is added: that row
/// counts one more, or starts again at one, with its window beginning now,
/// where its window has ended; it is stamped in the columns for change, and
/// its other columns, those for creation among them, stay as they are.
pub proof fn a_windowed_counter_counts_within_its_window(
    b: Backend,
    collection: String,
    spec: UpsertSpec,
    count: String,
    window: String,
    now: i64,
    cutoff: i64,
    created: Vec<String>,
    updated: Vec<String>,
    s: Statement,
    db: Map<Seq<char>, Seq<Map<Seq<char>, JsonView>>>,
)
    requires
        upsert::upsert_renders(collection, spec, Ok(s)),
        spec.on_conflict == (UpsertConflict::WindowedCounter {
            count_field: count,
            window_field: window,
            now,
            window_cutoff: cutoff,
            created_fields: created,
            updated_fields: updated,
        }),
        count@ != window@,
    ensures
        spec.conflict_columns@.len() == 1,
        forall|t: Seq<char>| t != collection@ ==> #[trigger] run(b, s, db)[t] == db[t],
        ({
            let column = spec.conflict_columns@[0]@;
            let before = db[collection@];
            let later = run(b, s, db)[collection@];
            exists|id: Seq<char>, key: Seq<char>|
                {
                    &&& #[trigger] gives_text(spec.data@, "id"@, id)
                    &&& #[trigger] gives_text(spec.data@, column, key)
                    &&& if some_has_text(before, column, key) {
                        &&& later.len() == before.len()
                        &&& forall|i: int|
                            0 <= i < before.len() && !has_text(before[i], column, key)
                                ==> #[trigger] later[i] == before[i]
                        &&& forall|i: int|
                            0 <= i < before.len() && has_text(before[i], column, key) ==> counts_on(
                                b,
                                before[i],
                                #[trigger] later[i],
                                count@,
                                window@,
                                text::views(updated@),
                                now,
                                cutoff,
                            )
                    } else {
                        &&& later == before.push(later.last())
                        &&& begins_counting(
                            b,
                            later.last(),
                            id,
                            column,
                            key,
                            count@,
                            window@,
                            text::views(created@),
                            text::views(updated@),
                            now,
                        )
                    }
                }
        }),
{
    let column = spec.conflict_columns@[0]@;
    let data = json::entry_views(spec.data@);
    assert(text::views(spec.conflict_columns@)[0] == column);
    lemma_entry_at(data, "id"@, 0);
    lemma_entry_at(data, column, 0);
    let i = upsert::entry_at(data, "id"@, 0)->0;
    let k = upsert::entry_at(data, column, 0)->0;
    let id = upsert::entry_text(data, "id"@)->0;
    let key = upsert::entry_text(data, column)->0;
    assert(spec.data@[i].0@ == data[i].0);
    assert(spec.data@[k].0@ == data[k].0);
    assert(gives_text(spec.data@, "id"@, id));
    assert(gives_text(spec.data@, column, key));
    let before = db[collection@];
    let later = run(b, s, db)[collection@];
    if !some_has_text(before, column, key) {
        assert(later.last() == later[before.len() as int]);
        assert(later =~= before.push(later.last()));
        let stamps = text::views(created@) + text::views(updated@);
        assert forall|c: Seq<char>| #[trigger] stamps.contains(c) == (text::views(
            created@,
        ).contains(c) || text::views(updated@).contains(c)) by {
            lemma_contains_concat(text::views(created@), text::views(updated@), c);
        }
    }
}

proof fn lemma_contains_concat(a: Seq<Seq<char>>, z: Seq<Seq<char>>, c: Seq<char>)
    ensures
        (a + z).contains(c) == (a.contains(c) || z.contains(c)),
{
    if a.contains(c) {
        let i = a.index_of(c);
        assert((a + z)[i] == c);
    }
    if z.contains(c) {
        let i = z.index_of(c);
        assert((a + z)[a.len() + i] == c);
    }
    if (a + z).contains(c) {
        let i = (a + z).index_of(c);
        if i < a.len() {
            assert(a[i] == c);
        } else {
            assert(z[i - a.len()] == c);
        }
    }
}

/// The row `y` is the row `x`, counted once more.
pub open spec fn counts_on(
    b: Backend,
    x: Map<Seq<char>, JsonView>,
    y: Map<Seq<char>, JsonView>,
    count: Seq<char>,
    window: Seq<char>,
    updated: Seq<Seq<char>>,
    now: i64,
    cutoff: i64,
) -> bool {
    &&& (b.ended)(cell(x, window), cutoff as int) ==> cell(y, count) == JsonView::Int(1) && cell(
        y,
        window,
    ) == JsonView::Int(now)
    &&& !(b.ended)(cell(x, window), cutoff as int) ==> cell(y, count) == (b.added)(
        cell(x, count),
        1,
    ) && (!updated.contains(window) ==> cell(y, window) == cell(x, window))
    &&& forall|c: Seq<char>| #[trigger]
        updated.contains(c) && c != count && c != window ==> cell(y, c) == b.stamp
    &&& forall|c: Seq<char>|
        !updated.contains(c) && c != count && c != window ==> #[trigger] cell(y, c) == cell(x, c)
}

/// The row `y` is the first of a counter.
pub open spec fn begins_counting(
    b: Backend,
    y: Map<Seq<char>, JsonView>,
    id: Seq<char>,
    column: Seq<char>,
    key: Seq<char>,
    count: Seq<char>,
    window: Seq<char>,
    created: Seq<Seq<char>>,
    updated: Seq<Seq<char>>,
    now: i64,
) -> bool {
    let named = |c: Seq<char>| c == "id"@ || c == column;
    &&& cell(y, "id"@) == JsonView::Str(id)
    &&& column != "id"@ ==> cell(y, column) == JsonView::Str(key)
    &&& !named(count) ==> cell(y, count) == JsonView::Int(1)
    &&& !named(window) ==> cell(y, window) == JsonView::Int(now)
    &&& forall|c: Seq<char>|
        (created.contains(c) || updated.contains(c)) && !named(c) && c != count && c != window
            ==> #[trigger] cell(y, c) == b.stamp
    &&& forall|c: Seq<char>| #[trigger]
        y.dom().contains(c) ==> named(c) || c == count || c == window || created.contains(c)
            || updated.contains(c)
}

// ---------------------------------------------------------------------------
// Operations
// ---------------------------------------------------------------------------

/// The tables after several statements, in order.
pub open spec fn run_all(
    b: Backend,
    ss: Seq<Statement>,
    db: Map<Seq<char>, Seq<Map<Seq<char>, JsonView>>>,
) -> Map<Seq<char>, Seq<Map<Seq<char>, JsonView>>>
    decreases ss.len(),
{
    if ss.len() == 0 {
        db
    } else {
        run(b, ss.last(), run_all(b, ss.drop_last(), db))
    }
}

/// The statement of a transaction's part.
pub open spec fn of_tx(t: TxStatement) -> Statement {
    match t {
        TxStatement::Execute(s) => s,
        TxStatement::Returning(s) => s,
    }
}

/// The statement of a batch's part.
pub open spec fn of_batch(t: BatchStatement) -> Statement {
    match t {
        BatchStatement::Rows(s) => s,
        BatchStatement::FetchOne(s) => s,
        BatchStatement::Execute(s) => s,
        BatchStatement::ScalarI64(s) => s,
        BatchStatement::ScalarF64(s) => s,
    }
}

/// The statements that work runs, in order.
pub open spec fn statements(w: Work) -> Seq<Statement> {
    match w {
        Work::Fetch(s) => seq![s],
        Work::FetchOne(s) => seq![s],
        Work::Execute(s) => seq![s],
        Work::ExecuteReturning(s) => seq![s],
        Work::Insert(s) => seq![s],
        Work::ScalarI64(s) => seq![s],
        Work::ScalarF64(s) => seq![s],
        Work::Batch(v) => v@.map_values(|t: BatchStatement| of_batch(t)),
        Work::Transaction(v) => v@.map_values(|t: TxStatement| of_tx(t)),
    }
}

/// An operation comes to this work, read like this: it is planned to run right
/// away, or it does once what it needs of its table was settled.
pub open spec fn comes_to(
    request: Request,
    plan: Plan,
    p: Prepared,
    preamble: u8,
    w: Work,
    reading: Reading,
) -> bool {
    ops::plans(request, plan) && match plan {
        Plan::Run(x, y) => x == w && y == reading,
        Plan::Prepare(n, pending) => p.present && p.table@ == n.table@ && ops::settles::<Double>(
            pending,
            p,
            preamble,
            Settled::Run(w, reading),
        ),
        _ => false,
    }
}

/// The tables as an operation is to leave them; `given` are the rows it writes,
/// as they were settled. Upserts and raw statements stand apart.
pub open spec fn asked(
    b: Backend,
    request: Request,
    given: Seq<Map<Seq<char>, JsonView>>,
    db: Map<Seq<char>, Seq<Map<Seq<char>, JsonView>>>,
) -> Map<Seq<char>, Seq<Map<Seq<char>, JsonView>>> {
    match request {
        Request::Create { collection, .. } => db.insert(
            collection@,
            db[collection@].push(given[0]),
        ),
        Request::CreateMany { collection, .. } => db.insert(
            collection@,
            db[collection@] + given,
        ),
        Request::InsertGuarded { collection, guards, .. } => if all_hold(
            b,
            text::views(guards@),
            db[collection@],
        ) {
            db.insert(collection@, db[collection@].push(given[0]))
        } else {
            db
        },
        Request::UpdateGuarded { collection, filters, guards, .. } => if all_hold(
            b,
            text::views(guards@),
            db[collection@],
        ) {
            db.insert(
                collection@,
                with_set(db[collection@], meeting(b, filters@), given[0]),
            )
        } else {
            db
        },
        Request::Update { collection, id, .. } => db.insert(
            collection@,
            with_set(db[collection@], of_id(b, id@), given[0]),
        ),
        Request::Delete { collection, id } => db.insert(
            collection@,
            the_others(db[collection@], of_id(b, id@)),
        ),
        Request::DeleteWhere { collection, filters } => db.insert(
            collection@,
            the_others(db[collection@], meeting(b, filters@)),
        ),
        Request::DeleteWhereCount { collection, filters } => db.insert(
            collection@,
            the_others(db[collection@], meeting(b, filters@)),
        ),
        Request::TakeWhere { collection, filters } => db.insert(
            collection@,
            the_others(db[collection@], meeting(b, filters@)),
        ),
        Request::UpdateWhere { collection, filters, .. } => db.insert(
            collection@,
            with_set(db[collection@], meeting(b, filters@), given[0]),
        ),
        Request::UpdateWhereCount { collection, filters, .. } => db.insert(
            collection@,
            with_set(db[collection@], meeting(b, filters@), given[0]),
        ),
        Request::IncrementFieldWhere { collection, col, delta, filters } => db.insert(
            collection@,
            db[collection@].map_values(
                |r: Map<Seq<char>, JsonView>|
                    if meeting(b, filters@)(r) {
                        r.insert(col@, (b.added)(cell(r, col@), delta as int))
                    } else {
                        r
                    },
            ),
        ),
        _ => db,
    }
}

/// The rows that a preparation settled.
pub open spec fn settled_rows(p: Prepared) -> Seq<Map<Seq<char>, JsonView>> {
    text::views(p.rows@)
}

/// A statement that changes nothing.
pub open spec fn quiet(s: Statement) -> bool {
    match s {
        Statement::SelectById { .. } => true,
        Statement::Select { .. } => true,
        Statement::Count { .. } => true,
        Statement::Sum { .. } => true,
        Statement::Grouped { .. } => true,
        Statement::GuardPreamble { .. } => true,
        Statement::GuardProbe { .. } => true,
        _ => false,
    }
}

/// The collections that a request may concern are there.
pub open spec fn holds_tables(
    db: Map<Seq<char>, Seq<Map<Seq<char>, JsonView>>>,
    ss: Seq<Statement>,
) -> bool {
    forall|i: int| 0 <= i < ss.len() ==> db.dom().contains(table_of(#[trigger] ss[i]))
}

proof fn lemma_quiet(
    b: Backend,
    ss: Seq<Statement>,
    db: Map<Seq<char>, Seq<Map<Seq<char>, JsonView>>>,
)
    requires
        forall|i: int| 0 <= i < ss.len() ==> quiet(#[trigger] ss[i]),
        holds_tables(db, ss),
    ensures
        run_all(b, ss, db) == db,
    decreases ss.len(),
{
    if ss.len() > 0 {
        assert forall|i: int| 0 <= i < ss.drop_last().len() implies db.dom().contains(
            table_of(#[trigger] ss.drop_last()[i]),
        ) by {
            assert(ss[i] == ss.drop_last()[i]);
        }
        lemma_quiet(b, ss.drop_last(), db);
        assert(quiet(ss[ss.len() - 1]));
        assert(run(b, ss.last(), db) =~= db);
    }
}

proof fn lemma_one(
    b: Backend,
    s: Statement,
    db: Map<Seq<char>, Seq<Map<Seq<char>, JsonView>>>,
)
    ensures
        run_all(b, seq![s], db) == run(b, s, db),
{
    assert(seq![s].drop_last() =~= Seq::empty());
    assert(run_all(b, Seq::empty(), db) == db);
}

proof fn lemma_guarded_write(
    b: Backend,
    ops: Seq<TxStatement>,
    table: String,
    guards: Seq<CapGuardView>,
    write: Statement,
    returning: bool,
    preamble: u8,
    db: Map<Seq<char>, Seq<Map<Seq<char>, JsonView>>>,
)
    requires
        guarded::is_guarded_transaction(ops, table, guards, write, returning, preamble),
        table_of(write) == table@,
        db.dom().contains(table@),
    ensures
        run_all(b, ops.map_values(|t: TxStatement| of_tx(t)), db) == run(b, write, db),
{
    let ss = ops.map_values(|t: TxStatement| of_tx(t));
    let k = preamble as int;
    if guards.len() == 0 {
        let first = ss.drop_last();
        assert forall|i: int| 0 <= i < first.len() implies quiet(#[trigger] first[i])
            && db.dom().contains(table_of(first[i])) by {
            assert(ops[i] is Execute);
        }
        lemma_quiet(b, first, db);
        assert(ss.last() == of_tx(ops[k]));
    } else {
        let last = ss.drop_last();
        let first = last.drop_last();
        assert forall|i: int| 0 <= i < first.len() implies quiet(#[trigger] first[i])
            && db.dom().contains(table_of(first[i])) by {
            if i < k {
                assert(ops[i] is Execute);
            } else {
                assert(first[i] == of_tx(ops[k]));
            }
        }
        lemma_quiet(b, first, db);
        assert(last.last() == of_tx(ops[k + 1]));
        assert(ss.last() == of_tx(ops[k + 2]));
        let done = run(b, write, db);
        assert(run_all(b, last, db) == done);
        assert(run(b, ss.last(), done) =~= done);
    }
}

proof fn lemma_inserts(
    b: Backend,
    ops: Seq<TxStatement>,
    table: String,
    given: Seq<crate::row::Row>,
    db: Map<Seq<char>, Seq<Map<Seq<char>, JsonView>>>,
)
    requires
        ops::inserts_rows(ops, table, given),
        db.dom().contains(table@),
    ensures
        run_all(b, ops.map_values(|t: TxStatement| of_tx(t)), db) == db.insert(
            table@,
            db[table@] + text::views(given),
        ),
    decreases ops.len(),
{
    let ss = ops.map_values(|t: TxStatement| of_tx(t));
    if ops.len() == 0 {
        assert(db[table@] + text::views(given) =~= db[table@]);
        assert(db.insert(table@, db[table@]) =~= db);
    } else {
        let init = ops.drop_last();
        let fewer = given.drop_last();
        let n = ops.len() - 1;
        assert forall|i: int| 0 <= i < fewer.len() implies ops::is_insert(
            #[trigger] init[i],
            table,
            fewer[i]@,
        ) by {
            assert(ops::is_insert(ops[i], table, given[i]@));
        }
        lemma_inserts(b, init, table, fewer, db);
        assert(ss.drop_last() =~= init.map_values(|t: TxStatement| of_tx(t)));
        assert(ops::is_insert(ops[n], table, given[n]@));
        assert(ss.last() == of_tx(ops[n]));
        assert((db[table@] + text::views(fewer)).push(given[n]@) =~= db[table@] + text::views(
            given,
        ));
        assert(run(b, ss.last(), db.insert(table@, db[table@] + text::views(fewer))) =~= db.insert(
            table@,
            db[table@] + text::views(given),
        ));
    }
}

/// What an operation runs leaves the tables as its name says: reads leave all
/// of them as they are; a creation adds its rows, in order, at the end of its
/// own collection; an update sets its columns in exactly the rows it is for,
/// and a removal takes exactly those away; an increment adds to one column of
/// them; a guarded write does so where every guard holds, and nothing else.
/// Other collections are never touched.
pub proof fn an_operation_does_what_it_says(
    b: Backend,
    request: Request,
    plan: Plan,
    p: Prepared,
    preamble: u8,
    w: Work,
    reading: Reading,
    db: Map<Seq<char>, Seq<Map<Seq<char>, JsonView>>>,
)
    requires
        comes_to(request, plan, p, preamble, w, reading),
        !(request is Upsert),
        ops::target(request) matches Some(collection) && db.dom().contains(collection@),
    ensures
        run_all(b, statements(w), db) == asked(b, request, settled_rows(p), db),
{
    let ss = statements(w);
    assert(settled_rows(p).len() == p.rows@.len());
    assert(p.rows@.len() > 0 ==> settled_rows(p)[0] == p.rows@[0]@);
    match request {
        Request::Get { .. } => {
            lemma_quiet(b, ss, db);
        },
        Request::List { opts, .. } => {
            if !opts.skip_count {
                let v = w->Batch_0;
                assert(ops::is_list_count(v@[0], p.table, opts));
                assert(ss[0] == of_batch(v@[0]));
                assert(ss[1] == of_batch(v@[1]));
            }
            lemma_quiet(b, ss, db);
        },
        Request::Count { .. } => {
            lemma_quiet(b, ss, db);
        },
        Request::Sum { .. } => {
            lemma_quiet(b, ss, db);
        },
        Request::Aggregate { .. } => {
            lemma_quiet(b, ss, db);
        },
        Request::Create { .. } => {
            lemma_one(b, ss[0], db);
        },
        Request::CreateMany { .. } => {
            let v = w->Transaction_0;
            lemma_inserts(b, v@, p.table, p.rows@, db);
        },
        Request::InsertGuarded { guards, .. } => {
            let v = w->Transaction_0;
            let write = choose|write: Statement|
                #[trigger] guarded::is_guarded_transaction(
                    v@,
                    p.table,
                    text::views(guards@),
                    write,
                    true,
                    preamble,
                ) && (write matches Statement::InsertGuarded { table: t, pairs, guards: g } && t
                    == p.table && rows::pairs_of(p.rows@[0]@, pairs@) && text::views(g@)
                    == text::views(guards@));
            lemma_write_is_there(v@, p.table, text::views(guards@), write, true, preamble, ss);
            lemma_guarded_write(
                b,
                v@,
                p.table,
                text::views(guards@),
                write,
                true,
                preamble,
                db,
            );
            assert(run(b, write, db) =~= asked(b, request, settled_rows(p), db));
        },
        Request::UpdateGuarded { filters, guards, .. } => {
            let v = w->Transaction_0;
            let write = choose|write: Statement|
                #[trigger] guarded::is_guarded_transaction(
                    v@,
                    p.table,
                    text::views(guards@),
                    write,
                    false,
                    preamble,
                ) && (write matches Statement::UpdateGuarded { table: t, pairs, filters: f, guards: g }
                    && t == p.table && rows::pairs_of(p.rows@[0]@, pairs@) && f == filters
                    && text::views(g@) == text::views(guards@));
            lemma_write_is_there(v@, p.table, text::views(guards@), write, false, preamble, ss);
            lemma_guarded_write(
                b,
                v@,
                p.table,
                text::views(guards@),
                write,
                false,
                preamble,
                db,
            );
            assert(run(b, write, db) =~= asked(b, request, settled_rows(p), db));
        },
        Request::Update { .. } => {
            let v = w->Batch_0;
            assert(ss[0] == of_batch(v@[0]));
            assert(ss[1] == of_batch(v@[1]));
            assert(ss.drop_last() =~= seq![ss[0]]);
            lemma_one(b, ss[0], db);
            let done = run(b, ss[0], db);
            assert(run(b, ss[1], done) =~= done);
        },
        _ => {
            lemma_one(b, ss[0], db);
        },
    }
}

proof fn lemma_write_is_there(
    v: Seq<TxStatement>,
    table: String,
    guards: Seq<CapGuardView>,
    write: Statement,
    returning: bool,
    preamble: u8,
    ss: Seq<Statement>,
)
    requires
        guarded::is_guarded_transaction(v, table, guards, write, returning, preamble),
        ss == v.map_values(|t: TxStatement| of_tx(t)),
    ensures
        exists|i: int| 0 <= i < ss.len() && #[trigger] ss[i] == write,
{
    let at = if guards.len() == 0 {
        preamble as int
    } else {
        preamble + 1
    };
    assert(ss[at] == of_tx(v[at]));
    assert(ss[at] == write);
}

/// The rows that records hold, in order.
pub open spec fn held(records: Seq<Record>) -> Seq<Map<Seq<char>, JsonView>> {
    records.map_values(|r: Record| r.data@)
}

/// The rows that meet the filters and pass the tree of conditions, where there
/// is one.
pub open spec fn listed(
    b: Backend,
    all: Seq<Map<Seq<char>, JsonView>>,
    filters: Seq<Filter>,
    tree: Option<Vec<FilterTree>>,
) -> Seq<Map<Seq<char>, JsonView>> {
    match tree {
        None => those(all, meeting(b, filters)),
        Some(_) => those(
            those(all, meeting(b, filters)),
            |r: Map<Seq<char>, JsonView>| (b.passes)(tree, r),
        ),
    }
}

/// The rows of its table that a statement is for.
pub open spec fn concerned(
    b: Backend,
    s: Statement,
    db: Map<Seq<char>, Seq<Map<Seq<char>, JsonView>>>,
) -> Seq<Map<Seq<char>, JsonView>> {
    let all = db[table_of(s)];
    match s {
        Statement::SelectById { id, .. } => those(all, of_id(b, id@)),
        Statement::UpdateById { id, .. } => those(all, of_id(b, id@)),
        Statement::DeleteById { id, .. } => those(all, of_id(b, id@)),
        Statement::Count { filters, tree, .. } => listed(b, all, filters@, tree),
        Statement::Sum { filters, .. } => those(all, meeting(b, filters@)),
        Statement::UpdateWhere { filters, .. } => those(all, meeting(b, filters@)),
        Statement::DeleteWhere { filters, .. } => those(all, meeting(b, filters@)),
        Statement::DeleteWhereReturning { filters, .. } => those(all, meeting(b, filters@)),
        Statement::Increment { filters, .. } => those(all, meeting(b, filters@)),
        _ => all,
    }
}

/// What a backend answers, of the work that operations come to, over tables
/// that hold `db`: a statement that counts, or whose changes are counted, gives
/// the number of rows that it is for, one that returns rows those rows; of a
/// select, an aggregate, an upsert, a raw statement and guarded writes nothing
/// more is said here.
pub open spec fn says(
    b: Backend,
    w: Work,
    db: Map<Seq<char>, Seq<Map<Seq<char>, JsonView>>>,
    reply: Reply<Double>,
) -> bool {
    match (w, reply) {
        (Work::FetchOne(s), Reply::Row(record)) => concerned(b, s, db).contains(record.data@),
        (Work::ScalarI64(s), Reply::Int(n)) => n == concerned(b, s, db).len(),
        (Work::ScalarF64(s), Reply::Real(f)) => (b.stands_for)(
            f,
            total(b, concerned(b, s, db), s->Sum_field@),
        ),
        (Work::Execute(s), Reply::Changed(n)) => s is Upsert || s is WindowedCounter || s is Raw
            || n == concerned(b, s, db).len(),
        (Work::ExecuteReturning(s), Reply::Rows(records)) => held(records@) == concerned(b, s, db),
        (Work::Insert(_), Reply::Inserted(_)) => true,
        (Work::Fetch(_), Reply::Rows(_)) => true,
        (Work::Batch(v), Reply::Batch(results)) => results@.len() == v@.len() && forall|i: int|
            0 <= i < v@.len() ==> says_part(
                b,
                #[trigger] v@[i],
                run_all(b, statements(w).take(i), db),
                results@[i],
            ),
        (Work::Transaction(v), Reply::Transaction(results)) => results@.len() == v@.len()
            && forall|i: int|
            0 <= i < v@.len() && of_tx(#[trigger] v@[i]) is Insert ==> results@[i]
                == TxResult::Execute(1),
        _ => false,
    }
}

/// What a backend answers to one part of a batch.
pub open spec fn says_part(
    b: Backend,
    t: BatchStatement,
    db: Map<Seq<char>, Seq<Map<Seq<char>, JsonView>>>,
    result: BatchResult<Double>,
) -> bool {
    match (t, result) {
        (BatchStatement::Execute(s), BatchResult::Execute(n)) => n == concerned(b, s, db).len(),
        (BatchStatement::ScalarI64(s), BatchResult::ScalarI64(n)) => n == concerned(
            b,
            s,
            db,
        ).len(),
        (BatchStatement::Rows(s), BatchResult::Rows(records)) => s is SelectById ==> held(
            records@,
        ) == concerned(b, s, db),
        _ => false,
    }
}

proof fn lemma_inserted(results: Seq<TxResult>)
    requires
        forall|i: int| 0 <= i < results.len() ==> #[trigger] results[i] == TxResult::Execute(1),
    ensures
        ops::all_counts(results),
        ops::inserted_sum(results) == results.len(),
    decreases results.len(),
{
    if results.len() > 0 {
        assert(results[results.len() - 1] == TxResult::Execute(1));
        lemma_inserted(results.drop_last());
    }
}

/// Two lists of a row, with the same conditions, have the same number of rows:
/// a backend goes by what conditions say.
pub open spec fn goes_by_meaning(b: Backend) -> bool {
    forall|x: Option<Vec<FilterTree>>, y: Option<Vec<FilterTree>>, r: Map<Seq<char>, JsonView>|
        ops::same_condition(x, y) ==> #[trigger] (b.passes)(x, r) == #[trigger] (b.passes)(y, r)
}

/// What an operation answers is true of the tables. A count is the number of
/// rows that were counted, changed or taken; taken rows are those that met the
/// conditions; a removal or an update by id fails exactly where no row is that
/// id's, and an updated record is a row of that id as the update left it; what
/// was created is the settled row, but for a key that the backend gave it; a
/// counted list gives the number of rows over all of its pages, and the number
/// of its page counted from one.
pub proof fn an_operation_answers_with_what_it_did(
    b: Backend,
    request: Request,
    plan: Plan,
    p: Prepared,
    preamble: u8,
    w: Work,
    reading: Reading,
    db: Map<Seq<char>, Seq<Map<Seq<char>, JsonView>>>,
    reply: Reply<Double>,
    r: Result<Outcome<Double>, DatabaseError>,
)
    requires
        comes_to(request, plan, p, preamble, w, reading),
        says(b, w, db, reply),
        goes_by_meaning(b),
        ops::reads_as(reading, reply, r),
    ensures
        match request {
            Request::Get { collection, id } => r matches Ok(Outcome::Record(record)) && those(
                db[collection@],
                of_id(b, id@),
            ).contains(record.data@),
            Request::Count { collection, filters } => r matches Ok(Outcome::Count(n)) && n == those(
                db[collection@],
                meeting(b, filters@),
            ).len(),
            Request::Sum { collection, field, filters } => r matches Ok(Outcome::Sum(Some(f))) && (
            b.stands_for)(f, total(b, those(db[collection@], meeting(b, filters@)), field@)),
            Request::Delete { collection, id } => if those(db[collection@], of_id(b, id@)).len()
                == 0 {
                r == Err::<Outcome<Double>, DatabaseError>(DatabaseError::NotFound)
            } else {
                r == Ok::<Outcome<Double>, DatabaseError>(Outcome::Nothing)
            },
            Request::DeleteWhere { .. } => r == Ok::<Outcome<Double>, DatabaseError>(
                Outcome::Nothing,
            ),
            Request::UpdateWhere { .. } => r == Ok::<Outcome<Double>, DatabaseError>(
                Outcome::Nothing,
            ),
            Request::DeleteWhereCount { collection, filters } => r matches Ok(Outcome::Count(n))
                && n == those(db[collection@], meeting(b, filters@)).len(),
            Request::UpdateWhereCount { collection, filters, .. } => r matches Ok(Outcome::Count(n))
                && n == those(db[collection@], meeting(b, filters@)).len(),
            Request::IncrementFieldWhere { collection, filters, .. } => r matches Ok(
                Outcome::Count(n),
            ) && n == those(db[collection@], meeting(b, filters@)).len(),
            Request::TakeWhere { collection, filters } => r matches Ok(Outcome::Records(v)) && held(
                v@,
            ) == those(db[collection@], meeting(b, filters@)),
            Request::Update { collection, id, .. } => {
                let found = those(db[collection@], of_id(b, id@));
                let left = those(
                    with_set(db[collection@], of_id(b, id@), p.rows@[0]@),
                    of_id(b, id@),
                );
                if found.len() == 0 || left.len() == 0 {
                    r == Err::<Outcome<Double>, DatabaseError>(DatabaseError::NotFound)
                } else {
                    r matches Ok(Outcome::Record(record)) && record.data@ == left[0]
                }
            },
            Request::Create { .. } => r matches Ok(Outcome::Record(record)) && record.data@.remove(
                "id"@,
            ) == p.rows@[0]@.remove("id"@) && (p.rows@[0]@.dom().contains("id"@) && (p.rows@[0]@[
                "id"@] is Str || p.rows@[0]@["id"@] is Int) ==> record.data@ == p.rows@[0]@) && ((
            !p.rows@[0]@.dom().contains("id"@) && reply->Inserted_0 is Some) ==> record.data@.dom().contains(
                "id"@,
            ) && record.data@["id"@] == JsonView::Int(reply->Inserted_0->0)),
            Request::CreateMany { .. } => r matches Ok(Outcome::Count(n)) && n == p.rows@.len(),
            Request::List { collection, opts } => {
                &&& r matches Ok(Outcome::List(list))
                &&& !opts.skip_count ==> list.total_count == listed(
                    b,
                    db[collection@],
                    opts.filters@,
                    opts.filter_tree,
                ).len()
                &&& !opts.skip_count ==> list.records == reply->Batch_0@[1]->Rows_0
                &&& opts.skip_count ==> list.records == reply->Rows_0 && (list.records@.len()
                    <= i64::MAX ==> list.total_count == list.records@.len())
                &&& opts.limit matches Some(l) ==> list.page_size == l && (list.page - 1) * l
                    <= opts.offset < list.page * l
                &&& opts.limit is None ==> list.page == 1 && list.page_size == list.total_count
            },
            Request::Aggregate { .. } => r == Ok::<Outcome<Double>, DatabaseError>(
                Outcome::Records(reply->Rows_0),
            ),
            Request::QueryRaw { .. } => r == Ok::<Outcome<Double>, DatabaseError>(
                Outcome::Records(reply->Rows_0),
            ),
            Request::Upsert { .. } => r == Ok::<Outcome<Double>, DatabaseError>(
                Outcome::Count(reply->Changed_0),
            ),
            Request::ExecRaw { .. } => r == Ok::<Outcome<Double>, DatabaseError>(
                Outcome::Count(reply->Changed_0),
            ),
            Request::InsertGuarded { .. } => true,
            Request::UpdateGuarded { .. } => true,
        },
{
    let ss = statements(w);
    match request {
        Request::Update { collection, id, .. } => {
            let v = w->Batch_0;
            assert(ss[0] == of_batch(v@[0]));
            assert(ss[1] == of_batch(v@[1]));
            assert(ss.take(0) =~= Seq::empty());
            assert(ss.take(1) =~= seq![ss[0]]);
            lemma_one(b, ss[0], db);
            assert(says_part(b, v@[0], db, reply->Batch_0@[0]));
            let now = run(b, ss[0], db);
            assert(says_part(b, v@[1], now, reply->Batch_0@[1]));
            let left = concerned(b, ss[1], now);
            let records = reply->Batch_0@[1]->Rows_0@;
            assert(held(records).len() == records.len());
            if records.len() > 0 {
                assert(held(records)[0] == records[0].data@);
            }
        },
        Request::CreateMany { .. } => {
            let v = w->Transaction_0;
            let results = reply->Transaction_0@;
            assert forall|i: int| 0 <= i < results.len() implies #[trigger] results[i]
                == TxResult::Execute(1) by {
                assert(ops::is_insert(v@[i], p.table, p.rows@[i]@));
                assert(of_tx(v@[i]) is Insert);
            }
            lemma_inserted(results);
        },
        Request::Create { .. } => {
            let record = r->Ok_0->Record_0;
            assert(record.data@.remove("id"@) =~= p.rows@[0]@.remove("id"@));
        },
        Request::List { collection, opts } => {
            if let Some(l) = opts.limit {
                let list = r->Ok_0->List_0;
                vstd::arithmetic::div_mod::lemma_fundamental_div_mod(
                    opts.offset as int,
                    l as int,
                );
                let q = opts.offset as int / l as int;
                assert((list.page - 1) * l == q * l);
                assert(list.page * l == q * l + l) by (nonlinear_arith)
                    requires
                        list.page == q + 1,
                ;
                assert(q * l == l * q) by (nonlinear_arith);
            }
            if !opts.skip_count {
                let v = w->Batch_0;
                assert(ss[0] == of_batch(v@[0]));
                assert(ss.take(0) =~= Seq::empty());
                assert(ops::is_list_count(v@[0], p.table, opts));
                assert(says_part(b, v@[0], db, reply->Batch_0@[0]));
                assert(says_part(b, v@[1], run_all(b, ss.take(1), db), reply->Batch_0@[1]));
                let s = ss[0];
                let filters = s->Count_filters;
                let tree = s->Count_tree;
                assert(meeting(b, filters@) =~= meeting(b, opts.filters@));
                assert((|x: Map<Seq<char>, JsonView>| (b.passes)(tree, x)) =~= (
                |x: Map<Seq<char>, JsonView>| (b.passes)(opts.filter_tree, x)));
            }
        },
        _ => {},
    }
}

/// An operation on a table that is not there answers as it would on a table
/// without rows, wherever there is such an answer: nothing is counted, taken or
/// changed. An update by conditions that are to be met fails instead, and so
/// does every write of new rows.
pub proof fn a_missing_table_is_as_an_empty_one(
    b: Backend,
    request: Request,
    plan: Plan,
    p: Prepared,
    missing: Prepared,
    preamble: u8,
    w: Work,
    reading: Reading,
    db: Map<Seq<char>, Seq<Map<Seq<char>, JsonView>>>,
    reply: Reply<Double>,
    r: Result<Outcome<Double>, DatabaseError>,
    done: Settled<Double>,
)
    requires
        comes_to(request, plan, p, preamble, w, reading),
        says(b, w, db, reply),
        goes_by_meaning(b),
        ops::reads_as(reading, reply, r),
        ops::target(request) matches Some(collection) && db[collection@].len() == 0,
        plan is Prepare,
        !missing.present,
        ops::settles(plan->Prepare_1, missing, preamble, done),
    ensures
        match request {
            Request::Count { .. } => r == Ok::<Outcome<Double>, DatabaseError>(done->Done_0),
            Request::DeleteWhere { .. } => r == Ok::<Outcome<Double>, DatabaseError>(done->Done_0),
            Request::DeleteWhereCount { .. } => r == Ok::<Outcome<Double>, DatabaseError>(
                done->Done_0,
            ),
            Request::UpdateWhereCount { .. } => r == Ok::<Outcome<Double>, DatabaseError>(
                done->Done_0,
            ),
            Request::IncrementFieldWhere { .. } => r == Ok::<Outcome<Double>, DatabaseError>(
                done->Done_0,
            ),
            Request::TakeWhere { .. } => r->Ok_0->Records_0@ == done->Done_0->Records_0@,
            Request::List { opts, .. } => {
                &&& done->Done_0->List_0.records@.len() == 0
                &&& done->Done_0->List_0.total_count == 0
                &&& !opts.skip_count ==> r->Ok_0->List_0.total_count == 0
                &&& opts.limit is Some ==> done->Done_0->List_0.page_size
                    == r->Ok_0->List_0.page_size
            },
            Request::Update { .. } => done == Settled::<Double>::Fail(DatabaseError::NotFound) && r
                == Err::<Outcome<Double>, DatabaseError>(DatabaseError::NotFound),
            Request::UpdateGuarded { .. } => done == Settled::Done(
                Outcome::<Double>::Updated(crate::database::service::GuardedUpdate::NoMatch),
            ),
            Request::Aggregate { .. } => done->Done_0->Records_0@.len() == 0,
            Request::Sum { .. } => done == Settled::Done(Outcome::<Double>::Sum(None)),
            _ => done == Settled::<Double>::Fail(DatabaseError::NotFound),
        },
{
    reveal(Seq::filter);
    an_operation_answers_with_what_it_did(
        b,
        request,
        plan,
        p,
        preamble,
        w,
        reading,
        db,
        reply,
        r,
    );
    if let Request::TakeWhere { collection, filters } = request {
        assert(held(r->Ok_0->Records_0@).len() == r->Ok_0->Records_0@.len());
        assert(r->Ok_0->Records_0@ =~= done->Done_0->Records_0@);
    }
}

/// An operation that names columns needs them to be there before it runs: all
/// those that its filters, its guards, what it sums or what it adds to name.
/// One that writes rows needs those very rows settled, as new ones or as
/// changes of those that are there; no other does.
pub proof fn an_operation_needs_what_it_names(request: Request, n: Need, pending: Pending)
    requires
        ops::plans(request, Plan::Prepare(n, pending)),
    ensures
        match request {
            Request::List { opts, .. } => needs_filters(n, opts.filters@) && n.rows@.len() == 0
                && forall|i: int|
                0 <= i < opts.sort@.len() ==> text::views(n.require@).contains(
                    (#[trigger] opts.sort@[i]).field@,
                ) && (opts.columns matches Some(columns) ==> forall|i: int|
                0 <= i < columns@.len() ==> text::views(n.require@).contains(
                    (#[trigger] columns@[i])@,
                )) && (opts.filter_tree matches Some(tree) ==> forall|c: Seq<char>| #[trigger]
                filter::tree_columns(tree@).contains(c) ==> text::views(n.require@).contains(c)),
            Request::Count { filters, .. } => needs_filters(n, filters@) && n.rows@.len() == 0,
            Request::Sum { field, filters, .. } => needs_filters(n, filters@) && text::views(
                n.require@,
            ).contains(field@) && n.rows@.len() == 0,
            Request::Create { data, .. } => writes(n, seq![data], true),
            Request::CreateMany { rows, .. } => writes(n, rows@, true),
            Request::InsertGuarded { data, guards, .. } => writes(n, seq![data], true)
                && needs_guards(n, guards@),
            Request::UpdateGuarded { filters, data, guards, .. } => writes(n, seq![data], false)
                && needs_filters(n, filters@) && needs_guards(n, guards@),
            Request::Update { data, .. } => writes(n, seq![data], false),
            Request::DeleteWhere { filters, .. } => needs_filters(n, filters@) && n.rows@.len() == 0,
            Request::DeleteWhereCount { filters, .. } => needs_filters(n, filters@) && n.rows@.len()
                == 0,
            Request::TakeWhere { filters, .. } => needs_filters(n, filters@) && n.rows@.len() == 0,
            Request::UpdateWhere { filters, data, .. } => needs_filters(n, filters@) && writes(
                n,
                seq![data],
                false,
            ),
            Request::UpdateWhereCount { filters, data, .. } => needs_filters(n, filters@) && writes(
                n,
                seq![data],
                false,
            ),
            Request::IncrementFieldWhere { col, filters, .. } => needs_filters(n, filters@)
                && text::views(n.require@).contains(col@) && n.rows@.len() == 0,
            Request::Aggregate { aggregate, .. } => needs_filters(n, aggregate.filters@)
                && n.rows@.len() == 0,
            _ => false,
        },
        ops::target(request) is Some && n.table == ops::target(request)->0,
{
    let need = text::views(n.require@);
    match request {
        Request::List { opts, .. } => {
            let named = rows::named_columns(
                opts.filters@,
                opts.sort@,
                opts.filter_tree,
                opts.columns,
            );
            assert forall|i: int| 0 <= i < opts.filters@.len() implies need.contains(
                (#[trigger] opts.filters@[i]).field@,
            ) by {
                assert(named[i] == opts.filters@[i].field@);
            }
            assert forall|i: int| 0 <= i < opts.sort@.len() implies need.contains(
                (#[trigger] opts.sort@[i]).field@,
            ) by {
                assert(named[opts.filters@.len() + i] == opts.sort@[i].field@);
            }
            let sorted = opts.filters@.len() + opts.sort@.len();
            let of_tree = match opts.filter_tree {
                Some(t) => filter::tree_columns(t@),
                None => Seq::empty(),
            };
            assert forall|c: Seq<char>| #[trigger] of_tree.contains(c) implies need.contains(c) by {
                let k = of_tree.index_of(c);
                assert(named[sorted + k] == c);
            }
            if let Some(columns) = opts.columns {
                assert forall|i: int| 0 <= i < columns@.len() implies need.contains(
                    (#[trigger] columns@[i])@,
                ) by {
                    assert(named[sorted + of_tree.len() + i] == columns@[i]@);
                }
            }
        },
        Request::Sum { field, filters, .. } => {
            lemma_first_needed(n, filters@, seq![field@]);
            assert(need[filters@.len() as int] == field@);
        },
        Request::IncrementFieldWhere { col, filters, .. } => {
            lemma_first_needed(n, filters@, seq![col@]);
            assert(need[filters@.len() as int] == col@);
        },
        Request::UpdateGuarded { filters, guards, .. } => {
            lemma_first_needed(n, filters@, rows::guards_names(guards@));
            lemma_guards_needed(n, filter::filter_columns(filters@), guards@, Seq::empty());
        },
        Request::InsertGuarded { guards, .. } => {
            lemma_guards_needed(n, Seq::empty(), guards@, Seq::empty());
        },
        Request::Count { filters, .. } => {
            lemma_first_needed(n, filters@, Seq::empty());
        },
        Request::DeleteWhere { filters, .. } => {
            lemma_first_needed(n, filters@, Seq::empty());
        },
        Request::DeleteWhereCount { filters, .. } => {
            lemma_first_needed(n, filters@, Seq::empty());
        },
        Request::TakeWhere { filters, .. } => {
            lemma_first_needed(n, filters@, Seq::empty());
        },
        Request::UpdateWhere { filters, .. } => {
            lemma_first_needed(n, filters@, Seq::empty());
        },
        Request::UpdateWhereCount { filters, .. } => {
            lemma_first_needed(n, filters@, Seq::empty());
        },
        Request::Aggregate { aggregate, .. } => {
            let front = text::views(aggregate.select_columns@)
                + crate::database::service::aggregate_reads(aggregate.aggregates@)
                + crate::database::service::group_reads(aggregate.group_by@);
            assert forall|i: int| 0 <= i < aggregate.filters@.len() implies need.contains(
                (#[trigger] aggregate.filters@[i]).field@,
            ) by {
                assert(need[front.len() + i] == filter::filter_columns(aggregate.filters@)[i]);
            }
        },
        _ => {},
    }
}

/// Every column that a filter names is needed.
pub open spec fn needs_filters(n: Need, filters: Seq<Filter>) -> bool {
    forall|i: int|
        0 <= i < filters.len() ==> text::views(n.require@).contains((#[trigger] filters[i]).field@)
}

/// Every column that a guard's filters or its sum name is needed.
pub open spec fn needs_guards(n: Need, guards: Seq<CapGuard>) -> bool {
    forall|i: int|
        0 <= i < guards.len() ==> match #[trigger] guards[i] {
            CapGuard::CountBelow { filters, .. } => needs_filters(n, filters@),
            CapGuard::SumAtMost { field, filters, .. } => needs_filters(n, filters@) && text::views(
                n.require@,
            ).contains(field@),
        }
}

/// These rows are to be written, as new ones or as changes.
pub open spec fn writes(n: Need, given: Seq<crate::row::Row>, new: bool) -> bool {
    n.rows@ == given && n.policy == if new {
        crate::database::exec::prepare::Policy::Create
    } else {
        crate::database::exec::prepare::Policy::Stamp
    }
}

proof fn lemma_first_needed(n: Need, filters: Seq<Filter>, more: Seq<Seq<char>>)
    requires
        text::views(n.require@) =~= filter::filter_columns(filters) + more,
    ensures
        needs_filters(n, filters),
{
    let need = text::views(n.require@);
    assert forall|i: int| 0 <= i < filters.len() implies need.contains(
        (#[trigger] filters[i]).field@,
    ) by {
        assert(need[i] == filter::filter_columns(filters)[i]);
        assert(need[i] == filters[i].field@);
    }
}

proof fn lemma_guards_needed(
    n: Need,
    front: Seq<Seq<char>>,
    guards: Seq<CapGuard>,
    back: Seq<Seq<char>>,
)
    requires
        text::views(n.require@) =~= front + rows::guards_names(guards) + back,
    ensures
        needs_guards(n, guards),
    decreases guards.len(),
{
    if guards.len() > 0 {
        let need = text::views(n.require@);
        let init = guards.drop_last();
        let last = guards.last();
        let own = rows::guard_names(last);
        assert(rows::guards_names(guards) == rows::guards_names(init) + own);
        assert(need =~= front + rows::guards_names(init) + (own + back));
        lemma_guards_needed(n, front, init, own + back);
        let at = front.len() + rows::guards_names(init).len();
        assert forall|i: int| 0 <= i < own.len() implies need.contains(#[trigger] own[i]) by {
            assert(need[at + i] == own[i]);
        }
        let filters = match last {
            CapGuard::CountBelow { filters, .. } => filters@,
            CapGuard::SumAtMost { filters, .. } => filters@,
        };
        let names = filter::filter_columns(filters);
        assert forall|i: int| 0 <= i < filters.len() implies need.contains(
            (#[trigger] filters[i]).field@,
        ) by {
            assert(names[i] == filters[i].field@);
            assert(own[i] == names[i]);
        }
        assert forall|i: int| 0 <= i < guards.len() implies match #[trigger] guards[i] {
            CapGuard::CountBelow { filters, .. } => needs_filters(n, filters@),
            CapGuard::SumAtMost { field, filters, .. } => needs_filters(n, filters@)
                && need.contains(field@),
        } by {
            if i < init.len() {
                assert(init[i] == guards[i]);
            } else if let CapGuard::SumAtMost { field, .. } = last {
                assert(own[names.len() as int] == field@);
            }
        }
    }
}

/// A write of a batch comes to this statement, read back like this.
pub open spec fn op_comes_to(
    op: WriteOp,
    plan: OpPlan,
    p: Prepared,
    kind: Planned,
    t: TxStatement,
) -> bool {
    batch::op_plans(op, plan) && match plan {
        OpPlan::Statement(k, s) => k == kind && s == t,
        OpPlan::Prepare(n, pending) => p.present && p.table@ == n.table@ && batch::op_settles(
            pending,
            p,
            Ok((kind, Some(t))),
        ),
        OpPlan::Fail(_) => false,
    }
}

/// A write of a batch leaves the tables as the same operation does on its own,
/// and returns rows exactly where a row is to be given back.
pub proof fn a_batched_write_does_what_it_says(
    b: Backend,
    op: WriteOp,
    plan: OpPlan,
    p: Prepared,
    kind: Planned,
    t: TxStatement,
    db: Map<Seq<char>, Seq<Map<Seq<char>, JsonView>>>,
)
    requires
        op_comes_to(op, plan, p, kind, t),
        db.dom().contains(op.target()),
    ensures
        batch::reads_back(op, kind),
        !(kind is Settled),
        t is Returning <==> op is Create || op is Update,
        match op {
            WriteOp::Create { collection, .. } => run(b, of_tx(t), db) == db.insert(
                collection@,
                db[collection@].push(p.rows@[0]@),
            ),
            WriteOp::Update { collection, id, .. } => run(b, of_tx(t), db) == db.insert(
                collection@,
                with_set(db[collection@], of_id(b, id@), p.rows@[0]@),
            ),
            WriteOp::Delete { collection, id } => run(b, of_tx(t), db) == db.insert(
                collection@,
                the_others(db[collection@], of_id(b, id@)),
            ),
            WriteOp::UpdateWhere { collection, filters, .. } => run(b, of_tx(t), db) == db.insert(
                collection@,
                with_set(db[collection@], meeting(b, filters@), p.rows@[0]@),
            ),
            WriteOp::DeleteWhere { collection, filters } => run(b, of_tx(t), db) == db.insert(
                collection@,
                the_others(db[collection@], meeting(b, filters@)),
            ),
            WriteOp::Upsert { collection, spec } => upsert::upsert_renders(
                collection,
                spec,
                Ok(of_tx(t)),
            ),
        },
{
}

/// A write of a batch needs what the operation on its own does: the columns
/// that its filters name, and its very row, as a new one or as a change.
pub proof fn a_batched_write_needs_what_it_names(op: WriteOp, n: Need, pending: OpPending)
    requires
        batch::op_plans(op, OpPlan::Prepare(n, pending)),
    ensures
        n.table@ == op.target(),
        match op {
            WriteOp::Create { data, .. } => writes(n, seq![data], true),
            WriteOp::Update { data, .. } => writes(n, seq![data], false),
            WriteOp::UpdateWhere { filters, data, .. } => needs_filters(n, filters@) && writes(
                n,
                seq![data],
                false,
            ),
            WriteOp::DeleteWhere { filters, .. } => needs_filters(n, filters@) && n.rows@.len() == 0,
            _ => false,
        },
{
    match op {
        WriteOp::UpdateWhere { filters, .. } => {
            lemma_first_needed(n, filters@, Seq::empty());
        },
        WriteOp::DeleteWhere { filters, .. } => {
            lemma_first_needed(n, filters@, Seq::empty());
        },
        _ => {},
    }
}

/// A guarded insert never passes a cap on a number of rows: where no more than
/// the cap of them met the guard's filters before, no more do after.
pub proof fn a_cap_on_rows_is_kept(
    b: Backend,
    request: Request,
    plan: Plan,
    p: Prepared,
    preamble: u8,
    w: Work,
    reading: Reading,
    db: Map<Seq<char>, Seq<Map<Seq<char>, JsonView>>>,
    g: int,
    filters: Vec<Filter>,
    cap: i64,
)
    requires
        comes_to(request, plan, p, preamble, w, reading),
        request is InsertGuarded,
        db.dom().contains(request->InsertGuarded_collection@),
        0 <= g < request->InsertGuarded_guards@.len(),
        request->InsertGuarded_guards@[g] == (CapGuard::CountBelow { filters, cap }),
        those(db[request->InsertGuarded_collection@], meeting(b, filters@)).len() <= cap,
    ensures
        those(
            run_all(b, statements(w), db)[request->InsertGuarded_collection@],
            meeting(b, filters@),
        ).len() <= cap,
{
    an_operation_does_what_it_says(b, request, plan, p, preamble, w, reading, db);
    let collection = request->InsertGuarded_collection;
    let guards = text::views(request->InsertGuarded_guards@);
    let all = db[collection@];
    let row = p.rows@[0]@;
    assert(settled_rows(p)[0] == row);
    if all_hold(b, guards, all) {
        assert(guards[g] == request->InsertGuarded_guards@[g]@);
        assert(holds(b, guards[g], all));
        let met = |r: Map<Seq<char>, JsonView>| (b.meets)(text::views(filters@), r);
        assert(met =~= meeting(b, filters@));
        reveal(Seq::filter);
        assert(all.push(row).drop_last() =~= all);
    }
}

} // verus!
