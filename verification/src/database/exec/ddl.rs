//! Bringing a table to its declared shape, and asking after its shape.
//!
//! A table is created where it is missing, every declared column it lacks is
//! added, then its indexes and those of its foreign keys are created. Every
//! step that fails ends the run with an error. What is known of the table is
//! forgotten in the end, also where a step failed: part of the work may have
//! been done.

use vstd::prelude::*;

use crate::database::exec::lookup;
use crate::database::exec::prepare;
use crate::database::exec::prepare::{Answer, Question};
use crate::database::exec::rows;
use crate::database::exec::rows::sql_name;
use crate::database::exec::statement;
use crate::database::exec::statement::{with_context, Failure};
use crate::database::schema::{Column, Table};
use crate::database::schema_cache::{CacheView, SchemaCache, TableColumns};
use crate::database::service::DatabaseError;
use crate::ident;
use crate::json::JsonView;
use crate::text;

verus! {

/// What a run does next to its table.
#[derive(Clone, Copy, Debug, PartialEq, Eq, Structural)]
pub enum DdlAction {
    /// Create the table, unless it exists.
    CreateTable,
    /// List its columns.
    ListColumns,
    /// Add its declared column at this place.
    AddColumn { column: usize },
    /// Create its declared index at this place, unless it exists.
    CreateIndex { index: usize },
    /// Create the indexes of its foreign keys.
    ForeignKeyIndexes,
}

/// What a run waits for.
#[derive(Debug)]
pub enum DdlStage {
    Creating,
    Listing { asked: Option<u64> },
    /// The column at `next` is being added; `existing` are those that were
    /// there when the run looked.
    Adding { existing: Vec<String>, next: usize },
    /// Adding the column at `next` failed; someone else may have added it.
    Recheck { existing: Vec<String>, next: usize, failure: DatabaseError, asked: Option<u64> },
    Indexing { next: usize },
    ForeignKeys,
}

/// A run that waits for the result of an action.
#[derive(Debug)]
pub struct EnsureTable {
    pub table: Table,
    pub stage: DdlStage,
}

/// What comes next.
#[derive(Debug)]
pub enum DdlStep {
    Act(DdlAction, EnsureTable),
    Done,
    Fail(DatabaseError),
}

/// What is said of the first name of a declared table that is not plain: the
/// table's own, then its columns' in order.
pub open spec fn bad_declared_name(t: Table) -> Option<Seq<char>> {
    rows::first_bad_name(seq![t.name@] + column_names(t.columns@))
}

/// The names of declared columns, in order.
pub open spec fn column_names(columns: Seq<Column>) -> Seq<Seq<char>> {
    columns.map_values(|c: Column| c.name@)
}

/// The first declared column, from `from` on, that is not among `existing`.
pub open spec fn first_lacking(
    columns: Seq<Column>,
    existing: Seq<Seq<char>>,
    from: int,
) -> Option<int>
    decreases columns.len() - from,
{
    if from < 0 || from >= columns.len() {
        None
    } else if !lookup::has_column(existing, columns[from].name@) {
        Some(from)
    } else {
        first_lacking(columns, existing, from + 1)
    }
}

/// The run acts, and waits in stage `s`.
pub open spec fn acts(step: DdlStep, t: Table, a: DdlAction, s: DdlStage) -> bool {
    step == DdlStep::Act(a, EnsureTable { table: t, stage: s })
}

/// The run fails; what is known of the table is forgotten.
pub open spec fn fails(
    t: Table,
    c: Option<CacheView>,
    step: DdlStep,
    c2: Option<CacheView>,
) -> bool {
    c2 == lookup::changed(c, t.name@) && step is Fail
}

/// The indexes from `next` on, then those of the foreign keys.
pub open spec fn index_step(t: Table, next: int, step: DdlStep) -> bool {
    if next < t.indexes@.len() {
        acts(
            step,
            t,
            DdlAction::CreateIndex { index: next as usize },
            DdlStage::Indexing { next: next as usize },
        )
    } else {
        acts(step, t, DdlAction::ForeignKeyIndexes, DdlStage::ForeignKeys)
    }
}

/// The declared columns from `next` on that the table lacks, then the indexes.
pub open spec fn column_step(
    t: Table,
    existing: Seq<Seq<char>>,
    next: int,
    step: DdlStep,
) -> bool {
    match first_lacking(t.columns@, existing, next) {
        None => index_step(t, 0, step),
        Some(i) => {
            &&& step matches DdlStep::Act(a, run)
            &&& a == (DdlAction::AddColumn { column: i as usize })
            &&& run.table == t
            &&& run.stage matches DdlStage::Adding { existing: e, next: k }
            &&& text::views(e@) == existing
            &&& k == i
        },
    }
}

/// How a run starts.
pub open spec fn ddl_starts(
    t: Table,
    c: Option<CacheView>,
    step: DdlStep,
    c2: Option<CacheView>,
) -> bool {
    match bad_declared_name(t) {
        Some(bad) => fails(t, c, step, c2) && rows::refuses_sql_name(step->Fail_0, bad),
        None => c2 == c && acts(step, t, DdlAction::CreateTable, DdlStage::Creating),
    }
}

/// A failed step of a run: a statement that could not be rendered is the
/// caller's mistake, one that failed is told with what was being done.
pub open spec fn step_failed(
    t: Table,
    doing: Seq<char>,
    f: Failure,
    c: Option<CacheView>,
    step: DdlStep,
    c2: Option<CacheView>,
) -> bool {
    &&& fails(t, c, step, c2)
    &&& match f {
        Failure::Refused(m) => step->Fail_0 == DatabaseError::InvalidArgument(m),
        Failure::Failed(e) => statement::in_context(doing, e, step->Fail_0),
    }
}

/// What an answer leads to.
pub open spec fn ddl_goes_on(
    run: EnsureTable,
    answer: Answer,
    c: Option<CacheView>,
    step: DdlStep,
    c2: Option<CacheView>,
) -> bool {
    let t = run.table;
    match (run.stage, answer) {
        (DdlStage::Creating, Answer::Added(Ok(_))) => c2 == lookup::changed(c, t.name@) && acts(
            step,
            t,
            DdlAction::ListColumns,
            DdlStage::Listing { asked: lookup::generation_of(c2) },
        ),
        (DdlStage::Creating, Answer::Added(Err(f))) => step_failed(
            t,
            "create table "@ + t.name@ + ": "@,
            f,
            c,
            step,
            c2,
        ),
        (DdlStage::Listing { asked }, Answer::Columns(Ok((listing, json)))) => {
            let columns = prepare::listed_columns(listing@, json@);
            c2 == lookup::noted_columns(c, t.name@, columns, asked) && column_step(
                t,
                columns.names,
                0,
                step,
            )
        },
        (DdlStage::Adding { existing, next }, Answer::Added(Ok(_))) => c2 == lookup::changed(
            c,
            t.name@,
        ) && column_step(t, text::views(existing@), next + 1, step),
        (DdlStage::Adding { .. }, Answer::Added(Err(Failure::Refused(m)))) => fails(
            t,
            c,
            step,
            c2,
        ) && step->Fail_0 == DatabaseError::InvalidArgument(m),
        (DdlStage::Adding { existing, next }, Answer::Added(Err(Failure::Failed(e)))) => c2
            == lookup::changed(c, t.name@) && acts(
            step,
            t,
            DdlAction::ListColumns,
            DdlStage::Recheck {
                existing,
                next,
                failure: e,
                asked: lookup::generation_of(c2),
            },
        ),
        (
            DdlStage::Recheck { existing, next, failure, asked },
            Answer::Columns(Ok((listing, json))),
        ) => {
            let columns = prepare::listed_columns(listing@, json@);
            let noted = lookup::noted_columns(c, t.name@, columns, asked);
            let name = if next < t.columns@.len() {
                t.columns@[next as int].name@
            } else {
                ""@
            };
            if next < t.columns@.len() && lookup::has_column(columns.names, name) {
                c2 == noted && column_step(t, text::views(existing@), next + 1, step)
            } else {
                fails(t, noted, step, c2) && statement::in_context(
                    "add column "@ + name + ": "@,
                    failure,
                    step->Fail_0,
                )
            }
        },
        (DdlStage::Indexing { next }, Answer::Added(Ok(_))) => c2 == c && index_step(
            t,
            next + 1,
            step,
        ),
        (DdlStage::Indexing { .. }, Answer::Added(Err(f))) => step_failed(
            t,
            "create index: "@,
            f,
            c,
            step,
            c2,
        ),
        (DdlStage::ForeignKeys, Answer::Added(Ok(_))) => c2 == lookup::changed(c, t.name@) && step
            == DdlStep::Done,
        (DdlStage::ForeignKeys, Answer::Added(Err(f))) => step_failed(
            t,
            "create FK index: "@,
            f,
            c,
            step,
            c2,
        ),
        (DdlStage::Listing { .. }, Answer::Columns(Err(e))) => fails(t, c, step, c2) && step
            == DdlStep::Fail(e),
        (DdlStage::Recheck { .. }, Answer::Columns(Err(e))) => fails(t, c, step, c2) && step
            == DdlStep::Fail(e),
        _ => fails(t, c, step, c2) && (step->Fail_0 matches DatabaseError::Internal(m) && m@
            == "the answer does not fit the question asked of the schema"@),
    }
}

fn from_indexes(table: Table, next: usize) -> (r: DdlStep)
    ensures
        index_step(table, next as int, r),
{
    if next < table.indexes.len() {
        DdlStep::Act(
            DdlAction::CreateIndex { index: next },
            EnsureTable { table, stage: DdlStage::Indexing { next } },
        )
    } else {
        DdlStep::Act(
            DdlAction::ForeignKeyIndexes,
            EnsureTable { table, stage: DdlStage::ForeignKeys },
        )
    }
}

fn from_columns(table: Table, existing: Vec<String>, next: usize) -> (r: DdlStep)
    ensures
        column_step(table, text::views(existing@), next as int, r),
{
    let ghost have = text::views(existing@);
    let mut i: usize = next;
    while i < table.columns.len()
        invariant
            have == text::views(existing@),
            next <= i,
            first_lacking(table.columns@, have, next as int) == first_lacking(
                table.columns@,
                have,
                i as int,
            ),
        decreases table.columns@.len() - i,
    {
        if !lookup::lists_column(&existing, table.columns[i].name.as_str()) {
            return DdlStep::Act(
                DdlAction::AddColumn { column: i },
                EnsureTable { table, stage: DdlStage::Adding { existing, next: i } },
            );
        }
        i += 1;
    }
    from_indexes(table, 0)
}

fn fail_step(table: &Table, doing: &str, f: Failure, cache: &mut Option<SchemaCache>) -> (r:
    DdlStep)
    ensures
        step_failed(
            *table,
            doing@,
            f,
            text::opt_view(*old(cache)),
            r,
            text::opt_view(*final(cache)),
        ),
{
    lookup::invalidate(cache, table.name.as_str());
    match f {
        Failure::Refused(m) => DdlStep::Fail(DatabaseError::InvalidArgument(m)),
        Failure::Failed(e) => DdlStep::Fail(with_context(doing, e)),
    }
}

impl EnsureTable {
    /// Starts to bring `table` to its declared shape. Every name must be a
    /// plain identifier.
    pub fn start(table: Table, cache: &mut Option<SchemaCache>) -> (r: DdlStep)
        ensures
            ddl_starts(table, text::opt_view(*old(cache)), r, text::opt_view(*final(cache))),
    {
        let mut names: Vec<String> = Vec::new();
        names.push(table.name.clone());
        let ghost first = seq![table.name@];
        proof {
            assert(text::views(names@) =~= first + column_names(table.columns@.take(0)));
        }
        for i in 0..table.columns.len()
            invariant
                first == seq![table.name@],
                text::views(names@) == first + column_names(table.columns@.take(i as int)),
        {
            let ghost before = text::views(names@);
            names.push(table.columns[i].name.clone());
            proof {
                assert(text::views(names@) =~= before.push(table.columns@[i as int].name@));
                assert(column_names(table.columns@.take(i + 1)) =~= column_names(
                    table.columns@.take(i as int),
                ).push(table.columns@[i as int].name@));
                assert(text::views(names@) =~= first + column_names(table.columns@.take(i + 1)));
            }
        }
        proof {
            assert(table.columns@.take(table.columns@.len() as int) =~= table.columns@);
        }
        if let Err(e) = rows::sql_names(&names) {
            lookup::invalidate(cache, table.name.as_str());
            return DdlStep::Fail(e);
        }
        DdlStep::Act(
            DdlAction::CreateTable,
            EnsureTable { table, stage: DdlStage::Creating },
        )
    }

    /// Goes on with the result of the action. The result of a statement is
    /// handed in as [`Answer::Added`].
    pub fn resume(self, answer: Answer, cache: &mut Option<SchemaCache>) -> (r: DdlStep)
        ensures
            ddl_goes_on(self, answer, text::opt_view(*old(cache)), r, text::opt_view(*final(cache))),
    {
        let table = self.table;
        match (self.stage, answer) {
            (DdlStage::Creating, Answer::Added(Ok(_))) => {
                lookup::invalidate(cache, table.name.as_str());
                let asked = lookup::generation(cache);
                DdlStep::Act(
                    DdlAction::ListColumns,
                    EnsureTable { table, stage: DdlStage::Listing { asked } },
                )
            },
            (DdlStage::Creating, Answer::Added(Err(f))) => {
                let doing = text::join3("create table ", table.name.as_str(), ": ");
                fail_step(&table, doing.as_str(), f, cache)
            },
            (DdlStage::Listing { asked }, Answer::Columns(Ok((listing, json)))) => {
                let names = lookup::lowercase_names(&listing);
                let noted = TableColumns { names, json };
                let columns = noted.clone();
                lookup::note_columns(cache, table.name.as_str(), noted, asked);
                from_columns(table, columns.names, 0)
            },
            (DdlStage::Adding { existing, next }, Answer::Added(Ok(_))) => {
                lookup::invalidate(cache, table.name.as_str());
                let after: usize = if next < table.columns.len() {
                    next + 1
                } else {
                    next
                };
                from_columns(table, existing, after)
            },
            (DdlStage::Adding { .. }, Answer::Added(Err(Failure::Refused(m)))) => {
                lookup::invalidate(cache, table.name.as_str());
                DdlStep::Fail(DatabaseError::InvalidArgument(m))
            },
            (DdlStage::Adding { existing, next }, Answer::Added(Err(Failure::Failed(failure)))) => {
                lookup::invalidate(cache, table.name.as_str());
                let asked = lookup::generation(cache);
                DdlStep::Act(
                    DdlAction::ListColumns,
                    EnsureTable {
                        table,
                        stage: DdlStage::Recheck { existing, next, failure, asked },
                    },
                )
            },
            (
                DdlStage::Recheck { existing, next, failure, asked },
                Answer::Columns(Ok((listing, json))),
            ) => {
                let names = lookup::lowercase_names(&listing);
                let noted = TableColumns { names, json };
                let columns = noted.clone();
                lookup::note_columns(cache, table.name.as_str(), noted, asked);
                if next < table.columns.len() {
                    if lookup::lists_column(&columns.names, table.columns[next].name.as_str()) {
                        return from_columns(table, existing, next + 1);
                    }
                    let doing = text::join3(
                        "add column ",
                        table.columns[next].name.as_str(),
                        ": ",
                    );
                    lookup::invalidate(cache, table.name.as_str());
                    return DdlStep::Fail(with_context(doing.as_str(), failure));
                }
                let doing = text::join3("add column ", "", ": ");
                lookup::invalidate(cache, table.name.as_str());
                DdlStep::Fail(with_context(doing.as_str(), failure))
            },
            (DdlStage::Indexing { next }, Answer::Added(Ok(_))) => {
                let after: usize = if next < table.indexes.len() {
                    next + 1
                } else {
                    next
                };
                from_indexes(table, after)
            },
            (DdlStage::Indexing { .. }, Answer::Added(Err(f))) => fail_step(
                &table,
                "create index: ",
                f,
                cache,
            ),
            (DdlStage::ForeignKeys, Answer::Added(Ok(_))) => {
                lookup::invalidate(cache, table.name.as_str());
                DdlStep::Done
            },
            (DdlStage::ForeignKeys, Answer::Added(Err(f))) => fail_step(
                &table,
                "create FK index: ",
                f,
                cache,
            ),
            (DdlStage::Listing { .. }, Answer::Columns(Err(e))) => {
                lookup::invalidate(cache, table.name.as_str());
                DdlStep::Fail(e)
            },
            (DdlStage::Recheck { .. }, Answer::Columns(Err(e))) => {
                lookup::invalidate(cache, table.name.as_str());
                DdlStep::Fail(e)
            },
            _ => {
                lookup::invalidate(cache, table.name.as_str());
                DdlStep::Fail(
                    DatabaseError::Internal(
                        "the answer does not fit the question asked of the schema".to_owned(),
                    ),
                )
            },
        }
    }
}

/// A run that ends, well or not, leaves nothing known of its table.
pub proof fn a_finished_run_leaves_nothing_known(
    t: Table,
    run: EnsureTable,
    answer: Answer,
    c: CacheView,
    step: DdlStep,
    c2: Option<CacheView>,
)
    ensures
        ddl_starts(t, Some(c), step, c2) && !(step is Act) ==> c2 is Some && c2->0.of(t.name@)
            == crate::database::schema_cache::nothing(),
        ddl_goes_on(run, answer, Some(c), step, c2) && !(step is Act) ==> c2 is Some && c2->0.of(
            run.table.name@,
        ) == crate::database::schema_cache::nothing(),
{
}

/// A row of a listing names the column: its `name` column holds the column's
/// name, but for the case of letters.
pub open spec fn row_names_column(row: Map<Seq<char>, JsonView>, column: Seq<char>) -> bool {
    row.dom().contains("name"@) && (row["name"@] matches JsonView::Str(n)
        && text::unicode_lowercase(n) == text::unicode_lowercase(column))
}

/// A listing names the column: one of its rows does.
pub open spec fn names_column(answer: Answer, column: Seq<char>) -> bool {
    &&& answer matches Answer::Columns(Ok((listing, _)))
    &&& exists|i: int|
        0 <= i < listing@.len() && #[trigger] row_names_column(listing@[i].data@, column)
}

/// An action was done.
pub open spec fn was_done(answer: Answer) -> bool {
    answer matches Answer::Added(Ok(_))
}

/// The step at `k` acts, and its answer leads to the next.
pub open spec fn leads_on(
    steps: Seq<DdlStep>,
    answers: Seq<Answer>,
    caches: Seq<Option<CacheView>>,
    k: int,
) -> bool {
    steps[k] is Act && ddl_goes_on(
        steps[k]->Act_1,
        answers[k],
        caches[k],
        steps[k + 1],
        caches[k + 1],
    )
}

/// A run over the table `t`, from its start to its good end.
pub open spec fn whole_run(
    t: Table,
    c: Option<CacheView>,
    steps: Seq<DdlStep>,
    answers: Seq<Answer>,
    caches: Seq<Option<CacheView>>,
) -> bool {
    &&& steps.len() == answers.len() + 1
    &&& ddl_starts(t, c, steps[0], caches[0])
    &&& forall|k: int| 0 <= k < answers.len() ==> #[trigger] leads_on(steps, answers, caches, k)
    &&& steps.last() is Done
}

/// From the step `first` on the declared indexes from `from` on are created, one
/// at a step, in order; then those of the foreign keys, and nothing after.
pub open spec fn ends_with_indexes(
    t: Table,
    steps: Seq<DdlStep>,
    answers: Seq<Answer>,
    first: int,
    from: int,
) -> bool {
    &&& answers.len() == first + (t.indexes@.len() - from) + 1
    &&& forall|i: int|
        from <= i < t.indexes@.len() ==> steps[first + i - from] is Act && (#[trigger] steps[first
            + i - from])->Act_0 == (DdlAction::CreateIndex { index: i as usize }) && was_done(
            answers[first + i - from],
        )
    &&& steps[answers.len() - 1] is Act
    &&& steps[answers.len() - 1]->Act_0 == DdlAction::ForeignKeyIndexes
    &&& was_done(answers[answers.len() - 1])
}

proof fn lemma_not_failed(
    t: Table,
    c: Option<CacheView>,
    steps: Seq<DdlStep>,
    answers: Seq<Answer>,
    caches: Seq<Option<CacheView>>,
    k: int,
)
    requires
        whole_run(t, c, steps, answers, caches),
        0 <= k < steps.len(),
    ensures
        k == answers.len() <==> steps[k] is Done,
        k < answers.len() ==> leads_on(steps, answers, caches, k),
{
    if k < answers.len() {
        assert(leads_on(steps, answers, caches, k));
    }
}

proof fn lemma_indexes(
    t: Table,
    c: Option<CacheView>,
    steps: Seq<DdlStep>,
    answers: Seq<Answer>,
    caches: Seq<Option<CacheView>>,
    k: int,
    next: int,
)
    requires
        whole_run(t, c, steps, answers, caches),
        0 <= k < steps.len(),
        0 <= next <= t.indexes@.len(),
        index_step(t, next, steps[k]),
    ensures
        ends_with_indexes(t, steps, answers, k, next),
    decreases t.indexes@.len() - next,
{
    assert(t.indexes@.len() == t.indexes.len());
    assert(leads_on(steps, answers, caches, k));
    lemma_not_failed(t, c, steps, answers, caches, k + 1);
    if next < t.indexes@.len() {
        lemma_indexes(t, c, steps, answers, caches, k + 1, next + 1);
        assert forall|i: int| next <= i < t.indexes@.len() implies steps[k + i - next] is Act && (
        #[trigger] steps[k + i - next])->Act_0 == (DdlAction::CreateIndex { index: i as usize })
            && was_done(answers[k + i - next]) by {
            if i > next {
                assert(k + i - next == k + 1 + i - (next + 1));
                assert(steps[k + 1 + i - (next + 1)] is Act);
            }
        }
    } else {
        assert(steps[k + 1] is Done);
    }
}

proof fn lemma_lacking(columns: Seq<Column>, existing: Seq<Seq<char>>, from: int)
    requires
        0 <= from <= columns.len(),
    ensures
        match first_lacking(columns, existing, from) {
            Some(i) => from <= i < columns.len() && !lookup::has_column(existing, columns[i].name@)
                && forall|j: int|
                from <= j < i ==> #[trigger] lookup::has_column(existing, columns[j].name@),
            None => forall|j: int|
                from <= j < columns.len() ==> #[trigger] lookup::has_column(
                    existing,
                    columns[j].name@,
                ),
        },
    decreases columns.len() - from,
{
    if from < columns.len() && lookup::has_column(existing, columns[from].name@) {
        lemma_lacking(columns, existing, from + 1);
    }
}

/// The column at `i` is added at the step `j`: there, or the listing that
/// follows shows that someone else added it.
pub open spec fn adds_at(
    t: Table,
    steps: Seq<DdlStep>,
    answers: Seq<Answer>,
    j: int,
    i: int,
) -> bool {
    &&& steps[j] is Act
    &&& steps[j]->Act_0 == (DdlAction::AddColumn { column: i as usize })
    &&& was_done(answers[j]) || (steps[j + 1] is Act && steps[j + 1]->Act_0
        == DdlAction::ListColumns && names_column(answers[j + 1], t.columns@[i].name@))
}

/// From the step `first` on, up to `end`, exactly the declared columns from
/// `from` on that are not among `existing` are added, each once, in order.
pub open spec fn adds_lacking(
    t: Table,
    existing: Seq<Seq<char>>,
    steps: Seq<DdlStep>,
    answers: Seq<Answer>,
    first: int,
    end: int,
    from: int,
) -> bool {
    &&& first <= end
    &&& forall|i: int|
        from <= i < t.columns@.len() && !#[trigger] lookup::has_column(
            existing,
            t.columns@[i].name@,
        ) ==> exists|j: int| first <= j < end && #[trigger] adds_at(t, steps, answers, j, i)
    &&& forall|j: int|
        first <= j < end ==> (#[trigger] steps[j]) is Act && match steps[j]->Act_0 {
            DdlAction::AddColumn { column } => from <= column < t.columns@.len()
                && !lookup::has_column(existing, t.columns@[column as int].name@),
            DdlAction::ListColumns => true,
            _ => false,
        }
    &&& forall|j: int, l: int|
        first <= j < l < end && (#[trigger] steps[j])->Act_0 is AddColumn && (
        #[trigger] steps[l])->Act_0 is AddColumn ==> steps[j]->Act_0->column
            < steps[l]->Act_0->column
}

proof fn lemma_names(rows: Seq<crate::database::service::Record>, n: Seq<char>)
    ensures
        lookup::row_names(rows).contains(n) <==> exists|i: int|
            0 <= i < rows.len() && lookup::row_name(#[trigger] rows[i]) == Some(n),
    decreases rows.len(),
{
    if rows.len() > 0 {
        let init = rows.drop_last();
        lemma_names(init, n);
        let before = lookup::row_names(init);
        let all = lookup::row_names(rows);
        if all.contains(n) {
            let k = all.index_of(n);
            if lookup::row_name(rows.last()) is Some && k == before.len() {
                assert(lookup::row_name(rows[rows.len() - 1]) == Some(n));
            } else {
                assert(before[k] == n);
                assert(before.contains(n));
                let i = choose|i: int|
                    0 <= i < init.len() && lookup::row_name(#[trigger] init[i]) == Some(n);
                assert(lookup::row_name(rows[i]) == Some(n));
            }
        }
        if exists|i: int| 0 <= i < rows.len() && lookup::row_name(#[trigger] rows[i]) == Some(n) {
            let i = choose|i: int|
                0 <= i < rows.len() && lookup::row_name(#[trigger] rows[i]) == Some(n);
            if i < rows.len() - 1 {
                assert(lookup::row_name(init[i]) == Some(n));
                let k = before.index_of(n);
                assert(all[k] == n);
            } else {
                assert(all.last() == n);
                assert(all[all.len() - 1] == n);
            }
        }
    }
}

/// The columns remembered of a listing are those that it names.
pub proof fn lemma_listed(
    listing: Vec<crate::database::service::Record>,
    json: crate::database::codec::JsonColumns,
    column: Seq<char>,
    answer: Answer,
    known: Seq<Seq<char>>,
)
    requires
        answer == Answer::Columns(Ok((listing, json))),
    ensures
        lookup::has_column(prepare::listed_columns(listing@, known).names, column) <==> names_column(
            answer,
            column,
        ),
{
    let names = lookup::row_names(listing@);
    let low = lookup::lowered(names);
    let wanted = text::unicode_lowercase(column);
    assert(prepare::listed_columns(listing@, known).names == low);
    assert(low.len() == names.len());
    if low.contains(wanted) {
        let k = low.index_of(wanted);
        let n = names[k];
        assert(low[k] == text::unicode_lowercase(n));
        assert(names.contains(n));
        lemma_names(listing@, n);
        let i = choose|i: int|
            0 <= i < listing@.len() && lookup::row_name(#[trigger] listing@[i]) == Some(n);
        assert(0 <= i < listing@.len());
        assert(row_names_column(listing@[i].data@, column));
        assert(row_names_column(answer->Columns_0->Ok_0.0@[i].data@, column));
        assert(names_column(answer, column));
    }
    if names_column(answer, column) {
        let i = choose|i: int|
            0 <= i < listing@.len() && #[trigger] row_names_column(listing@[i].data@, column);
        let n = lookup::row_name(listing@[i])->0;
        assert(lookup::row_name(listing@[i]) == Some(n));
        lemma_names(listing@, n);
        let k = names.index_of(n);
        assert(names[k] == n);
        assert(low[k] == wanted);
        assert(low.contains(wanted));
    }
}

proof fn lemma_columns(
    t: Table,
    c: Option<CacheView>,
    steps: Seq<DdlStep>,
    answers: Seq<Answer>,
    caches: Seq<Option<CacheView>>,
    existing: Seq<Seq<char>>,
    k: int,
    from: int,
) -> (end: int)
    requires
        whole_run(t, c, steps, answers, caches),
        0 <= k < steps.len(),
        0 <= from <= t.columns@.len(),
        column_step(t, existing, from, steps[k]),
    ensures
        ends_with_indexes(t, steps, answers, end, 0),
        adds_lacking(t, existing, steps, answers, k, end, from),
    decreases t.columns@.len() - from,
{
    assert(t.columns@.len() == t.columns.len());
    assert(leads_on(steps, answers, caches, k));
    lemma_lacking(t.columns@, existing, from);
    match first_lacking(t.columns@, existing, from) {
        None => {
            lemma_indexes(t, c, steps, answers, caches, k, 0);
            k
        },
        Some(i) => {
            let run = steps[k]->Act_1;
            let again = !was_done(answers[k]);
            lemma_not_failed(t, c, steps, answers, caches, k + 1);
            if again {
                lemma_not_failed(t, c, steps, answers, caches, k + 2);
                let answer = answers[k + 1];
                if let Answer::Columns(Ok((listing, json))) = answer {
                    lemma_listed(listing, json, t.columns@[i].name@, answer, json@);
                }
                assert(names_column(answer, t.columns@[i].name@));
            }
            let l = if again {
                k + 2
            } else {
                k + 1
            };
            assert(column_step(t, existing, i + 1, steps[l]));
            let end = lemma_columns(t, c, steps, answers, caches, existing, l, i + 1);
            assert(adds_at(t, steps, answers, k, i));
            assert forall|m: int|
                from <= m < t.columns@.len() && !#[trigger] lookup::has_column(
                    existing,
                    t.columns@[m].name@,
                ) implies exists|j: int|
                k <= j < end && #[trigger] adds_at(t, steps, answers, j, m) by {
                if m > i {
                    let j = choose|j: int|
                        l <= j < end && #[trigger] adds_at(t, steps, answers, j, m);
                    assert(adds_at(t, steps, answers, j, m));
                }
            }
            end
        },
    }
}

/// A run that ends well has done all that the table declares, in this order:
/// it created the table and listed its columns; it added every declared column
/// that the listing does not name, each once, in the order of their
/// declaration, and no other; then it created every declared index, each once,
/// in order; and last the indexes of the foreign keys. Whatever it acted was
/// done, but for a column that a later listing shows to be there.
pub proof fn a_whole_run_does_all_that_is_declared(
    t: Table,
    c: Option<CacheView>,
    steps: Seq<DdlStep>,
    answers: Seq<Answer>,
    caches: Seq<Option<CacheView>>,
) -> (indexes: int)
    requires
        whole_run(t, c, steps, answers, caches),
    ensures
        steps[0]->Act_0 == DdlAction::CreateTable,
        was_done(answers[0]),
        steps[1]->Act_0 == DdlAction::ListColumns,
        answers[1] matches Answer::Columns(Ok(_)),
        2 <= indexes,
        ends_with_indexes(t, steps, answers, indexes, 0),
        forall|i: int|
            0 <= i < t.columns@.len() && !names_column(
                answers[1],
                (#[trigger] t.columns@[i]).name@,
            ) ==> exists|j: int| 2 <= j < indexes && #[trigger] adds_at(t, steps, answers, j, i),
        forall|j: int|
            2 <= j < indexes ==> (#[trigger] steps[j]) is Act && match steps[j]->Act_0 {
                DdlAction::AddColumn { column } => column < t.columns@.len() && !names_column(
                    answers[1],
                    t.columns@[column as int].name@,
                ),
                DdlAction::ListColumns => true,
                _ => false,
            },
        forall|j: int, l: int|
            2 <= j < l < indexes && (#[trigger] steps[j])->Act_0 is AddColumn && (
            #[trigger] steps[l])->Act_0 is AddColumn ==> steps[j]->Act_0->column
                < steps[l]->Act_0->column,
{
    lemma_not_failed(t, c, steps, answers, caches, 0);
    lemma_not_failed(t, c, steps, answers, caches, 1);
    lemma_not_failed(t, c, steps, answers, caches, 2);
    if let Answer::Columns(Ok((listing, json))) = answers[1] {
        let existing = prepare::listed_columns(listing@, json@).names;
        assert forall|i: int| 0 <= i < t.columns@.len() implies lookup::has_column(
            existing,
            (#[trigger] t.columns@[i]).name@,
        ) == names_column(answers[1], t.columns@[i].name@) by {
            lemma_listed(listing, json, t.columns@[i].name@, answers[1], json@);
        }
        let end = lemma_columns(t, c, steps, answers, caches, existing, 2, 0);
        assert forall|i: int|
            0 <= i < t.columns@.len() && !names_column(
                answers[1],
                (#[trigger] t.columns@[i]).name@,
            ) implies exists|j: int|
            2 <= j < end && #[trigger] adds_at(t, steps, answers, j, i) by {
            assert(!lookup::has_column(existing, t.columns@[i].name@));
        }
        end
    } else {
        0
    }
}

// ---------------------------------------------------------------------------
// Asking after a table
// ---------------------------------------------------------------------------

/// What comes next when the columns of a table are asked for.
#[derive(Debug)]
pub enum ColumnsStep {
    /// They are to be listed; the answer is noted for this generation.
    Ask(Question, Option<u64>),
    Known(Vec<String>),
    Fail(DatabaseError),
}

/// How the columns of a table are asked for.
pub open spec fn columns_asked(
    table: String,
    c: Option<CacheView>,
    step: ColumnsStep,
) -> bool {
    if !ident::plain(table@) {
        step matches ColumnsStep::Fail(e) && rows::refuses_sql_name(e, table@)
    } else {
        match lookup::known_columns(c, table@) {
            Some(known) => step matches ColumnsStep::Known(names) && text::views(names@)
                == known.names,
            None => step == ColumnsStep::Ask(
                Question::ListColumns { table },
                lookup::generation_of(c),
            ),
        }
    }
}

/// Starts to find out the columns of `table`, in lower case; a table that is
/// not there has none.
pub fn schema_columns(table: String, cache: &Option<SchemaCache>) -> (r: ColumnsStep)
    ensures
        columns_asked(table, text::opt_view(*cache), r),
{
    if let Err(e) = sql_name(table.as_str()) {
        return ColumnsStep::Fail(e);
    }
    match lookup::columns(cache, table.as_str()) {
        Some(known) => ColumnsStep::Known(known.names),
        None => {
            let asked = lookup::generation(cache);
            ColumnsStep::Ask(Question::ListColumns { table }, asked)
        },
    }
}

/// What the listing of a table's columns leads to.
pub open spec fn columns_listed(
    table: Seq<char>,
    answer: Answer,
    asked: Option<u64>,
    c: Option<CacheView>,
    r: Result<Vec<String>, DatabaseError>,
    c2: Option<CacheView>,
) -> bool {
    match answer {
        Answer::Columns(Ok((listing, json))) => {
            let columns = prepare::listed_columns(listing@, json@);
            c2 == lookup::noted_columns(c, table, columns, asked) && (r matches Ok(names)
                && text::views(names@) == columns.names)
        },
        Answer::Columns(Err(e)) => c2 == c && r == Err::<Vec<String>, DatabaseError>(e),
        _ => c2 == c && (r matches Err(DatabaseError::Internal(m)) && m@
            == "the answer does not fit the question asked of the schema"@),
    }
}

/// Goes on with the listing of `table`'s columns.
pub fn schema_columns_listed(
    table: &str,
    answer: Answer,
    asked: Option<u64>,
    cache: &mut Option<SchemaCache>,
) -> (r: Result<Vec<String>, DatabaseError>)
    ensures
        columns_listed(
            table@,
            answer,
            asked,
            text::opt_view(*old(cache)),
            r,
            text::opt_view(*final(cache)),
        ),
{
    match answer {
        Answer::Columns(Ok((listing, json))) => {
            let names = lookup::lowercase_names(&listing);
            let noted = TableColumns { names, json };
            let columns = noted.clone();
            lookup::note_columns(cache, table, noted, asked);
            Ok(columns.names)
        },
        Answer::Columns(Err(e)) => Err(e),
        _ => Err(
            DatabaseError::Internal(
                "the answer does not fit the question asked of the schema".to_owned(),
            ),
        ),
    }
}

/// Asks whether `name` exists. The answer is taken from the database itself,
/// never from what is remembered.
pub fn schema_table_exists(name: String) -> (r: Result<Question, DatabaseError>)
    ensures
        match r {
            Ok(q) => ident::plain(name@) && q == (Question::TableExists { table: name }),
            Err(e) => !ident::plain(name@) && rows::refuses_sql_name(e, name@),
        },
{
    if let Err(e) = sql_name(name.as_str()) {
        return Err(e);
    }
    Ok(Question::TableExists { table: name })
}

/// The columns that a table is said to have are those that its listing names, in
/// lower case and in its order, whatever was remembered.
pub proof fn columns_are_those_listed(
    table: Seq<char>,
    listing: Vec<crate::database::service::Record>,
    json: crate::database::codec::JsonColumns,
    asked: Option<u64>,
    c: Option<CacheView>,
    r: Result<Vec<String>, DatabaseError>,
    c2: Option<CacheView>,
    column: Seq<char>,
)
    requires
        columns_listed(table, Answer::Columns(Ok((listing, json))), asked, c, r, c2),
    ensures
        r is Ok,
        text::views(r->Ok_0@).contains(text::unicode_lowercase(column)) <==> names_column(
            Answer::Columns(Ok((listing, json))),
            column,
        ),
{
    let answer = Answer::Columns(Ok((listing, json)));
    lemma_listed(listing, json, column, answer, json@);
}

} // verus!
