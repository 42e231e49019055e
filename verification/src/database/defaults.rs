//! What a backend does that states no way of its own: deleting record by
//! record, counting before a bulk write, bringing tables up one by one.

use vstd::prelude::*;

use crate::database::filter::{clone_filters, Filter};
use crate::database::service::{DatabaseError, ListOptions, RecordList};
use crate::text;

verus! {

/// How many records are listed at a time while they are deleted.
pub const DELETE_PAGE: i64 = 10_000;

/// Records being deleted one by one; `ids` are those of the page at hand, of
/// which the first `next` are gone.
#[derive(Debug)]
pub struct DeleteEach {
    pub filters: Vec<Filter>,
    pub ids: Vec<String>,
    pub next: usize,
}

/// What comes next.
#[derive(Debug)]
pub enum DeleteStep {
    /// List the next records that match.
    List(ListOptions, DeleteEach),
    /// Delete the record with this id.
    Delete(String, DeleteEach),
    Done,
    Fail(DatabaseError),
}

/// A page of the records that match the filters, in no order.
pub open spec fn lists_page(filters: Seq<Filter>, opts: ListOptions) -> bool {
    &&& text::views(opts.filters@) == text::views(filters)
    &&& opts.filter_tree is None
    &&& opts.sort@.len() == 0
    &&& opts.limit == Some(DELETE_PAGE)
    &&& opts.offset == 0
    &&& !opts.skip_count
    &&& opts.columns is None
}

/// The next page is listed.
pub open spec fn lists_next(filters: Vec<Filter>, step: DeleteStep) -> bool {
    step matches DeleteStep::List(opts, run) && lists_page(filters@, opts) && run.filters
        == filters && run.ids@.len() == 0 && run.next == 0
}

/// The record at `next` is deleted.
pub open spec fn deletes(run: DeleteEach, next: int, step: DeleteStep) -> bool {
    step matches DeleteStep::Delete(id, after) && id@ == run.ids@[next]@ && after.filters
        == run.filters && after.ids == run.ids && after.next == next
}

/// The ids of the records of a page, in order.
pub open spec fn ids_of(list: RecordList) -> Seq<Seq<char>> {
    list.records@.map_values(|r: crate::database::service::Record| r.id@)
}

fn list_next(filters: Vec<Filter>) -> (r: DeleteStep)
    ensures
        lists_next(filters, r),
{
    let opts = ListOptions {
        filters: clone_filters(&filters),
        filter_tree: None,
        sort: Vec::new(),
        limit: Some(DELETE_PAGE),
        offset: 0,
        skip_count: false,
        columns: None,
    };
    DeleteStep::List(opts, DeleteEach { filters, ids: Vec::new(), next: 0 })
}

impl DeleteEach {
    /// Starts to delete every record that matches `filters`.
    pub fn start(filters: Vec<Filter>) -> (r: DeleteStep)
        ensures
            lists_next(filters, r),
    {
        list_next(filters)
    }

    /// Goes on with a page of records: it is over once none match.
    pub fn listed(self, page: Result<RecordList, DatabaseError>) -> (r: DeleteStep)
        ensures
            match page {
                Err(e) => r == DeleteStep::Fail(e),
                Ok(list) => if list.records@.len() == 0 {
                    r == DeleteStep::Done
                } else {
                    r matches DeleteStep::Delete(id, run) && id@ == list.records@[0].id@
                        && run.filters == self.filters && text::views(run.ids@) == ids_of(list)
                        && run.next == 0
                },
            },
    {
        match page {
            Err(e) => DeleteStep::Fail(e),
            Ok(list) => {
                if list.records.len() == 0 {
                    return DeleteStep::Done;
                }
                let mut ids: Vec<String> = Vec::new();
                for i in 0..list.records.len()
                    invariant
                        ids@.len() == i,
                        forall|k: int|
                            0 <= k < i ==> #[trigger] ids@[k]@ == list.records@[k].id@,
                {
                    ids.push(list.records[i].id.clone());
                }
                proof {
                    assert(text::views(ids@) =~= ids_of(list));
                }
                let first = list.records[0].id.clone();
                DeleteStep::Delete(first, DeleteEach { filters: self.filters, ids, next: 0 })
            },
        }
    }

    /// Goes on once the record at hand is deleted: with the next of the page,
    /// or with the next page.
    pub fn deleted(self, outcome: Result<(), DatabaseError>) -> (r: DeleteStep)
        ensures
            match outcome {
                Err(e) => r == DeleteStep::Fail(e),
                Ok(()) => if self.next + 1 < self.ids@.len() {
                    deletes(self, self.next + 1, r)
                } else {
                    lists_next(self.filters, r)
                },
            },
    {
        match outcome {
            Err(e) => DeleteStep::Fail(e),
            Ok(()) => {
                if self.next < self.ids.len() && self.next + 1 < self.ids.len() {
                    let next: usize = self.next + 1;
                    let id = self.ids[next].clone();
                    return DeleteStep::Delete(
                        id,
                        DeleteEach { filters: self.filters, ids: self.ids, next },
                    );
                }
                list_next(self.filters)
            },
        }
    }
}

/// A bulk write whose records are counted first.
#[derive(Clone, Copy, Debug, PartialEq, Eq, Structural)]
pub enum CountedWrite {
    Counting,
    Writing { count: i64 },
}

/// What comes next.
#[derive(Debug)]
pub enum CountedStep {
    /// Count the records that match.
    Count(CountedWrite),
    /// Write them.
    Write(CountedWrite),
    /// So many matched before they were written.
    Done(i64),
    Fail(DatabaseError),
}

impl CountedWrite {
    /// Starts a write whose records are counted first.
    pub fn start() -> (r: CountedStep)
        ensures
            r == CountedStep::Count(CountedWrite::Counting),
    {
        CountedStep::Count(CountedWrite::Counting)
    }

    /// Goes on once they are counted.
    pub fn counted(count: Result<i64, DatabaseError>) -> (r: CountedStep)
        ensures
            r == match count {
                Ok(n) => CountedStep::Write(CountedWrite::Writing { count: n }),
                Err(e) => CountedStep::Fail(e),
            },
    {
        match count {
            Ok(n) => CountedStep::Write(CountedWrite::Writing { count: n }),
            Err(e) => CountedStep::Fail(e),
        }
    }

    /// Ends with the count from before the write, once they are written. A
    /// write that was not counted is an error.
    pub fn written(self, outcome: Result<(), DatabaseError>) -> (r: CountedStep)
        ensures
            match (outcome, self) {
                (Err(e), _) => r == CountedStep::Fail(e),
                (Ok(()), CountedWrite::Writing { count }) => r == CountedStep::Done(count),
                (Ok(()), CountedWrite::Counting) => r matches CountedStep::Fail(
                    DatabaseError::Internal(m),
                ) && m@ == "written before it was counted"@,
            },
    {
        match (outcome, self) {
            (Err(e), _) => CountedStep::Fail(e),
            (Ok(()), CountedWrite::Writing { count }) => CountedStep::Done(count),
            (Ok(()), CountedWrite::Counting) => CountedStep::Fail(
                DatabaseError::Internal("written before it was counted".to_owned()),
            ),
        }
    }
}

/// What a backend answers that cannot increment in one step: reading and
/// writing back would race, so there is no other way.
pub fn increment_field_where() -> (r: DatabaseError)
    ensures
        r matches DatabaseError::Internal(m) && m@
            == "increment_field_where is not implemented by this database backend"@,
{
    DatabaseError::Internal(
        "increment_field_where is not implemented by this database backend".to_owned(),
    )
}

/// What comes next while tables are brought up one by one.
#[derive(Debug, PartialEq, Eq)]
pub enum TablesStep {
    /// Bring up the table at this place.
    Ensure(usize),
    Done,
    Fail(DatabaseError),
}

/// Starts to bring up so many tables.
pub fn ensure_schema_tables(tables: usize) -> (r: TablesStep)
    ensures
        r == if tables > 0 {
            TablesStep::Ensure(0)
        } else {
            TablesStep::Done
        },
{
    if tables > 0 {
        TablesStep::Ensure(0)
    } else {
        TablesStep::Done
    }
}

/// Goes on once the table at `at` was tried: with the next one, or not, where
/// it failed.
pub fn schema_table_ensured(
    tables: usize,
    at: usize,
    outcome: Result<(), DatabaseError>,
) -> (r: TablesStep)
    ensures
        r == match outcome {
            Err(e) => TablesStep::Fail(e),
            Ok(()) => if at + 1 < tables {
                TablesStep::Ensure((at + 1) as usize)
            } else {
                TablesStep::Done
            },
        },
{
    match outcome {
        Err(e) => TablesStep::Fail(e),
        Ok(()) => if at < tables && at + 1 < tables {
            TablesStep::Ensure(at + 1)
        } else {
            TablesStep::Done
        },
    }
}

// ---------------------------------------------------------------------------
// Whole runs
// ---------------------------------------------------------------------------

/// The step at `k` deletes a record, and once that is done the next follows.
pub open spec fn deletes_on(steps: Seq<DeleteStep>, k: int) -> bool {
    steps[k] is Delete && call_ensures(
        DeleteEach::deleted,
        (steps[k]->Delete_1, Ok::<(), DatabaseError>(())),
        steps[k + 1],
    )
}

/// Every record of a page is deleted, each once, in the order of the page, and
/// then the records that match the same filters are listed again.
pub proof fn every_listed_record_is_deleted(
    run: DeleteEach,
    list: RecordList,
    steps: Seq<DeleteStep>,
)
    requires
        list.records@.len() > 0,
        steps.len() == list.records@.len() + 1,
        call_ensures(
            DeleteEach::listed,
            (run, Ok::<RecordList, DatabaseError>(list)),
            steps[0],
        ),
        forall|k: int| 0 <= k < list.records@.len() ==> #[trigger] deletes_on(steps, k),
    ensures
        forall|k: int|
            0 <= k < list.records@.len() ==> (#[trigger] steps[k])->Delete_0@
                == list.records@[k].id@,
        steps.last() matches DeleteStep::List(opts, next) && text::views(opts.filters@)
            == text::views(run.filters@) && opts.offset == 0 && opts.filter_tree is None
            && opts.columns is None && next.filters == run.filters,
{
    let n = list.records@.len() as int;
    lemma_deletes(run, list, steps, n - 1);
    assert(deletes_on(steps, n - 1));
    let ids = steps[n - 1]->Delete_1.ids@;
    assert(text::views(ids).len() == ids.len());
    assert(steps.last() == steps[n - 1 + 1]);
    assert forall|k: int| 0 <= k < n implies (#[trigger] steps[k])->Delete_0@
        == list.records@[k].id@ by {
        lemma_deletes(run, list, steps, k);
    }
}

proof fn lemma_deletes(run: DeleteEach, list: RecordList, steps: Seq<DeleteStep>, k: int)
    requires
        steps.len() == list.records@.len() + 1,
        call_ensures(
            DeleteEach::listed,
            (run, Ok::<RecordList, DatabaseError>(list)),
            steps[0],
        ),
        forall|k: int| 0 <= k < list.records@.len() ==> #[trigger] deletes_on(steps, k),
        0 <= k < list.records@.len(),
    ensures
        steps[k] is Delete,
        steps[k]->Delete_0@ == list.records@[k].id@,
        steps[k]->Delete_1.filters == run.filters,
        text::views(steps[k]->Delete_1.ids@) == ids_of(list),
        steps[k]->Delete_1.next == k,
    decreases k,
{
    assert(deletes_on(steps, k));
    if k > 0 {
        lemma_deletes(run, list, steps, k - 1);
        assert(deletes_on(steps, k - 1));
        let ids = steps[k - 1]->Delete_1.ids@;
        assert(text::views(ids).len() == ids.len());
        assert(text::views(ids)[k] == ids[k]@);
        assert(ids_of(list)[k] == list.records@[k].id@);
    }
}

/// Nothing is left where deleting ends: it does so only where a listing of the
/// records that match came back empty.
pub proof fn deleting_ends_where_none_match(
    run: DeleteEach,
    page: Result<RecordList, DatabaseError>,
    outcome: Result<(), DatabaseError>,
    step: DeleteStep,
)
    ensures
        call_ensures(DeleteEach::listed, (run, page), step) && step is Done ==> page is Ok
            && page->Ok_0.records@.len() == 0,
        call_ensures(DeleteEach::deleted, (run, outcome), step) ==> !(step is Done),
        call_ensures(DeleteEach::listed, (run, page), step) && page is Err ==> step
            == DeleteStep::Fail(page->Err_0),
        call_ensures(DeleteEach::deleted, (run, outcome), step) && outcome is Err ==> step
            == DeleteStep::Fail(outcome->Err_0),
{
}

/// A counted write answers with the very count from before it was written, and
/// writes only once that is known.
pub proof fn a_counted_write_answers_with_its_count(
    n: i64,
    first: CountedStep,
    second: CountedStep,
    third: CountedStep,
)
    requires
        call_ensures(CountedWrite::start, (), first),
        call_ensures(CountedWrite::counted, (Ok::<i64, DatabaseError>(n),), second),
        second is Write,
        call_ensures(
            CountedWrite::written,
            (second->Write_0, Ok::<(), DatabaseError>(())),
            third,
        ),
    ensures
        first is Count,
        third == CountedStep::Done(n),
{
}

/// The table at `k` is brought up, and once it is the next step follows.
pub open spec fn ensures_on(tables: usize, steps: Seq<TablesStep>, k: int) -> bool {
    steps[k] is Ensure && call_ensures(
        schema_table_ensured,
        (tables, steps[k]->Ensure_0, Ok::<(), DatabaseError>(())),
        steps[k + 1],
    )
}

/// Every table is brought up, each once, in order, and then nothing is left.
pub proof fn every_table_is_brought_up(tables: usize, steps: Seq<TablesStep>, k: int)
    requires
        steps.len() == tables + 1,
        call_ensures(ensure_schema_tables, (tables,), steps[0]),
        forall|k: int| 0 <= k < tables ==> #[trigger] ensures_on(tables, steps, k),
        0 <= k <= tables,
    ensures
        k < tables ==> steps[k] == TablesStep::Ensure(k as usize),
        k == tables ==> steps[k] == TablesStep::Done,
    decreases k,
{
    if k > 0 {
        every_table_is_brought_up(tables, steps, k - 1);
        assert(ensures_on(tables, steps, k - 1));
    }
}

} // verus!
