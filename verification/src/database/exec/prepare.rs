//! What an operation settles before its own statement runs: that the table is
//! there, that the columns it names exist, which key a new row gets, that the
//! columns it writes exist (adding those that do not), and by which key rows
//! are told apart.
//!
//! A [`Preparation`] is driven from outside: each step either asks a
//! [`Question`], to be answered by [`Preparation::resume`], or ends. Between
//! question and answer others may use the same cache.

use vstd::prelude::*;

use crate::database::codec::JsonColumns;
use crate::database::exec::lookup;
use crate::database::exec::rows;
use crate::database::exec::rows::{
    prepare_created_row, sorted_columns, sql_names, sql_row, stamp_timestamps,
};
use crate::database::exec::statement;
use crate::database::exec::statement::{with_context, Failure};
use crate::database::schema_cache;
use crate::database::schema_cache::{CacheView, ColumnsView, SchemaCache, TableColumns};
use crate::database::service::{DatabaseError, Record};
use crate::json;
use crate::json::{Json, JsonView};
use crate::row;
use crate::row::Row;
use crate::text;

verus! {

/// What is done to the rows an operation writes.
#[derive(Clone, Copy, Debug, PartialEq, Eq, Structural)]
pub enum Policy {
    /// They are written as they are.
    Keep,
    /// They are stamped as updated.
    Stamp,
    /// They get a key and both timestamps.
    Create,
}

/// What an operation needs of the schema before its own statement runs.
#[derive(Debug)]
pub struct Need {
    pub table: String,
    /// A missing table ends the preparation.
    pub guard: bool,
    /// Columns that must exist; none of them is ever added.
    pub require: Vec<String>,
    /// Rows to write; a column they name is added where it is missing.
    pub rows: Vec<Row>,
    pub policy: Policy,
    /// A new row's key depends on whether the table fills it.
    pub ask_generates: bool,
    /// Rows are ordered, last by the table's key.
    pub order: bool,
}

/// What was settled.
#[derive(Debug)]
pub struct Prepared {
    pub table: String,
    /// Whether the table is there. Where it is not, nothing else is settled.
    pub present: bool,
    /// The rows to write, after the policy.
    pub rows: Vec<Row>,
    /// The table's key; nothing where rows are not ordered.
    pub key: Vec<String>,
}

/// What is asked of the database.
#[derive(Debug)]
pub enum Question {
    /// Whether the table exists.
    TableExists { table: String },
    /// Which columns the table has.
    ListColumns { table: String },
    /// Which columns make the table's primary key.
    ListPrimaryKey { table: String },
    /// Whether the table fills `id` itself.
    GeneratesId { table: String },
    /// To add a column of the type that suits the value.
    AddColumn { table: String, column: String, value: Json },
}

/// What the database answered.
#[derive(Debug)]
pub enum Answer {
    Exists(Result<bool, DatabaseError>),
    /// A row for each column, and the columns declared to hold JSON.
    Columns(Result<(Vec<Record>, JsonColumns), DatabaseError>),
    Key(Result<Vec<Record>, DatabaseError>),
    Generates(bool),
    Added(Result<i64, Failure>),
}

/// Which answer a preparation waits for. A stage that will note what it
/// learns holds the generation in which it asked.
#[derive(Debug)]
pub enum Stage {
    Present { asked: Option<u64> },
    /// `again` is set when the remembered columns were not trusted.
    Require { asked: Option<u64>, again: bool },
    Generates { asked: Option<u64> },
    Existing { asked: Option<u64> },
    /// Column `next` of `sample` is being added.
    Adding { sample: Vec<(String, Json)>, existing: Vec<String>, next: usize },
    /// Adding column `next` failed; someone else may have added it.
    Recheck {
        sample: Vec<(String, Json)>,
        existing: Vec<String>,
        next: usize,
        failure: DatabaseError,
        asked: Option<u64>,
    },
    Key { asked: Option<u64> },
    /// The key came back empty; whether the table exists is not known.
    KeyPresent { key: Vec<String>, asked: Option<u64> },
}

/// A preparation that waits for an answer.
#[derive(Debug)]
pub struct Preparation {
    pub need: Need,
    pub stage: Stage,
}

/// What comes next.
#[derive(Debug)]
pub enum PrepStep {
    Ask(Question, Preparation),
    Ready(Prepared),
    Fail(DatabaseError),
}

// ---------------------------------------------------------------------------
// One sample value for each column
// ---------------------------------------------------------------------------

/// The samples `m` after a row was looked at: a column gets the row's value
/// where it has none yet, or only a null.
pub open spec fn sample_merge(
    m: Map<Seq<char>, JsonView>,
    r: Map<Seq<char>, JsonView>,
) -> Map<Seq<char>, JsonView> {
    Map::new(
        |k: Seq<char>| m.dom().contains(k) || r.dom().contains(k),
        |k: Seq<char>|
            if m.dom().contains(k) && (!(m[k] is Null) || !r.dom().contains(k) || r[k] is Null) {
                m[k]
            } else {
                r[k]
            },
    )
}

/// One value for each column that any row names: the first that is not null,
/// where there is one.
pub open spec fn sampled(rows: Seq<Row>) -> Map<Seq<char>, JsonView>
    decreases rows.len(),
{
    if rows.len() == 0 {
        Map::empty()
    } else {
        sample_merge(sampled(rows.drop_last()), rows.last()@)
    }
}

/// The sample of a single row is the row.
pub proof fn one_row_is_its_own_sample(r: Row)
    ensures
        sampled(seq![r]) == r@,
{
    reveal_with_fuel(sampled, 2);
    assert(seq![r].drop_last() =~= Seq::empty());
    assert(sampled(seq![r]) =~= r@);
}

/// The columns of a map, in the order of their names.
pub open spec fn sorted_entries(m: Map<Seq<char>, JsonView>) -> Seq<(Seq<char>, JsonView)> {
    choose|s: Seq<(Seq<char>, JsonView)>| rows::in_order(s) && row::entries_map(s) == m
}

proof fn lemma_sorted_entries(m: Map<Seq<char>, JsonView>, pairs: Seq<(String, Json)>)
    requires
        rows::pairs_of(m, pairs),
    ensures
        json::entry_views(pairs) == sorted_entries(m),
{
    let s = json::entry_views(pairs);
    assert(rows::in_order(s) && row::entries_map(s) == m);
    rows::lemma_sorted_unique(s, sorted_entries(m));
}

/// One sample value for each column that any row names.
pub fn sample(given: &Vec<Row>) -> (r: Row)
    ensures
        r@ == sampled(given@),
{
    let mut out = Row::new();
    proof {
        assert(given@.take(0) =~= Seq::empty());
    }
    for i in 0..given.len()
        invariant
            out@ == sampled(given@.take(i as int)),
    {
        let ghost m = out@;
        let n: usize = given[i].len();
        let ghost all = given@[i as int].listed();
        proof {
            assert(given@.take(i + 1).drop_last() =~= given@.take(i as int));
            assert(all.take(0) =~= Seq::empty());
            assert(sample_merge(m, row::entries_map(all.take(0))) =~= m);
        }
        for j in 0..n
            invariant
                i < given@.len(),
                n == all.len(),
                all == given@[i as int].listed(),
                row::distinct_names(all),
                out@ == sample_merge(m, row::entries_map(all.take(j as int))),
        {
            let name = given[i].name_at(j);
            let value = given[i].value_at(j);
            let ghost so_far = row::entries_map(all.take(j as int));
            proof {
                assert(all.take(j + 1).drop_last() =~= all.take(j as int));
                let seen = all.take(j as int);
                assert(row::distinct_names(seen)) by {
                    assert forall|a: int, b: int| 0 <= a < b < seen.len() implies (
                    #[trigger] seen[a]).0 != (#[trigger] seen[b]).0 by {
                        assert(all[a].0 != all[b].0);
                    }
                }
                row::lemma_entries_map(seen);
                if so_far.dom().contains(name@) {
                    let a = choose|a: int| 0 <= a < seen.len() && (#[trigger] seen[a]).0 == name@;
                    assert(all[a].0 != all[j as int].0);
                }
            }
            let keep = match out.get(name) {
                Some(held) => !held.is_null() || value.is_null(),
                None => false,
            };
            if !keep {
                out.insert(name.to_owned(), value.clone());
            }
            proof {
                assert(out@ =~= sample_merge(m, so_far.insert(name@, value@)));
            }
        }
        proof {
            assert(all.take(n as int) =~= all);
        }
    }
    proof {
        assert(given@.take(given@.len() as int) =~= given@);
    }
    out
}

// ---------------------------------------------------------------------------
// What each point of a preparation leads to
// ---------------------------------------------------------------------------

/// The policy made of the rows `before` the rows `after`.
pub open spec fn policy_applied(
    policy: Policy,
    autogenerates_id: bool,
    before: Seq<Row>,
    after: Seq<Row>,
) -> bool {
    &&& after.len() == before.len()
    &&& forall|i: int|
        0 <= i < before.len() ==> match policy {
            Policy::Keep => (#[trigger] after[i])@ == before[i]@,
            Policy::Stamp => rows::is_stamped(before[i]@, after[i]@),
            Policy::Create => rows::is_created(before[i]@, autogenerates_id, after[i]@),
        }
}

/// The first sample from `from` on whose column does not stand among
/// `existing`.
pub open spec fn first_absent(
    sample: Seq<(Seq<char>, JsonView)>,
    existing: Seq<Seq<char>>,
    from: int,
) -> Option<int>
    decreases sample.len() - from,
{
    if from < 0 || from >= sample.len() {
        None
    } else if !lookup::has_column(existing, sample[from].0) {
        Some(from)
    } else {
        first_absent(sample, existing, from + 1)
    }
}

/// What is said of a required column that the table lacks.
pub open spec fn lacks_column(table: Seq<char>, column: Seq<char>) -> Seq<char> {
    "`"@ + table + "` has no column `"@ + column + "`"@
}

/// The step asks `q` and waits in stage `s` with the needs `n`.
pub open spec fn waits(step: PrepStep, n: Need, q: Question, s: Stage) -> bool {
    step == PrepStep::Ask(q, Preparation { need: n, stage: s })
}

/// The preparation is over, with key `key`.
pub open spec fn ends(step: PrepStep, n: Need, key: Seq<Seq<char>>) -> bool {
    step matches PrepStep::Ready(p) && p.table == n.table && p.present && p.rows == n.rows
        && text::views(p.key@) == key
}

/// The last point: the key, where rows are ordered.
pub open spec fn key_step(
    n: Need,
    c: Option<CacheView>,
    step: PrepStep,
    c2: Option<CacheView>,
) -> bool {
    &&& c2 == c
    &&& if !n.order {
        ends(step, n, Seq::empty())
    } else {
        match lookup::known_key(c, n.table@) {
            Some(key) => ends(step, n, key),
            None => waits(
                step,
                n,
                Question::ListPrimaryKey { table: n.table },
                Stage::Key { asked: lookup::generation_of(c) },
            ),
        }
    }
}

/// The columns to write: the next that is missing is added.
pub open spec fn adding_step(
    n: Need,
    sample: Seq<(Seq<char>, JsonView)>,
    existing: Seq<Seq<char>>,
    next: int,
    c: Option<CacheView>,
    step: PrepStep,
    c2: Option<CacheView>,
) -> bool {
    match first_absent(sample, existing, next) {
        None => key_step(n, c, step, c2),
        Some(i) => {
            &&& c2 == c
            &&& step matches PrepStep::Ask(Question::AddColumn { table, column, value }, p)
            &&& table == n.table
            &&& column@ == sample[i].0
            &&& value@ == sample[i].1
            &&& p.need == n
            &&& p.stage matches Stage::Adding { sample: s, existing: e, next: k }
            &&& json::entry_views(s@) == sample
            &&& text::views(e@) == existing
            &&& k == i
        },
    }
}

/// The columns to write: their names, then which of them exist.
pub open spec fn data_step(
    n: Need,
    strict: bool,
    c: Option<CacheView>,
    step: PrepStep,
    c2: Option<CacheView>,
) -> bool {
    let columns = sampled(n.rows@);
    if n.rows@.len() == 0 {
        key_step(n, c, step, c2)
    } else if !rows::columns_plain(columns) {
        c2 == c && (step matches PrepStep::Fail(e) && rows::bad_column(columns, e))
    } else if strict {
        key_step(n, c, step, c2)
    } else {
        match lookup::known_columns(c, n.table@) {
            Some(known) => adding_step(n, sorted_entries(columns), known.names, 0, c, step, c2),
            None => c2 == c && waits(
                step,
                n,
                Question::ListColumns { table: n.table },
                Stage::Existing { asked: lookup::generation_of(c) },
            ),
        }
    }
}

/// The needs `n` with the rows `rows`.
pub open spec fn with_rows(n: Need, rows: Vec<Row>) -> Need {
    Need { rows, ..n }
}

/// The rows to write: the policy is applied to them.
pub open spec fn policy_step(
    n: Need,
    autogenerates_id: bool,
    strict: bool,
    c: Option<CacheView>,
    step: PrepStep,
    c2: Option<CacheView>,
) -> bool {
    exists|after: Vec<Row>|
        #[trigger] policy_applied(n.policy, autogenerates_id, n.rows@, after@) && data_step(
            with_rows(n, after),
            strict,
            c,
            step,
            c2,
        )
}

/// The key of new rows: whether the table fills it.
pub open spec fn generates_step(
    n: Need,
    strict: bool,
    c: Option<CacheView>,
    step: PrepStep,
    c2: Option<CacheView>,
) -> bool {
    if n.ask_generates {
        match lookup::known_generates(c, n.table@) {
            Some(g) => policy_step(n, g, strict, c, step, c2),
            None => c2 == c && waits(
                step,
                n,
                Question::GeneratesId { table: n.table },
                Stage::Generates { asked: lookup::generation_of(c) },
            ),
        }
    } else {
        policy_step(n, false, strict, c, step, c2)
    }
}

/// The required columns, held against those that exist. A remembered list may
/// be older than a column that someone else added: it is read once more before
/// anything is refused.
pub open spec fn checked_step(
    n: Need,
    existing: Seq<Seq<char>>,
    again: bool,
    strict: bool,
    c: Option<CacheView>,
    step: PrepStep,
    c2: Option<CacheView>,
) -> bool {
    match lookup::first_missing(text::views(n.require@), existing) {
        None => generates_step(n, strict, c, step, c2),
        Some(column) => if again {
            c2 == c && (step matches PrepStep::Fail(DatabaseError::InvalidArgument(m)) && m@
                == lacks_column(n.table@, column))
        } else {
            c2 == lookup::changed(c, n.table@) && waits(
                step,
                n,
                Question::ListColumns { table: n.table },
                Stage::Require { asked: lookup::generation_of(c2), again: true },
            )
        },
    }
}

/// The required columns: their names, then whether they exist.
pub open spec fn require_step(
    n: Need,
    strict: bool,
    c: Option<CacheView>,
    step: PrepStep,
    c2: Option<CacheView>,
) -> bool {
    match rows::first_bad_name(text::views(n.require@)) {
        Some(bad) => c2 == c && (step matches PrepStep::Fail(e) && rows::refuses_sql_name(e, bad)),
        None => if strict || n.require@.len() == 0 {
            generates_step(n, strict, c, step, c2)
        } else {
            match lookup::known_columns(c, n.table@) {
                Some(known) => checked_step(n, known.names, false, strict, c, step, c2),
                None => c2 == c && waits(
                    step,
                    n,
                    Question::ListColumns { table: n.table },
                    Stage::Require { asked: lookup::generation_of(c), again: false },
                ),
            }
        },
    }
}

/// The first point: whether the table is there. A strict schema is trusted.
pub open spec fn start_step(
    n: Need,
    strict: bool,
    c: Option<CacheView>,
    step: PrepStep,
    c2: Option<CacheView>,
) -> bool {
    if n.guard && !strict && !lookup::known_present(c, n.table@) {
        c2 == c && waits(
            step,
            n,
            Question::TableExists { table: n.table },
            Stage::Present { asked: lookup::generation_of(c) },
        )
    } else {
        require_step(n, strict, c, step, c2)
    }
}

/// A table that is not there ends the preparation with nothing settled.
pub open spec fn ends_missing(step: PrepStep, n: Need) -> bool {
    step matches PrepStep::Ready(p) && p.table == n.table && !p.present && p.rows@.len() == 0
        && p.key@.len() == 0
}

/// The columns that a listing says, as they are remembered.
pub open spec fn listed_columns(rows: Seq<Record>, json: Seq<Seq<char>>) -> ColumnsView {
    ColumnsView { names: lookup::lowered(lookup::row_names(rows)), json }
}

/// An answer to another question than the one asked.
pub open spec fn mismatched(step: PrepStep) -> bool {
    step matches PrepStep::Fail(DatabaseError::Internal(m)) && m@
        == "the answer does not fit the question asked of the schema"@
}

/// What an answer leads to.
pub open spec fn answer_step(
    p: Preparation,
    answer: Answer,
    strict: bool,
    c: Option<CacheView>,
    step: PrepStep,
    c2: Option<CacheView>,
) -> bool {
    let n = p.need;
    match (p.stage, answer) {
        (Stage::Present { asked }, Answer::Exists(Ok(exists))) => if exists {
            require_step(n, strict, lookup::noted_present(c, n.table@, asked), step, c2)
        } else {
            c2 == c && ends_missing(step, n)
        },
        (Stage::Require { asked, again }, Answer::Columns(Ok((listing, json)))) => {
            let columns = listed_columns(listing@, json@);
            checked_step(
                n,
                columns.names,
                again,
                strict,
                lookup::noted_columns(c, n.table@, columns, asked),
                step,
                c2,
            )
        },
        (Stage::Generates { asked }, Answer::Generates(g)) => policy_step(
            n,
            g,
            strict,
            lookup::noted_generates(c, n.table@, g, asked),
            step,
            c2,
        ),
        (Stage::Existing { asked }, Answer::Columns(Ok((listing, json)))) => {
            let columns = listed_columns(listing@, json@);
            adding_step(
                n,
                sorted_entries(sampled(n.rows@)),
                columns.names,
                0,
                lookup::noted_columns(c, n.table@, columns, asked),
                step,
                c2,
            )
        },
        (Stage::Adding { sample, existing, next }, Answer::Added(outcome)) => {
            let after = lookup::changed(c, n.table@);
            match outcome {
                Ok(_) => adding_step(
                    n,
                    json::entry_views(sample@),
                    text::views(existing@),
                    next + 1,
                    after,
                    step,
                    c2,
                ),
                Err(Failure::Refused(m)) => c2 == c && step == PrepStep::Fail(
                    DatabaseError::InvalidArgument(m),
                ),
                Err(Failure::Failed(e)) => {
                    &&& c2 == after
                    &&& step matches PrepStep::Ask(q, p2)
                    &&& q == (Question::ListColumns { table: n.table })
                    &&& p2.need == n
                    &&& p2.stage matches Stage::Recheck {
                        sample: s,
                        existing: x,
                        next: k,
                        failure,
                        asked,
                    }
                    &&& s == sample
                    &&& x == existing
                    &&& k == next
                    &&& failure == e
                    &&& asked == lookup::generation_of(after)
                },
            }
        },
        (
            Stage::Recheck { sample, existing, next, failure, asked },
            Answer::Columns(Ok((listing, json))),
        ) => {
            let columns = listed_columns(listing@, json@);
            let after = lookup::noted_columns(c, n.table@, columns, asked);
            if next < sample@.len() && lookup::has_column(columns.names, sample@[next as int].0@) {
                adding_step(
                    n,
                    json::entry_views(sample@),
                    text::views(existing@),
                    next + 1,
                    after,
                    step,
                    c2,
                )
            } else {
                c2 == after && (step matches PrepStep::Fail(e) && statement::in_context(
                    "add column "@ + (if next < sample@.len() {
                        sample@[next as int].0@
                    } else {
                        ""@
                    }) + ": "@,
                    failure,
                    e,
                ))
            }
        },
        (Stage::Key { asked }, Answer::Key(Ok(listing))) => {
            let key = lookup::row_names(listing@);
            if c is Some && key.len() == 0 && !lookup::known_present(c, n.table@) {
                &&& c2 == c
                &&& step matches PrepStep::Ask(q, p2)
                &&& q == (Question::TableExists { table: n.table })
                &&& p2.need == n
                &&& p2.stage matches Stage::KeyPresent { key: k, asked: a }
                &&& text::views(k@) == key
                &&& a == asked
            } else {
                c2 == lookup::noted_key(c, n.table@, key, asked) && ends(step, n, key)
            }
        },
        (Stage::KeyPresent { key, asked }, Answer::Exists(Ok(exists))) => {
            let known = if exists {
                lookup::noted_present(c, n.table@, asked)
            } else {
                c
            };
            c2 == lookup::noted_key(known, n.table@, text::views(key@), asked) && ends(
                step,
                n,
                text::views(key@),
            )
        },
        (Stage::Present { .. }, Answer::Exists(Err(e))) => c2 == c && step == PrepStep::Fail(e),
        (Stage::Require { .. }, Answer::Columns(Err(e))) => c2 == c && step == PrepStep::Fail(e),
        (Stage::Existing { .. }, Answer::Columns(Err(e))) => c2 == c && step == PrepStep::Fail(e),
        (Stage::Recheck { .. }, Answer::Columns(Err(e))) => c2 == c && step == PrepStep::Fail(e),
        (Stage::Key { .. }, Answer::Key(Err(e))) => c2 == c && step == PrepStep::Fail(e),
        (Stage::KeyPresent { .. }, Answer::Exists(Err(e))) => c2 == c && step == PrepStep::Fail(e),
        _ => c2 == c && mismatched(step),
    }
}

// ---------------------------------------------------------------------------
// The steps
// ---------------------------------------------------------------------------

fn ready(need: Need, key: Vec<String>) -> (r: PrepStep)
    ensures
        ends(r, need, text::views(key@)),
{
    PrepStep::Ready(Prepared { table: need.table, present: true, rows: need.rows, key })
}

fn from_key(need: Need, cache: &Option<SchemaCache>) -> (r: PrepStep)
    ensures
        key_step(need, text::opt_view(*cache), r, text::opt_view(*cache)),
{
    if !need.order {
        let key: Vec<String> = Vec::new();
        proof {
            assert(text::views(key@) =~= Seq::empty());
        }
        return ready(need, key);
    }
    match lookup::primary_key(cache, need.table.as_str()) {
        Some(key) => ready(need, key),
        None => {
            let asked = lookup::generation(cache);
            let table = need.table.clone();
            PrepStep::Ask(
                Question::ListPrimaryKey { table },
                Preparation { need, stage: Stage::Key { asked } },
            )
        },
    }
}

fn from_adding(
    need: Need,
    sample: Vec<(String, Json)>,
    existing: Vec<String>,
    next: usize,
    cache: &Option<SchemaCache>,
) -> (r: PrepStep)
    ensures
        adding_step(
            need,
            json::entry_views(sample@),
            text::views(existing@),
            next as int,
            text::opt_view(*cache),
            r,
            text::opt_view(*cache),
        ),
{
    let ghost views = json::entry_views(sample@);
    let ghost have = text::views(existing@);
    let mut i: usize = next;
    while i < sample.len()
        invariant
            views == json::entry_views(sample@),
            have == text::views(existing@),
            next <= i,
            first_absent(views, have, next as int) == first_absent(views, have, i as int),
        decreases sample@.len() - i,
    {
        assert(views[i as int].0 == sample@[i as int].0@);
        if !lookup::lists_column(&existing, sample[i].0.as_str()) {
            let table = need.table.clone();
            let column = sample[i].0.clone();
            let value = sample[i].1.clone();
            return PrepStep::Ask(
                Question::AddColumn { table, column, value },
                Preparation { need, stage: Stage::Adding { sample, existing, next: i } },
            );
        }
        i += 1;
    }
    from_key(need, cache)
}

fn from_data(need: Need, strict: bool, cache: &Option<SchemaCache>) -> (r: PrepStep)
    ensures
        data_step(need, strict, text::opt_view(*cache), r, text::opt_view(*cache)),
{
    if need.rows.len() == 0 {
        return from_key(need, cache);
    }
    let columns = sample(&need.rows);
    if let Err(e) = sql_row(&columns) {
        return PrepStep::Fail(e);
    }
    if strict {
        return from_key(need, cache);
    }
    match lookup::columns(cache, need.table.as_str()) {
        Some(known) => {
            let pairs = sorted_columns(&columns);
            proof {
                lemma_sorted_entries(columns@, pairs@);
            }
            from_adding(need, pairs, known.names, 0, cache)
        },
        None => {
            let asked = lookup::generation(cache);
            let table = need.table.clone();
            PrepStep::Ask(
                Question::ListColumns { table },
                Preparation { need, stage: Stage::Existing { asked } },
            )
        },
    }
}

fn apply_policy(given: Vec<Row>, policy: Policy, autogenerates_id: bool) -> (r: Vec<Row>)
    ensures
        policy_applied(policy, autogenerates_id, given@, r@),
{
    let ghost before = given@;
    let mut out: Vec<Row> = Vec::new();
    for one in it: given
        invariant
            it.seq() == before,
            policy_applied(policy, autogenerates_id, before.take(it.index()), out@),
    {
        let mut data = one;
        match policy {
            Policy::Keep => {},
            Policy::Stamp => stamp_timestamps(&mut data, false),
            Policy::Create => prepare_created_row(&mut data, autogenerates_id),
        }
        let ghost held = out@;
        out.push(data);
        proof {
            let next = before.take(it.index() + 1);
            assert forall|i: int| 0 <= i < next.len() implies match policy {
                Policy::Keep => (#[trigger] out@[i])@ == next[i]@,
                Policy::Stamp => rows::is_stamped(next[i]@, out@[i]@),
                Policy::Create => rows::is_created(next[i]@, autogenerates_id, out@[i]@),
            } by {
                if i < it.index() {
                    assert(held[i] == out@[i]);
                    assert(before.take(it.index())[i] == next[i]);
                }
            }
        }
    }
    proof {
        assert(before.take(before.len() as int) =~= before);
    }
    out
}

fn from_policy(
    need: Need,
    autogenerates_id: bool,
    strict: bool,
    cache: &Option<SchemaCache>,
) -> (r: PrepStep)
    ensures
        policy_step(need, autogenerates_id, strict, text::opt_view(*cache), r, text::opt_view(*cache)),
{
    let ghost given = need;
    let mut need = need;
    let mut given_rows: Vec<Row> = Vec::new();
    std::mem::swap(&mut given_rows, &mut need.rows);
    let after = apply_policy(given_rows, need.policy, autogenerates_id);
    need.rows = after;
    proof {
        assert(need == with_rows(given, after));
        assert(policy_applied(given.policy, autogenerates_id, given.rows@, after@));
    }
    from_data(need, strict, cache)
}

fn from_generates(need: Need, strict: bool, cache: &Option<SchemaCache>) -> (r: PrepStep)
    ensures
        generates_step(need, strict, text::opt_view(*cache), r, text::opt_view(*cache)),
{
    if !need.ask_generates {
        return from_policy(need, false, strict, cache);
    }
    match lookup::generates_id(cache, need.table.as_str()) {
        Some(g) => from_policy(need, g, strict, cache),
        None => {
            let asked = lookup::generation(cache);
            let table = need.table.clone();
            PrepStep::Ask(
                Question::GeneratesId { table },
                Preparation { need, stage: Stage::Generates { asked } },
            )
        },
    }
}

fn from_checked(
    need: Need,
    existing: &Vec<String>,
    again: bool,
    strict: bool,
    cache: &mut Option<SchemaCache>,
) -> (r: PrepStep)
    ensures
        checked_step(
            need,
            text::views(existing@),
            again,
            strict,
            text::opt_view(*old(cache)),
            r,
            text::opt_view(*final(cache)),
        ),
{
    let missing: Option<String> = match lookup::find_missing(&need.require, existing) {
        Some(column) => Some(column.to_owned()),
        None => None,
    };
    match missing {
        None => from_generates(need, strict, cache),
        Some(column) => {
            if again {
                PrepStep::Fail(
                    DatabaseError::InvalidArgument(
                        text::join5(
                            "`",
                            need.table.as_str(),
                            "` has no column `",
                            column.as_str(),
                            "`",
                        ),
                    ),
                )
            } else {
                lookup::invalidate(cache, need.table.as_str());
                let asked = lookup::generation(cache);
                let table = need.table.clone();
                PrepStep::Ask(
                    Question::ListColumns { table },
                    Preparation { need, stage: Stage::Require { asked, again: true } },
                )
            }
        },
    }
}

fn from_require(need: Need, strict: bool, cache: &mut Option<SchemaCache>) -> (r: PrepStep)
    ensures
        require_step(
            need,
            strict,
            text::opt_view(*old(cache)),
            r,
            text::opt_view(*final(cache)),
        ),
{
    if let Err(e) = sql_names(&need.require) {
        return PrepStep::Fail(e);
    }
    if strict || need.require.len() == 0 {
        return from_generates(need, strict, cache);
    }
    match lookup::columns(cache, need.table.as_str()) {
        Some(known) => from_checked(need, &known.names, false, strict, cache),
        None => {
            let asked = lookup::generation(cache);
            let table = need.table.clone();
            PrepStep::Ask(
                Question::ListColumns { table },
                Preparation { need, stage: Stage::Require { asked, again: false } },
            )
        },
    }
}

impl Preparation {
    /// Starts to settle what `need` says. `strict` says that the schema is
    /// trusted as it was migrated: whether the table is there and which
    /// columns it has is then not asked, and no column is added.
    pub fn start(need: Need, strict: bool, cache: &mut Option<SchemaCache>) -> (r: PrepStep)
        ensures
            start_step(
                need,
                strict,
                text::opt_view(*old(cache)),
                r,
                text::opt_view(*final(cache)),
            ),
    {
        if need.guard && !strict && !lookup::is_known_present(cache, need.table.as_str()) {
            let asked = lookup::generation(cache);
            let table = need.table.clone();
            return PrepStep::Ask(
                Question::TableExists { table },
                Preparation { need, stage: Stage::Present { asked } },
            );
        }
        from_require(need, strict, cache)
    }

    /// Goes on with the answer to the question that was asked.
    pub fn resume(self, answer: Answer, strict: bool, cache: &mut Option<SchemaCache>) -> (r:
        PrepStep)
        ensures
            answer_step(
                self,
                answer,
                strict,
                text::opt_view(*old(cache)),
                r,
                text::opt_view(*final(cache)),
            ),
    {
        let need = self.need;
        match (self.stage, answer) {
            (Stage::Present { asked }, Answer::Exists(Ok(exists))) => {
                if exists {
                    lookup::note_present(cache, need.table.as_str(), asked);
                    from_require(need, strict, cache)
                } else {
                    PrepStep::Ready(
                        Prepared {
                            table: need.table,
                            present: false,
                            rows: Vec::new(),
                            key: Vec::new(),
                        },
                    )
                }
            },
            (Stage::Require { asked, again }, Answer::Columns(Ok((listing, json)))) => {
                let names = lookup::lowercase_names(&listing);
                let noted = TableColumns { names, json };
                let columns = noted.clone();
                lookup::note_columns(cache, need.table.as_str(), noted, asked);
                from_checked(need, &columns.names, again, strict, cache)
            },
            (Stage::Generates { asked }, Answer::Generates(g)) => {
                lookup::note_generates(cache, need.table.as_str(), g, asked);
                from_policy(need, g, strict, cache)
            },
            (Stage::Existing { asked }, Answer::Columns(Ok((listing, json)))) => {
                let names = lookup::lowercase_names(&listing);
                let noted = TableColumns { names, json };
                let columns = noted.clone();
                lookup::note_columns(cache, need.table.as_str(), noted, asked);
                let sampled_row = sample(&need.rows);
                let pairs = sorted_columns(&sampled_row);
                proof {
                    lemma_sorted_entries(sampled_row@, pairs@);
                }
                from_adding(need, pairs, columns.names, 0, cache)
            },
            (Stage::Adding { sample, existing, next }, Answer::Added(outcome)) => {
                match outcome {
                    Ok(_) => {
                        lookup::invalidate(cache, need.table.as_str());
                        let after: usize = if next < sample.len() {
                            next + 1
                        } else {
                            next
                        };
                        from_adding(need, sample, existing, after, cache)
                    },
                    Err(Failure::Refused(m)) => PrepStep::Fail(DatabaseError::InvalidArgument(m)),
                    Err(Failure::Failed(failure)) => {
                        lookup::invalidate(cache, need.table.as_str());
                        let asked = lookup::generation(cache);
                        let table = need.table.clone();
                        PrepStep::Ask(
                            Question::ListColumns { table },
                            Preparation {
                                need,
                                stage: Stage::Recheck { sample, existing, next, failure, asked },
                            },
                        )
                    },
                }
            },
            (
                Stage::Recheck { sample, existing, next, failure, asked },
                Answer::Columns(Ok((listing, json))),
            ) => {
                let names = lookup::lowercase_names(&listing);
                let noted = TableColumns { names, json };
                let columns = noted.clone();
                lookup::note_columns(cache, need.table.as_str(), noted, asked);
                if next < sample.len() {
                    if lookup::lists_column(&columns.names, sample[next].0.as_str()) {
                        return from_adding(need, sample, existing, next + 1, cache);
                    }
                    let doing = text::join3("add column ", sample[next].0.as_str(), ": ");
                    return PrepStep::Fail(with_context(doing.as_str(), failure));
                }
                let doing = text::join3("add column ", "", ": ");
                PrepStep::Fail(with_context(doing.as_str(), failure))
            },
            (Stage::Key { asked }, Answer::Key(Ok(listing))) => {
                let key = lookup::listed_names(&listing);
                if cache.is_some() && key.len() == 0 && !lookup::is_known_present(
                    cache,
                    need.table.as_str(),
                ) {
                    let table = need.table.clone();
                    return PrepStep::Ask(
                        Question::TableExists { table },
                        Preparation { need, stage: Stage::KeyPresent { key, asked } },
                    );
                }
                let noted = key.clone();
                proof {
                    assert(text::views(noted@) =~= text::views(key@));
                }
                lookup::note_key(cache, need.table.as_str(), noted, asked);
                ready(need, key)
            },
            (Stage::KeyPresent { key, asked }, Answer::Exists(Ok(exists))) => {
                if exists {
                    lookup::note_present(cache, need.table.as_str(), asked);
                }
                let noted = key.clone();
                proof {
                    assert(text::views(noted@) =~= text::views(key@));
                }
                lookup::note_key(cache, need.table.as_str(), noted, asked);
                ready(need, key)
            },
            (Stage::Present { .. }, Answer::Exists(Err(e))) => PrepStep::Fail(e),
            (Stage::Require { .. }, Answer::Columns(Err(e))) => PrepStep::Fail(e),
            (Stage::Existing { .. }, Answer::Columns(Err(e))) => PrepStep::Fail(e),
            (Stage::Recheck { .. }, Answer::Columns(Err(e))) => PrepStep::Fail(e),
            (Stage::Key { .. }, Answer::Key(Err(e))) => PrepStep::Fail(e),
            (Stage::KeyPresent { .. }, Answer::Exists(Err(e))) => PrepStep::Fail(e),
            _ => PrepStep::Fail(
                DatabaseError::Internal(
                    "the answer does not fit the question asked of the schema".to_owned(),
                ),
            ),
        }
    }
}

// ---------------------------------------------------------------------------
// What holds of every preparation
// ---------------------------------------------------------------------------

/// A step of a preparation that writes no rows.
pub open spec fn only_reads(step: PrepStep) -> bool {
    step matches PrepStep::Ask(q, p) ==> !(q is AddColumn) && p.need.rows@.len() == 0 && !(
    p.stage is Adding) && !(p.stage is Recheck)
}

/// An operation that writes no rows never adds a column, whatever it names and
/// whatever is answered.
pub proof fn reads_never_add_a_column(
    n: Need,
    p: Preparation,
    answer: Answer,
    strict: bool,
    c: Option<CacheView>,
    step: PrepStep,
    c2: Option<CacheView>,
)
    ensures
        n.rows@.len() == 0 && start_step(n, strict, c, step, c2) ==> only_reads(step),
        p.need.rows@.len() == 0 && !(p.stage is Adding) && !(p.stage is Recheck) && answer_step(
            p,
            answer,
            strict,
            c,
            step,
            c2,
        ) ==> only_reads(step),
{
    lemma_no_rows_add_nothing(p.need.rows@);
}

proof fn lemma_no_rows_add_nothing(given: Seq<Row>)
    ensures
        given.len() == 0 ==> sampled(given) == Map::<Seq<char>, JsonView>::empty(),
        given.len() == 0 ==> sorted_entries(sampled(given)) == Seq::<(
            Seq<char>,
            JsonView,
        )>::empty(),
{
    if given.len() == 0 {
        let e = Seq::<(Seq<char>, JsonView)>::empty();
        assert(rows::in_order(e) && row::entries_map(e) == sampled(given));
        rows::lemma_sorted_unique(e, sorted_entries(sampled(given)));
    }
}

/// A question that a strict schema leaves open.
pub open spec fn strict_question(step: PrepStep) -> bool {
    step matches PrepStep::Ask(q, p) ==> (p.stage is Generates && q is GeneratesId) || (
    p.stage is Key && q is ListPrimaryKey) || (p.stage is KeyPresent && q is TableExists)
}

/// A strict schema is trusted: only the keys of new rows and the key by which
/// rows are ordered are ever asked for, and no column is added.
pub proof fn strict_schema_is_trusted(
    n: Need,
    p: Preparation,
    answer: Answer,
    c: Option<CacheView>,
    step: PrepStep,
    c2: Option<CacheView>,
)
    ensures
        start_step(n, true, c, step, c2) ==> strict_question(step),
        (p.stage is Generates || p.stage is Key || p.stage is KeyPresent) && answer_step(
            p,
            answer,
            true,
            c,
            step,
            c2,
        ) ==> strict_question(step),
{
}

/// The question is about the table `table`.
pub open spec fn asks_about(q: Question, table: Seq<char>) -> bool {
    match q {
        Question::TableExists { table: t } => t@ == table,
        Question::ListColumns { table: t } => t@ == table,
        Question::ListPrimaryKey { table: t } => t@ == table,
        Question::GeneratesId { table: t } => t@ == table,
        Question::AddColumn { table: t, .. } => t@ == table,
    }
}

/// The step concerns the table `table` and no other.
pub open spec fn concerns(step: PrepStep, table: Seq<char>) -> bool {
    match step {
        PrepStep::Ask(q, p) => asks_about(q, table) && p.need.table@ == table,
        PrepStep::Ready(p) => p.table@ == table,
        PrepStep::Fail(_) => true,
    }
}

/// A preparation asks about, and ends with, the table it was started for.
pub proof fn the_table_is_never_exchanged(
    n: Need,
    p: Preparation,
    answer: Answer,
    strict: bool,
    c: Option<CacheView>,
    step: PrepStep,
    c2: Option<CacheView>,
)
    ensures
        start_step(n, strict, c, step, c2) ==> concerns(step, n.table@),
        answer_step(p, answer, strict, c, step, c2) ==> concerns(step, p.need.table@),
{
}

/// How far a stage is from the end.
pub open spec fn rank(s: Stage) -> int {
    match s {
        Stage::Present { .. } => 7,
        Stage::Require { again, .. } => if again {
            5
        } else {
            6
        },
        Stage::Generates { .. } => 4,
        Stage::Existing { .. } => 3,
        Stage::Adding { .. } => 2,
        Stage::Recheck { .. } => 2,
        Stage::Key { .. } => 1,
        Stage::KeyPresent { .. } => 0,
    }
}

/// How far a stage is from the end of its own rank: what is left to add.
pub open spec fn left(s: Stage) -> int {
    match s {
        Stage::Adding { sample, next, .. } => 2 * (sample@.len() - next) + 1,
        Stage::Recheck { sample, next, .. } => 2 * (sample@.len() - next),
        _ => 0,
    }
}

/// The stage after a question is nearer to the end than the stage before.
pub open spec fn nearer(before: Stage, after: Stage) -> bool {
    rank(after) < rank(before) || (rank(after) == rank(before) && 0 <= left(after) < left(before))
}

proof fn lemma_first_absent(
    sample: Seq<(Seq<char>, JsonView)>,
    existing: Seq<Seq<char>>,
    from: int,
)
    ensures
        first_absent(sample, existing, from) is Some ==> from <= first_absent(
            sample,
            existing,
            from,
        )->0 < sample.len(),
    decreases sample.len() - from,
{
    if 0 <= from < sample.len() {
        lemma_first_absent(sample, existing, from + 1);
    }
}

/// A stage that adds a column adds one there is.
pub open spec fn sound_stage(s: Stage) -> bool {
    match s {
        Stage::Adding { sample, next, .. } => next < sample@.len(),
        Stage::Recheck { sample, next, .. } => next < sample@.len(),
        _ => true,
    }
}

proof fn lemma_starts_sound(
    n: Need,
    strict: bool,
    c: Option<CacheView>,
    step: PrepStep,
    c2: Option<CacheView>,
)
    ensures
        start_step(n, strict, c, step, c2) ==> (step matches PrepStep::Ask(q, p) ==> sound_stage(
            p.stage,
        )),
{
    assert forall|after: Vec<Row>, existing: Seq<Seq<char>>| (#[trigger] first_absent(
        sorted_entries(sampled(after@)),
        existing,
        0,
    )) is Some implies first_absent(sorted_entries(sampled(after@)), existing, 0)->0
        < sorted_entries(sampled(after@)).len() by {
        lemma_first_absent(sorted_entries(sampled(after@)), existing, 0);
    }
}

/// Every preparation starts in a sound stage, stays in sound stages, and every
/// answer brings it nearer to its end: it ends after finitely many questions.
pub proof fn preparations_end(
    n: Need,
    p: Preparation,
    answer: Answer,
    strict: bool,
    c: Option<CacheView>,
    step: PrepStep,
    c2: Option<CacheView>,
)
    ensures
        start_step(n, strict, c, step, c2) ==> (step matches PrepStep::Ask(q, p2) ==> sound_stage(
            p2.stage,
        )),
        sound_stage(p.stage) && answer_step(p, answer, strict, c, step, c2) ==> (
        step matches PrepStep::Ask(q, p2) ==> sound_stage(p2.stage) && nearer(p.stage, p2.stage)),
{
    lemma_starts_sound(n, strict, c, step, c2);
    assert forall|after: Vec<Row>, existing: Seq<Seq<char>>| (#[trigger] first_absent(
        sorted_entries(sampled(after@)),
        existing,
        0,
    )) is Some implies first_absent(sorted_entries(sampled(after@)), existing, 0)->0
        < sorted_entries(sampled(after@)).len() by {
        lemma_first_absent(sorted_entries(sampled(after@)), existing, 0);
    }
    match p.stage {
        Stage::Adding { sample, existing, next } => {
            lemma_first_absent(json::entry_views(sample@), text::views(existing@), next + 1);
        },
        Stage::Recheck { sample, existing, next, .. } => {
            lemma_first_absent(json::entry_views(sample@), text::views(existing@), next + 1);
        },
        _ => {},
    }
}

} // verus!
