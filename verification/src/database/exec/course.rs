//! What a preparation settles, from its start to its end.

use vstd::prelude::*;

use crate::database::exec::ddl;
use crate::database::exec::lookup;
use crate::database::exec::prepare;
use crate::database::exec::prepare::{
    Answer, Need, Policy, Preparation, Prepared, PrepStep, Question, Stage,
};
use crate::database::exec::rows;
use crate::database::schema_cache::CacheView;
use crate::database::service::DatabaseError;
use crate::json;
use crate::json::JsonView;
use crate::row::Row;
use crate::text;

verus! {

/// The row has every column of another, with its value.
pub open spec fn keeps(before: Map<Seq<char>, JsonView>, after: Map<Seq<char>, JsonView>) -> bool {
    forall|k: Seq<char>| #[trigger]
        before.dom().contains(k) ==> after.dom().contains(k) && after[k] == before[k]
}

/// The column holds a time, unless it was there before.
pub open spec fn timed(
    before: Map<Seq<char>, JsonView>,
    after: Map<Seq<char>, JsonView>,
    column: Seq<char>,
) -> bool {
    after.dom().contains(column) && (!before.dom().contains(column) ==> (
    after[column] matches JsonView::Str(t) && rows::is_utc_stamp(t)))
}

/// What is made of a row before it is written. A changed row is stamped as
/// updated; a new one is stamped as created and as updated, at one time, and
/// gets a fresh key, unless the table fills it. Whatever the row sets stays as
/// it is set, and no other column is added.
pub open spec fn made_ready(
    policy: Policy,
    fills_id: bool,
    before: Map<Seq<char>, JsonView>,
    after: Map<Seq<char>, JsonView>,
) -> bool {
    &&& keeps(before, after)
    &&& match policy {
        Policy::Keep => forall|k: Seq<char>| #[trigger]
            after.dom().contains(k) ==> before.dom().contains(k),
        Policy::Stamp => {
            &&& timed(before, after, "updated_at"@)
            &&& forall|k: Seq<char>| #[trigger]
                after.dom().contains(k) ==> before.dom().contains(k) || k == "updated_at"@
        },
        Policy::Create => {
            &&& timed(before, after, "created_at"@)
            &&& timed(before, after, "updated_at"@)
            &&& !before.dom().contains("created_at"@) && !before.dom().contains("updated_at"@)
                ==> after["created_at"@] == after["updated_at"@]
            &&& !fills_id ==> after.dom().contains("id"@) && (!before.dom().contains("id"@) ==> (
            after["id"@] matches JsonView::Str(id) && rows::is_record_id(id)))
            &&& forall|k: Seq<char>| #[trigger]
                after.dom().contains(k) ==> before.dom().contains(k) || k == "created_at"@ || k
                    == "updated_at"@ || (k == "id"@ && !fills_id)
        },
    }
}

/// All rows were made ready, one by one.
pub open spec fn all_made_ready(
    policy: Policy,
    fills_id: bool,
    before: Seq<Row>,
    after: Seq<Row>,
) -> bool {
    after.len() == before.len() && forall|i: int|
        0 <= i < before.len() ==> made_ready(policy, fills_id, #[trigger] before[i]@, after[i]@)
}

/// The rows of `n` after were made ready from those before; where the key of
/// new rows was not asked after, the table does not fill it.
pub open spec fn rows_made_ready(n: Need, after: Seq<Row>) -> bool {
    exists|fills_id: bool| #[trigger]
        all_made_ready(n.policy, fills_id, n.rows@, after) && (fills_id ==> n.ask_generates)
}

/// A preparation of `n` is on its course: it is about the same table, with the
/// same requirements; its rows are those given, until they are made ready, and
/// then those. It ends with these very rows, or with none where the table is
/// not there, which only one that guards against it finds.
pub open spec fn on_course(n: Need, step: PrepStep) -> bool {
    match step {
        PrepStep::Ask(_, p) => {
            &&& p.need.table@ == n.table@
            &&& p.need.require == n.require
            &&& p.need.policy == n.policy
            &&& p.need.ask_generates == n.ask_generates
            &&& p.need.order == n.order
            &&& p.stage is Present ==> n.guard
            &&& p.stage is Generates ==> n.ask_generates
            &&& p.stage is Key ==> n.order
            &&& p.stage is KeyPresent ==> n.order
            &&& if p.stage is Present || p.stage is Require || p.stage is Generates {
                p.need.rows == n.rows
            } else {
                rows_made_ready(n, p.need.rows@)
            }
        },
        PrepStep::Ready(p) => p.table@ == n.table@ && if p.present {
            rows_made_ready(n, p.rows@)
        } else {
            n.guard && p.rows@.len() == 0
        },
        PrepStep::Fail(_) => true,
    }
}

proof fn lemma_ready(policy: Policy, fills_id: bool, before: Seq<Row>, after: Seq<Row>)
    requires
        prepare::policy_applied(policy, fills_id, before, after),
    ensures
        all_made_ready(policy, fills_id, before, after),
{
    reveal_strlit("id");
    reveal_strlit("created_at");
    reveal_strlit("updated_at");
    assert("created_at"@[0] != "updated_at"@[0]);
    assert("id"@.len() != "created_at"@.len());
    assert("id"@.len() != "updated_at"@.len());
    assert forall|i: int| 0 <= i < before.len() implies made_ready(
        policy,
        fills_id,
        #[trigger] before[i]@,
        after[i]@,
    ) by {
        let x = before[i]@;
        let y = after[i]@;
        match policy {
            Policy::Keep => {
                assert(after[i]@ == before[i]@);
            },
            Policy::Stamp => {
                assert(rows::is_stamped(before[i]@, after[i]@));
            },
            Policy::Create => {
                assert(rows::is_created(before[i]@, fills_id, after[i]@));
            },
        }
    }
}

proof fn lemma_policy(
    n: Need,
    fills_id: bool,
    strict: bool,
    c: Option<CacheView>,
    step: PrepStep,
    c2: Option<CacheView>,
)
    requires
        prepare::policy_step(n, fills_id, strict, c, step, c2),
        fills_id ==> n.ask_generates,
    ensures
        on_course(n, step),
{
    let after = choose|after: Vec<Row>|
        #[trigger] prepare::policy_applied(n.policy, fills_id, n.rows@, after@)
            && prepare::data_step(prepare::with_rows(n, after), strict, c, step, c2);
    lemma_ready(n.policy, fills_id, n.rows@, after@);
    assert(all_made_ready(n.policy, fills_id, n.rows@, after@));
    assert(rows_made_ready(n, after@));
}

proof fn lemma_generates(
    n: Need,
    strict: bool,
    c: Option<CacheView>,
    step: PrepStep,
    c2: Option<CacheView>,
)
    requires
        prepare::generates_step(n, strict, c, step, c2),
    ensures
        on_course(n, step),
{
    if n.ask_generates {
        if let Some(g) = lookup::known_generates(c, n.table@) {
            lemma_policy(n, g, strict, c, step, c2);
        }
    } else {
        lemma_policy(n, false, strict, c, step, c2);
    }
}

proof fn lemma_checked(
    n: Need,
    existing: Seq<Seq<char>>,
    again: bool,
    strict: bool,
    c: Option<CacheView>,
    step: PrepStep,
    c2: Option<CacheView>,
)
    requires
        prepare::checked_step(n, existing, again, strict, c, step, c2),
    ensures
        on_course(n, step),
{
    if lookup::first_missing(text::views(n.require@), existing) is None {
        lemma_generates(n, strict, c, step, c2);
    }
}

proof fn lemma_require(
    n: Need,
    strict: bool,
    c: Option<CacheView>,
    step: PrepStep,
    c2: Option<CacheView>,
)
    requires
        prepare::require_step(n, strict, c, step, c2),
    ensures
        on_course(n, step),
{
    if rows::first_bad_name(text::views(n.require@)) is None {
        if strict || n.require@.len() == 0 {
            lemma_generates(n, strict, c, step, c2);
        } else if let Some(known) = lookup::known_columns(c, n.table@) {
            lemma_checked(n, known.names, false, strict, c, step, c2);
        }
    }
}

/// A preparation stays on its course from its start to its end, whatever is
/// answered: what it settles are the rows it was given, each made ready as the
/// operation wants it.
pub proof fn a_preparation_stays_on_its_course(
    n: Need,
    p: Preparation,
    q: Question,
    answer: Answer,
    strict: bool,
    c: Option<CacheView>,
    step: PrepStep,
    c2: Option<CacheView>,
)
    ensures
        prepare::start_step(n, strict, c, step, c2) ==> on_course(n, step),
        on_course(n, PrepStep::Ask(q, p)) && prepare::answer_step(p, answer, strict, c, step, c2)
            ==> on_course(n, step),
{
    if prepare::start_step(n, strict, c, step, c2) {
        if !(n.guard && !strict && !lookup::known_present(c, n.table@)) {
            lemma_require(n, strict, c, step, c2);
        }
    }
    if on_course(n, PrepStep::Ask(q, p)) && prepare::answer_step(p, answer, strict, c, step, c2) {
        let m = p.need;
        match (p.stage, answer) {
            (Stage::Present { asked }, Answer::Exists(Ok(exists))) => {
                if exists {
                    lemma_require(
                        m,
                        strict,
                        lookup::noted_present(c, m.table@, asked),
                        step,
                        c2,
                    );
                    lemma_same_course(n, m, step);
                }
            },
            (Stage::Require { asked, again }, Answer::Columns(Ok((listing, json)))) => {
                let columns = prepare::listed_columns(listing@, json@);
                lemma_checked(
                    m,
                    columns.names,
                    again,
                    strict,
                    lookup::noted_columns(c, m.table@, columns, asked),
                    step,
                    c2,
                );
                lemma_same_course(n, m, step);
            },
            (Stage::Generates { asked }, Answer::Generates(g)) => {
                lemma_policy(
                    m,
                    g,
                    strict,
                    lookup::noted_generates(c, m.table@, g, asked),
                    step,
                    c2,
                );
                lemma_same_course(n, m, step);
            },
            _ => {},
        }
    }
}

proof fn lemma_same_course(n: Need, m: Need, step: PrepStep)
    requires
        on_course(m, step),
        m.table@ == n.table@,
        m.require == n.require,
        m.policy == n.policy,
        m.ask_generates == n.ask_generates,
        m.order == n.order,
        m.rows == n.rows,
        step is Ask || (step matches PrepStep::Ready(p) ==> p.present) || m.guard == n.guard,
        step matches PrepStep::Ask(_, p) ==> !(p.stage is Present),
    ensures
        on_course(n, step),
{
    match step {
        PrepStep::Ask(_, p) => {
            if !(p.stage is Present || p.stage is Require || p.stage is Generates) {
                let fills_id = choose|fills_id: bool| #[trigger]
                    all_made_ready(m.policy, fills_id, m.rows@, p.need.rows@) && (fills_id
                        ==> m.ask_generates);
                assert(all_made_ready(n.policy, fills_id, n.rows@, p.need.rows@));
            }
        },
        PrepStep::Ready(p) => {
            if p.present {
                let fills_id = choose|fills_id: bool| #[trigger]
                    all_made_ready(m.policy, fills_id, m.rows@, p.rows@) && (fills_id
                        ==> m.ask_generates);
                assert(all_made_ready(n.policy, fills_id, n.rows@, p.rows@));
            }
        },
        PrepStep::Fail(_) => {},
    }
}

proof fn lemma_missing(columns: Seq<Seq<char>>, existing: Seq<Seq<char>>)
    ensures
        match lookup::first_missing(columns, existing) {
            Some(m) => columns.contains(m) && !lookup::has_column(existing, m),
            None => forall|i: int|
                0 <= i < columns.len() ==> lookup::has_column(existing, #[trigger] columns[i]),
        },
    decreases columns.len(),
{
    if columns.len() > 0 {
        let init = columns.drop_last();
        lemma_missing(init, existing);
        match lookup::first_missing(init, existing) {
            Some(m) => {
                let i = init.index_of(m);
                assert(columns[i] == m);
            },
            None => {
                assert(columns[columns.len() - 1] == columns.last());
                assert forall|i: int|
                    0 <= i < columns.len() && lookup::has_column(
                        existing,
                        columns.last(),
                    ) implies lookup::has_column(existing, #[trigger] columns[i]) by {
                    if i < init.len() {
                        assert(init[i] == columns[i]);
                    }
                }
            },
        }
    }
}

/// A listing names the column, but for the case of letters.
pub open spec fn names(existing: Seq<Seq<char>>, column: Seq<char>) -> bool {
    exists|i: int|
        0 <= i < existing.len() && #[trigger] existing[i] == text::unicode_lowercase(column)
}

/// Where a required column is not among those that the table has, nothing goes
/// on: the columns are listed once more, and where it is still missing the
/// operation is refused. Where all of them are there, none is refused.
pub proof fn a_required_column_is_never_passed_over(
    n: Need,
    existing: Seq<Seq<char>>,
    again: bool,
    strict: bool,
    c: Option<CacheView>,
    step: PrepStep,
    c2: Option<CacheView>,
)
    requires
        prepare::checked_step(n, existing, again, strict, c, step, c2),
    ensures
        (exists|i: int| 0 <= i < n.require@.len() && !names(existing, (#[trigger] n.require@[i])@))
            && again ==> step is Fail && step->Fail_0 is InvalidArgument,
        (exists|i: int| 0 <= i < n.require@.len() && !names(existing, (#[trigger] n.require@[i])@))
            && !again ==> (step matches PrepStep::Ask(Question::ListColumns { table }, p) && table@
            == n.table@ && p.need == n && (p.stage matches Stage::Require { again: b, .. } && b)),
        (forall|i: int|
            0 <= i < n.require@.len() ==> names(existing, (#[trigger] n.require@[i])@))
            ==> !(step matches PrepStep::Ask(_, p) && p.stage is Require),
{
    let required = text::views(n.require@);
    lemma_missing(required, existing);
    assert forall|k: Seq<char>| #[trigger] lookup::has_column(existing, k) == names(existing, k) by {
        if lookup::has_column(existing, k) {
            let i = existing.index_of(text::unicode_lowercase(k));
            assert(existing[i] == text::unicode_lowercase(k));
        }
    }
    assert forall|i: int| 0 <= i < required.len() implies required[i]
        == #[trigger] n.require@[i]@ by {}
    match lookup::first_missing(required, existing) {
        None => {
            assert forall|i: int| 0 <= i < n.require@.len() implies names(
                existing,
                (#[trigger] n.require@[i])@,
            ) by {
                assert(lookup::has_column(existing, required[i]));
            }
            lemma_generates(n, strict, c, step, c2);
        },
        Some(m) => {
            let i = required.index_of(m);
            assert(!names(existing, n.require@[i]@));
        },
    }
}

/// One sample of each column that rows name: the first value that is not null,
/// where a row gives one.
pub proof fn samples_are_the_first_values(given: Seq<Row>, k: Seq<char>)
    ensures
        prepare::sampled(given).dom().contains(k) <==> exists|i: int|
            0 <= i < given.len() && (#[trigger] given[i])@.dom().contains(k),
        prepare::sampled(given).dom().contains(k) && prepare::sampled(given)[k] is Null
            ==> forall|i: int|
            0 <= i < given.len() && (#[trigger] given[i])@.dom().contains(k) ==> given[i]@[
                k] is Null,
        prepare::sampled(given).dom().contains(k) && !(prepare::sampled(given)[k] is Null)
            ==> exists|i: int|
            {
                &&& 0 <= i < given.len()
                &&& (#[trigger] given[i])@.dom().contains(k)
                &&& given[i]@[k] == prepare::sampled(given)[k]
                &&& forall|j: int|
                    0 <= j < i && (#[trigger] given[j])@.dom().contains(k) ==> given[j]@[k] is Null
            },
    decreases given.len(),
{
    if given.len() > 0 {
        let init = given.drop_last();
        let n = given.len() - 1;
        samples_are_the_first_values(init, k);
        let before = prepare::sampled(init);
        let now = prepare::sampled(given);
        assert(given[n] == given.last());
        assert forall|i: int| 0 <= i < init.len() implies #[trigger] init[i] == given[i] by {}
        if before.dom().contains(k) {
            let i = choose|i: int| 0 <= i < init.len() && (#[trigger] init[i])@.dom().contains(k);
            assert(given[i]@.dom().contains(k));
        }
        if exists|i: int| 0 <= i < given.len() && (#[trigger] given[i])@.dom().contains(k) {
            let i = choose|i: int| 0 <= i < given.len() && (#[trigger] given[i])@.dom().contains(k);
            if i < n {
                assert(init[i]@.dom().contains(k));
            }
        }
        if before.dom().contains(k) && !(before[k] is Null) {
            let i = choose|i: int|
                {
                    &&& 0 <= i < init.len()
                    &&& (#[trigger] init[i])@.dom().contains(k)
                    &&& init[i]@[k] == before[k]
                    &&& forall|j: int|
                        0 <= j < i && (#[trigger] init[j])@.dom().contains(k) ==> init[j]@[
                            k] is Null
                };
            assert(given[i]@[k] == now[k]);
            assert forall|j: int| 0 <= j < i && (#[trigger] given[j])@.dom().contains(
                k,
            ) implies given[j]@[k] is Null by {
                assert(init[j]@[k] is Null);
            }
        } else if now.dom().contains(k) && !(now[k] is Null) {
            assert(given[n]@[k] == now[k]);
            assert forall|j: int| 0 <= j < n && (#[trigger] given[j])@.dom().contains(
                k,
            ) implies given[j]@[k] is Null by {
                assert(init[j]@.dom().contains(k));
            }
        }
        if now.dom().contains(k) && now[k] is Null {
            assert forall|i: int| 0 <= i < given.len() && (#[trigger] given[i])@.dom().contains(
                k,
            ) implies given[i]@[k] is Null by {
                if i < n {
                    assert(init[i]@.dom().contains(k));
                }
            }
        }
    }
}

/// The step asks for a column that is missing, or looks whether it is there.
pub open spec fn is_adding(step: PrepStep) -> bool {
    step matches PrepStep::Ask(_, p) && (p.stage is Adding || p.stage is Recheck)
}

/// The step at `k` adds, and its answer leads to the next.
pub open spec fn adds_on(
    steps: Seq<PrepStep>,
    answers: Seq<Answer>,
    caches: Seq<Option<CacheView>>,
    strict: bool,
    k: int,
) -> bool {
    is_adding(steps[k]) && prepare::answer_step(
        steps[k]->Ask_1,
        answers[k],
        strict,
        caches[k],
        steps[k + 1],
        caches[k + 1],
    )
}

/// The part of a preparation in which columns are added, from its first step to
/// the one that it leads to.
pub open spec fn whole_adding(
    n: Need,
    sample: Seq<(Seq<char>, JsonView)>,
    existing: Seq<Seq<char>>,
    strict: bool,
    steps: Seq<PrepStep>,
    answers: Seq<Answer>,
    c: Option<CacheView>,
    caches: Seq<Option<CacheView>>,
) -> bool {
    &&& steps.len() == answers.len() + 1
    &&& prepare::adding_step(n, sample, existing, 0, c, steps[0], caches[0])
    &&& forall|k: int|
        0 <= k < answers.len() ==> #[trigger] adds_on(steps, answers, caches, strict, k)
    &&& !is_adding(steps.last())
    &&& !(steps.last() is Fail)
}

/// The step `j` asks for the column of a sample, with its value, and it was
/// added, or a listing shows that someone else added it.
pub open spec fn adds_sample(
    n: Need,
    steps: Seq<PrepStep>,
    answers: Seq<Answer>,
    j: int,
    sample: (Seq<char>, JsonView),
) -> bool {
    &&& steps[j] matches PrepStep::Ask(Question::AddColumn { table, column, value }, _)
    &&& table@ == n.table@
    &&& column@ == sample.0
    &&& value@ == sample.1
    &&& ddl::was_done(answers[j]) || (steps[j + 1] is Ask && steps[j + 1]->Ask_0 is ListColumns
        && ddl::names_column(answers[j + 1], sample.0))
}

proof fn lemma_absent(sample: Seq<(Seq<char>, JsonView)>, existing: Seq<Seq<char>>, from: int)
    requires
        0 <= from <= sample.len(),
    ensures
        match prepare::first_absent(sample, existing, from) {
            Some(i) => from <= i < sample.len() && !lookup::has_column(existing, sample[i].0)
                && forall|j: int|
                from <= j < i ==> #[trigger] lookup::has_column(existing, sample[j].0),
            None => forall|j: int|
                from <= j < sample.len() ==> #[trigger] lookup::has_column(existing, sample[j].0),
        },
    decreases sample.len() - from,
{
    if from < sample.len() && lookup::has_column(existing, sample[from].0) {
        lemma_absent(sample, existing, from + 1);
    }
}

proof fn lemma_adding(
    n: Need,
    sample: Seq<(Seq<char>, JsonView)>,
    existing: Seq<Seq<char>>,
    strict: bool,
    steps: Seq<PrepStep>,
    answers: Seq<Answer>,
    c: Option<CacheView>,
    caches: Seq<Option<CacheView>>,
    before: Option<CacheView>,
    k: int,
    from: int,
)
    requires
        whole_adding(n, sample, existing, strict, steps, answers, c, caches),
        0 <= k < steps.len(),
        0 <= from <= sample.len(),
        prepare::adding_step(n, sample, existing, from, before, steps[k], caches[k]),
    ensures
        forall|i: int|
            from <= i < sample.len() && !#[trigger] lookup::has_column(existing, sample[i].0)
                ==> exists|j: int|
                k <= j < answers.len() && #[trigger] adds_sample(n, steps, answers, j, sample[i]),
        forall|j: int|
            k <= j < answers.len() ==> match (#[trigger] steps[j])->Ask_0 {
                Question::AddColumn { table, column, .. } => table@ == n.table@
                    && !lookup::has_column(existing, column@),
                Question::ListColumns { table } => table@ == n.table@,
                _ => false,
            },
    decreases sample.len() - from,
{
    lemma_absent(sample, existing, from);
    match prepare::first_absent(sample, existing, from) {
        None => {
            if k < answers.len() {
                assert(adds_on(steps, answers, caches, strict, k));
            }
        },
        Some(i) => {
            assert(is_adding(steps[k]));
            assert(k < answers.len());
            assert(adds_on(steps, answers, caches, strict, k));
            if k + 1 < answers.len() {
                assert(adds_on(steps, answers, caches, strict, k + 1));
            }
            let again = !ddl::was_done(answers[k]);
            if again {
                assert(steps[k + 1]->Ask_1.stage is Recheck);
                assert(k + 1 < answers.len());
                if k + 2 < answers.len() {
                    assert(adds_on(steps, answers, caches, strict, k + 2));
                }
                let answer = answers[k + 1];
                if let Answer::Columns(Ok((listing, json))) = answer {
                    ddl::lemma_listed(listing, json, sample[i].0, answer, json@);
                    let s = steps[k]->Ask_1.stage->Adding_sample;
                    assert(json::entry_views(s@)[i].0 == s@[i].0@);
                }
                assert(ddl::names_column(answer, sample[i].0));
            }
            let l = if again {
                k + 2
            } else {
                k + 1
            };
            let left = if again {
                let columns = prepare::listed_columns(
                    answers[k + 1]->Columns_0->Ok_0.0@,
                    answers[k + 1]->Columns_0->Ok_0.1@,
                );
                lookup::noted_columns(
                    caches[k + 1],
                    n.table@,
                    columns,
                    steps[k + 1]->Ask_1.stage->Recheck_asked,
                )
            } else {
                lookup::changed(caches[k], n.table@)
            };
            assert(prepare::adding_step(n, sample, existing, i + 1, left, steps[l], caches[l]));
            lemma_adding(
                n,
                sample,
                existing,
                strict,
                steps,
                answers,
                c,
                caches,
                left,
                l,
                i + 1,
            );
            assert(adds_sample(n, steps, answers, k, sample[i]));
            assert forall|m: int|
                from <= m < sample.len() && !#[trigger] lookup::has_column(
                    existing,
                    sample[m].0,
                ) implies exists|j: int|
                k <= j < answers.len() && #[trigger] adds_sample(n, steps, answers, j, sample[m]) by {
                if m > i {
                    let j = choose|j: int|
                        l <= j < answers.len() && #[trigger] adds_sample(
                            n,
                            steps,
                            answers,
                            j,
                            sample[m],
                        );
                    assert(adds_sample(n, steps, answers, j, sample[m]));
                }
            }
        },
    }
}

/// Before rows are written, every column that they name and the table lacks is
/// added, with a value of its kind; no other column is, and none of another
/// table.
pub proof fn every_missing_column_is_added(
    n: Need,
    sample: Seq<(Seq<char>, JsonView)>,
    existing: Seq<Seq<char>>,
    strict: bool,
    steps: Seq<PrepStep>,
    answers: Seq<Answer>,
    c: Option<CacheView>,
    caches: Seq<Option<CacheView>>,
)
    requires
        whole_adding(n, sample, existing, strict, steps, answers, c, caches),
    ensures
        forall|i: int|
            0 <= i < sample.len() && !names(existing, (#[trigger] sample[i]).0) ==> exists|j: int|
                0 <= j < answers.len() && #[trigger] adds_sample(n, steps, answers, j, sample[i]),
        forall|j: int|
            0 <= j < answers.len() ==> match (#[trigger] steps[j])->Ask_0 {
                Question::AddColumn { table, column, .. } => table@ == n.table@ && !names(
                    existing,
                    column@,
                ),
                Question::ListColumns { table } => table@ == n.table@,
                _ => false,
            },
{
    assert forall|k: Seq<char>| #[trigger] lookup::has_column(existing, k) == names(existing, k) by {
        if lookup::has_column(existing, k) {
            let i = existing.index_of(text::unicode_lowercase(k));
            assert(existing[i] == text::unicode_lowercase(k));
        }
    }
    lemma_adding(n, sample, existing, strict, steps, answers, c, caches, c, 0, 0);
    assert forall|i: int|
        0 <= i < sample.len() && !names(existing, (#[trigger] sample[i]).0) implies exists|j: int|
        0 <= j < answers.len() && #[trigger] adds_sample(n, steps, answers, j, sample[i]) by {
        assert(!lookup::has_column(existing, sample[i].0));
    }
    assert forall|j: int| 0 <= j < answers.len() implies match (#[trigger] steps[j])->Ask_0 {
        Question::AddColumn { table, column, .. } => table@ == n.table@ && !names(
            existing,
            column@,
        ),
        Question::ListColumns { table } => table@ == n.table@,
        _ => false,
    } by {
        if let Question::AddColumn { column, .. } = steps[j]->Ask_0 {
            assert(!lookup::has_column(existing, column@));
        }
    }
}

} // verus!
