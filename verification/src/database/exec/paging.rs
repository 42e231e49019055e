//! What the pages of a list add up to.
//!
//! A backend is described by what it holds and how it compares values. A
//! select answers with a part of the rows that meet its conditions, arranged
//! in the order it asks for; where two rows tie in that order, the backend is
//! free. The select of a page leaves it no freedom, as its order ends with the
//! table's primary key, and so the pages of an unchanged table fit together.

use vstd::prelude::*;

use crate::database::exec::ops;
use crate::database::exec::ops::{Pending, Settled, Work};
use crate::database::exec::prepare::Prepared;
use crate::database::exec::statement::{Selection, Statement};
use crate::database::filter::{Filter, FilterTree, SortField};
use crate::database::service::ListOptions;
use crate::json::JsonView;

verus! {

/// What a backend holds and how it reads it.
pub struct Stored {
    /// The rows of each table.
    pub rows: spec_fn(Seq<char>) -> Seq<Map<Seq<char>, JsonView>>,
    /// Whether a row meets the conditions of a select.
    pub meets: spec_fn(Vec<Filter>, Option<Vec<FilterTree>>, Map<Seq<char>, JsonView>) -> bool,
    /// Whether a value is lower than another. Neither of two values is lower
    /// where they tie.
    pub lower: spec_fn(JsonView, JsonView) -> bool,
}

/// One column to order by.
pub struct Term {
    pub column: Seq<char>,
    pub desc: bool,
}

/// The value of a column; null where the row has none.
pub open spec fn cell(row: Map<Seq<char>, JsonView>, column: Seq<char>) -> JsonView {
    if row.dom().contains(column) {
        row[column]
    } else {
        JsonView::Null
    }
}

/// Whether the last sort term is a descending one.
pub open spec fn ends_descending(sort: Seq<SortField>) -> bool {
    sort.len() > 0 && sort.last().desc
}

/// What a select orders by: its sort terms, then the columns of the key in the
/// direction of the last of them, rising where there is none.
pub open spec fn order_of(selection: Selection) -> Seq<Term> {
    selection.sort@.map_values(|f: SortField| Term { column: f.field@, desc: f.desc })
        + selection.unique_key@.map_values(
        |k: String| Term { column: k@, desc: ends_descending(selection.sort@) },
    )
}

/// Whether `x` comes ahead of `y` by one term alone.
pub open spec fn ahead(
    stored: Stored,
    term: Term,
    x: Map<Seq<char>, JsonView>,
    y: Map<Seq<char>, JsonView>,
) -> bool {
    if term.desc {
        (stored.lower)(cell(y, term.column), cell(x, term.column))
    } else {
        (stored.lower)(cell(x, term.column), cell(y, term.column))
    }
}

/// Whether `x` comes before `y`: by the first term by which they do not tie.
pub open spec fn before(
    stored: Stored,
    terms: Seq<Term>,
    x: Map<Seq<char>, JsonView>,
    y: Map<Seq<char>, JsonView>,
) -> bool
    decreases terms.len(),
{
    if terms.len() == 0 {
        false
    } else {
        ahead(stored, terms[0], x, y) || (!ahead(stored, terms[0], y, x) && before(
            stored,
            terms.drop_first(),
            x,
            y,
        ))
    }
}

/// No row stands behind one that it comes before.
pub open spec fn in_order(
    stored: Stored,
    terms: Seq<Term>,
    rows: Seq<Map<Seq<char>, JsonView>>,
) -> bool {
    forall|i: int, j: int|
        0 <= i < j < rows.len() ==> !before(stored, terms, #[trigger] rows[j], #[trigger] rows[i])
}

/// The rows of a table that meet the conditions of a select.
pub open spec fn matching(
    stored: Stored,
    table: Seq<char>,
    selection: Selection,
) -> Seq<Map<Seq<char>, JsonView>> {
    (stored.rows)(table).filter(
        |row: Map<Seq<char>, JsonView>| (stored.meets)(selection.filters, selection.tree, row),
    )
}

/// `all` holds every row that a select matches, as often as the table does,
/// in the order that the select asks for.
pub open spec fn arranges(
    stored: Stored,
    table: Seq<char>,
    selection: Selection,
    all: Seq<Map<Seq<char>, JsonView>>,
) -> bool {
    &&& all.to_multiset() == matching(stored, table, selection).to_multiset()
    &&& in_order(stored, order_of(selection), all)
}

/// The rows from `offset` on, at most `limit` of them where it is given.
pub open spec fn part(
    all: Seq<Map<Seq<char>, JsonView>>,
    limit: Option<i64>,
    offset: int,
) -> Seq<Map<Seq<char>, JsonView>> {
    let from = if offset < all.len() {
        offset
    } else {
        all.len() as int
    };
    let to = match limit {
        Some(l) => if offset + l < all.len() {
            offset + l
        } else {
            all.len() as int
        },
        None => all.len() as int,
    };
    all.subrange(from, to)
}

/// Whether the rows are an answer to a select: its part of some arrangement of
/// the rows it matches. Which of their columns come back is not looked at.
pub open spec fn is_answer(
    stored: Stored,
    s: Statement,
    rows: Seq<Map<Seq<char>, JsonView>>,
) -> bool {
    s matches Statement::Select { table, selection } && exists|all: Seq<
        Map<Seq<char>, JsonView>,
    >| #[trigger]
        arranges(stored, table@, selection, all) && rows == part(
            all,
            selection.limit,
            selection.offset as int,
        )
}

/// Whether two rows differ in some column of a key.
pub open spec fn apart(
    stored: Stored,
    key: Seq<String>,
    x: Map<Seq<char>, JsonView>,
    y: Map<Seq<char>, JsonView>,
) -> bool {
    exists|k: int| #![trigger key[k]]
        0 <= k < key.len() && ((stored.lower)(cell(x, key[k]@), cell(y, key[k]@)) || (
        stored.lower)(cell(y, key[k]@), cell(x, key[k]@)))
}

/// Whether the columns are a key of the table: no two of its rows tie in all.
pub open spec fn is_key_of(stored: Stored, table: Seq<char>, key: Seq<String>) -> bool {
    let rows = (stored.rows)(table);
    forall|i: int, j: int|
        0 <= i < rows.len() && 0 <= j < rows.len() && i != j ==> apart(
            stored,
            key,
            #[trigger] rows[i],
            #[trigger] rows[j],
        )
}

/// The options of the page `k`, counted from 0, with `l` rows to a page.
pub open spec fn page_options(opts: ListOptions, l: i64, k: int) -> ListOptions {
    ListOptions { limit: Some(l), offset: (k * l) as i64, ..opts }
}

/// The select that a settled list runs.
pub open spec fn select_of<F>(r: Settled<F>) -> Statement {
    match r {
        Settled::Run(Work::Fetch(s), _) => s,
        Settled::Run(Work::Batch(b), _) => b@[1]->Rows_0,
        _ => arbitrary(),
    }
}

/// Pages, one behind the other.
pub open spec fn joined(pages: Seq<Seq<Map<Seq<char>, JsonView>>>) -> Seq<
    Map<Seq<char>, JsonView>,
>
    decreases pages.len(),
{
    if pages.len() == 0 {
        Seq::empty()
    } else {
        joined(pages.drop_last()) + pages.last()
    }
}

/// Two rows that differ in a column to order by are ordered one way or the
/// other.
proof fn lemma_ordered(
    stored: Stored,
    terms: Seq<Term>,
    x: Map<Seq<char>, JsonView>,
    y: Map<Seq<char>, JsonView>,
    t: int,
)
    requires
        0 <= t < terms.len(),
        ahead(stored, terms[t], x, y) || ahead(stored, terms[t], y, x),
    ensures
        before(stored, terms, x, y) || before(stored, terms, y, x),
    decreases terms.len(),
{
    if t > 0 {
        assert(terms.drop_first()[t - 1] == terms[t]);
        lemma_ordered(stored, terms.drop_first(), x, y, t - 1);
    }
}

/// Of rows that are all ordered there is one arrangement only.
proof fn lemma_one_order(
    stored: Stored,
    terms: Seq<Term>,
    a: Seq<Map<Seq<char>, JsonView>>,
    b: Seq<Map<Seq<char>, JsonView>>,
)
    requires
        a.to_multiset() == b.to_multiset(),
        in_order(stored, terms, a),
        in_order(stored, terms, b),
        forall|i: int, j: int|
            0 <= i < a.len() && 0 <= j < a.len() && a[i] != a[j] ==> before(
                stored,
                terms,
                #[trigger] a[i],
                #[trigger] a[j],
            ) || before(stored, terms, a[j], a[i]),
    ensures
        a == b,
    decreases a.len(),
{
    a.to_multiset_ensures();
    b.to_multiset_ensures();
    if a.len() > 0 {
        let x = a[0];
        let y = b[0];
        assert(a.contains(x) && b.contains(y));
        assert(b.to_multiset().count(x) > 0 && a.to_multiset().count(y) > 0);
        assert(b.contains(x) && a.contains(y));
        let i = choose|i: int| 0 <= i < a.len() && a[i] == y;
        let j = choose|j: int| 0 <= j < b.len() && b[j] == x;
        if x != y {
            assert(!before(stored, terms, a[i], a[0]));
            assert(!before(stored, terms, b[j], b[0]));
            assert(false);
        }
        assert(a.remove(0).to_multiset() == b.remove(0).to_multiset());
        assert forall|i: int, j: int| 0 <= i < j < a.remove(0).len() implies !before(
            stored,
            terms,
            #[trigger] a.remove(0)[j],
            #[trigger] a.remove(0)[i],
        ) by {
            assert(a.remove(0)[i] == a[i + 1] && a.remove(0)[j] == a[j + 1]);
        }
        assert forall|i: int, j: int| 0 <= i < j < b.remove(0).len() implies !before(
            stored,
            terms,
            #[trigger] b.remove(0)[j],
            #[trigger] b.remove(0)[i],
        ) by {
            assert(b.remove(0)[i] == b[i + 1] && b.remove(0)[j] == b[j + 1]);
        }
        assert forall|i: int, j: int|
            0 <= i < a.remove(0).len() && 0 <= j < a.remove(0).len() && a.remove(0)[i] != a.remove(
                0,
            )[j] implies before(stored, terms, #[trigger] a.remove(0)[i], #[trigger] a.remove(0)[j])
            || before(stored, terms, a.remove(0)[j], a.remove(0)[i]) by {
            assert(a.remove(0)[i] == a[i + 1] && a.remove(0)[j] == a[j + 1]);
        }
        lemma_one_order(stored, terms, a.remove(0), b.remove(0));
        assert(a =~= seq![x] + a.remove(0));
        assert(b =~= seq![y] + b.remove(0));
    } else {
        assert(b.len() == 0);
        assert(a =~= b);
    }
}

/// Two arrangements for selects that ask for the same order of the same rows
/// of a table with a key are the same.
proof fn lemma_one_arrangement(
    stored: Stored,
    table: Seq<char>,
    s: Selection,
    t: Selection,
    a: Seq<Map<Seq<char>, JsonView>>,
    b: Seq<Map<Seq<char>, JsonView>>,
)
    requires
        s.filters == t.filters,
        s.tree == t.tree,
        s.sort == t.sort,
        s.unique_key == t.unique_key,
        is_key_of(stored, table, s.unique_key@),
        arranges(stored, table, s, a),
        arranges(stored, table, t, b),
    ensures
        a == b,
{
    let terms = order_of(s);
    let rows = (stored.rows)(table);
    let kept = matching(stored, table, s);
    assert(order_of(t) == terms);
    assert(matching(stored, table, t) == kept);
    a.to_multiset_ensures();
    kept.to_multiset_ensures();
    assert forall|i: int, j: int|
        0 <= i < a.len() && 0 <= j < a.len() && a[i] != a[j] implies before(
        stored,
        terms,
        #[trigger] a[i],
        #[trigger] a[j],
    ) || before(stored, terms, a[j], a[i]) by {
        lemma_stored(stored, table, s, a, i);
        lemma_stored(stored, table, s, a, j);
        let p = choose|p: int| 0 <= p < rows.len() && rows[p] == a[i];
        let q = choose|q: int| 0 <= q < rows.len() && rows[q] == a[j];
        assert(apart(stored, s.unique_key@, rows[p], rows[q]));
        let k = choose|k: int| #![trigger s.unique_key@[k]]
            0 <= k < s.unique_key@.len() && ((stored.lower)(
                cell(a[i], s.unique_key@[k]@),
                cell(a[j], s.unique_key@[k]@),
            ) || (stored.lower)(
                cell(a[j], s.unique_key@[k]@),
                cell(a[i], s.unique_key@[k]@),
            ));
        let at = s.sort@.len() + k;
        assert(terms[at] == (Term {
            column: s.unique_key@[k]@,
            desc: ends_descending(s.sort@),
        }));
        lemma_ordered(stored, terms, a[i], a[j], at);
    }
    lemma_one_order(stored, terms, a, b);
}

/// Every row of an arrangement is one of the table's.
proof fn lemma_stored(
    stored: Stored,
    table: Seq<char>,
    s: Selection,
    a: Seq<Map<Seq<char>, JsonView>>,
    i: int,
)
    requires
        arranges(stored, table, s, a),
        0 <= i < a.len(),
    ensures
        (stored.rows)(table).contains(a[i]),
{
    let rows = (stored.rows)(table);
    let kept = matching(stored, table, s);
    a.to_multiset_ensures();
    kept.to_multiset_ensures();
    assert(a.contains(a[i]));
    assert(kept.to_multiset().count(a[i]) > 0);
    assert(kept.contains(a[i]));
    lemma_kept(
        rows,
        |row: Map<Seq<char>, JsonView>| (stored.meets)(s.filters, s.tree, row),
        a[i],
    );
}

/// What is kept of rows was among them.
proof fn lemma_kept(
    rows: Seq<Map<Seq<char>, JsonView>>,
    pred: spec_fn(Map<Seq<char>, JsonView>) -> bool,
    x: Map<Seq<char>, JsonView>,
)
    requires
        rows.filter(pred).contains(x),
    ensures
        rows.contains(x),
    decreases rows.len(),
{
    reveal(Seq::filter);
    if rows.len() > 0 {
        let rest = rows.drop_last().filter(pred);
        if rest.contains(x) {
            lemma_kept(rows.drop_last(), pred, x);
            let i = choose|i: int| 0 <= i < rows.drop_last().len() && rows.drop_last()[i] == x;
            assert(rows[i] == x);
        } else {
            let i = choose|i: int| 0 <= i < rows.filter(pred).len() && rows.filter(pred)[i] == x;
            if i < rest.len() {
                assert(rest[i] == x);
            }
            assert(rows[rows.len() - 1] == x);
        }
    }
}

/// The first pages, one behind the other, are the first rows.
proof fn lemma_joined(
    all: Seq<Map<Seq<char>, JsonView>>,
    pages: Seq<Seq<Map<Seq<char>, JsonView>>>,
    l: i64,
)
    requires
        l > 0,
        forall|k: int|
            0 <= k < pages.len() ==> (#[trigger] pages[k]) == part(all, Some(l), k * l),
    ensures
        joined(pages) == all.take(
            if pages.len() * l < all.len() {
                pages.len() * l
            } else {
                all.len() as int
            },
        ),
    decreases pages.len(),
{
    if pages.len() == 0 {
        assert(pages.len() * l == 0) by (nonlinear_arith)
            requires
                pages.len() == 0,
        ;
        assert(joined(pages) =~= all.take(0));
    } else {
        let k = pages.len() - 1;
        assert forall|i: int| 0 <= i < pages.drop_last().len() implies (
        #[trigger] pages.drop_last()[i]) == part(all, Some(l), i * l) by {
            assert(pages.drop_last()[i] == pages[i]);
        }
        lemma_joined(all, pages.drop_last(), l);
        assert(pages.len() * l == k * l + l) by (nonlinear_arith)
            requires
                k == pages.len() - 1,
        ;
        assert(k * l >= 0) by (nonlinear_arith)
            requires
                k >= 0,
                l > 0,
        ;
        assert(pages.last() == part(all, Some(l), k * l));
        assert(joined(pages) =~= all.take(
            if pages.len() * l < all.len() {
                pages.len() * l
            } else {
                all.len() as int
            },
        ));
    }
}

/// The pages of a list over an unchanged table with a primary key are disjoint
/// and complete: listed with `l` rows to a page until the rows are used up,
/// they are, one behind the other, the rows that match, each as often as the
/// table holds it, in the order of the sort and, where that ties, of the key.
/// That holds whatever order the backend gives to rows that tie.
pub proof fn pages_are_disjoint_and_complete<F>(
    stored: Stored,
    opts: ListOptions,
    l: i64,
    p: Prepared,
    preamble: u8,
    steps: Seq<Settled<F>>,
    pages: Seq<Seq<Map<Seq<char>, JsonView>>>,
)
    requires
        l > 0,
        p.present,
        is_key_of(stored, p.table@, p.key@),
        steps.len() == pages.len(),
        pages.len() > 0,
        forall|k: int|
            0 <= k < pages.len() ==> k * l <= i64::MAX && ops::settles(
                Pending::List { opts: page_options(opts, l, k) },
                p,
                preamble,
                #[trigger] steps[k],
            ) && is_answer(stored, select_of(steps[k]), pages[k]),
        pages.len() * l >= matching(
            stored,
            p.table@,
            select_of(steps[0])->selection,
        ).len(),
    ensures
        arranges(stored, p.table@, select_of(steps[0])->selection, joined(pages)),
        select_of(steps[0])->selection.filters == opts.filters,
        select_of(steps[0])->selection.tree == opts.filter_tree,
        select_of(steps[0])->selection.sort == opts.sort,
        select_of(steps[0])->selection.unique_key == p.key,
{
    lemma_page(opts, l, p, preamble, steps[0], 0);
    let first = select_of(steps[0])->selection;
    let all = choose|all: Seq<Map<Seq<char>, JsonView>>| #[trigger]
        arranges(stored, p.table@, first, all) && pages[0] == part(
            all,
            first.limit,
            first.offset as int,
        );
    assert forall|k: int| 0 <= k < pages.len() implies (#[trigger] pages[k]) == part(
        all,
        Some(l),
        k * l,
    ) by {
        assert(is_answer(stored, select_of(steps[k]), pages[k]));
        lemma_page(opts, l, p, preamble, steps[k], k);
        let s = select_of(steps[k])->selection;
        let again = choose|again: Seq<Map<Seq<char>, JsonView>>| #[trigger]
            arranges(stored, p.table@, s, again) && pages[k] == part(
                again,
                s.limit,
                s.offset as int,
            );
        lemma_one_arrangement(stored, p.table@, first, s, all, again);
    }
    lemma_joined(all, pages, l);
    all.to_multiset_ensures();
    matching(stored, p.table@, first).to_multiset_ensures();
    assert(all.len() == matching(stored, p.table@, first).len());
    assert(joined(pages) =~= all);
}

/// The select of a page.
proof fn lemma_page<F>(
    opts: ListOptions,
    l: i64,
    p: Prepared,
    preamble: u8,
    step: Settled<F>,
    k: int,
)
    requires
        l > 0,
        0 <= k,
        k * l <= i64::MAX,
        p.present,
        ops::settles(Pending::List { opts: page_options(opts, l, k) }, p, preamble, step),
    ensures
        select_of(step) == ops::list_select(p.table, page_options(opts, l, k), p.key),
        page_options(opts, l, k).offset == k * l,
{
    assert(k * l >= 0) by (nonlinear_arith)
        requires
            k >= 0,
            l > 0,
    ;
}

} // verus!
