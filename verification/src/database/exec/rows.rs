//! The rows an operation writes, and the columns it names.

use vstd::prelude::*;

use crate::database::filter;
use crate::database::filter::{push_tree_columns, Filter, FilterTree, SortField};
use crate::database::service::{CapGuard, DatabaseError};
use crate::ident;
use crate::ident::is_plain_ident;
use crate::json;
use crate::json::{Json, JsonView};
use crate::row;
use crate::row::Row;
use crate::text;

verus! {

// ---------------------------------------------------------------------------
// Names
// ---------------------------------------------------------------------------

/// The refusal of a name that cannot stand in a statement.
pub open spec fn refuses_sql_name(e: DatabaseError, name: Seq<char>) -> bool {
    e matches DatabaseError::InvalidArgument(m) && m@ == ident::name_refusal(name)
}

/// Admits `name` into a statement, byte for byte, exactly where it is a plain
/// identifier.
pub fn sql_name(name: &str) -> (r: Result<(), DatabaseError>)
    ensures
        match r {
            Ok(()) => ident::plain(name@),
            Err(e) => !ident::plain(name@) && refuses_sql_name(e, name@),
        },
{
    if is_plain_ident(name) {
        return Ok(());
    }
    Err(
        DatabaseError::InvalidArgument(
            text::join2(
                text::debug_text(name).as_str(),
                " is not a collection or column name (1 to 63 of: lowercase letters, digits and `_`)",
            ),
        ),
    )
}

/// What is said of the first name of a list that cannot stand in a statement.
pub open spec fn first_bad_name(names: Seq<Seq<char>>) -> Option<Seq<char>>
    decreases names.len(),
{
    if names.len() == 0 {
        None
    } else {
        match first_bad_name(names.drop_last()) {
            Some(n) => Some(n),
            None => if ident::plain(names.last()) {
                None
            } else {
                Some(names.last())
            },
        }
    }
}

/// A list without a bad name holds plain identifiers only, and the other way
/// round.
pub proof fn lemma_no_bad_name(names: Seq<Seq<char>>)
    ensures
        first_bad_name(names) is None <==> filter::names_plain(names),
        first_bad_name(names) is Some ==> !ident::plain(first_bad_name(names)->0)
            && names.contains(first_bad_name(names)->0),
    decreases names.len(),
{
    if names.len() > 0 {
        let before = names.drop_last();
        lemma_no_bad_name(before);
        if first_bad_name(before) is None {
            assert forall|i: int| 0 <= i < names.len() && ident::plain(names.last()) implies ident::plain(
                #[trigger] names[i],
            ) by {
                if i < before.len() {
                    assert(ident::plain(before[i]));
                }
            }
            if filter::names_plain(names) {
                assert(ident::plain(names[names.len() - 1]));
            }
            assert(names[names.len() - 1] == names.last());
        } else {
            let n = first_bad_name(before)->0;
            let i = choose|i: int| 0 <= i < before.len() && before[i] == n;
            assert(names[i] == n);
            if filter::names_plain(names) {
                assert(ident::plain(names[i]));
            }
        }
    }
}

proof fn lemma_first_bad_stops(names: Seq<Seq<char>>, n: int)
    requires
        0 <= n <= names.len(),
        first_bad_name(names.take(n)) is Some,
    ensures
        first_bad_name(names) == first_bad_name(names.take(n)),
    decreases names.len() - n,
{
    if n == names.len() {
        assert(names.take(n) =~= names);
    } else {
        assert(names.take(n + 1).drop_last() =~= names.take(n));
        lemma_first_bad_stops(names, n + 1);
    }
}

/// Admits every name of `names` into a statement, or refuses the first that is
/// not a plain identifier.
pub fn sql_names(names: &Vec<String>) -> (r: Result<(), DatabaseError>)
    ensures
        match r {
            Ok(()) => first_bad_name(text::views(names@)) is None,
            Err(e) => first_bad_name(text::views(names@)) is Some && refuses_sql_name(
                e,
                first_bad_name(text::views(names@))->0,
            ),
        },
{
    let ghost all = text::views(names@);
    proof {
        assert(all.take(0) =~= Seq::empty());
    }
    for i in 0..names.len()
        invariant
            all == text::views(names@),
            first_bad_name(all.take(i as int)) is None,
    {
        proof {
            assert(all.take(i + 1).drop_last() =~= all.take(i as int));
            if first_bad_name(all.take(i + 1)) is Some {
                lemma_first_bad_stops(all, i + 1);
            }
        }
        if let Err(e) = sql_name(names[i].as_str()) {
            return Err(e);
        }
    }
    proof {
        assert(all.take(all.len() as int) =~= all);
    }
    Ok(())
}

// ---------------------------------------------------------------------------
// The columns an operation names
// ---------------------------------------------------------------------------

/// The fields of sort keys, in order.
pub open spec fn sort_columns(sort: Seq<SortField>) -> Seq<Seq<char>> {
    sort.map_values(|s: SortField| s.field@)
}

/// Every column a read or a filtered write names: those of its filters, its
/// sort keys, its condition and its projection, in that order.
pub open spec fn named_columns(
    filters: Seq<Filter>,
    sort: Seq<SortField>,
    tree: Option<Vec<FilterTree>>,
    projection: Option<Vec<String>>,
) -> Seq<Seq<char>> {
    filter::filter_columns(filters) + sort_columns(sort) + (match tree {
        Some(t) => filter::tree_columns(t@),
        None => Seq::empty(),
    }) + (match projection {
        Some(p) => text::views(p@),
        None => Seq::empty(),
    })
}

/// Appends the columns that filters name.
pub fn push_filter_columns(filters: &Vec<Filter>, out: &mut Vec<String>)
    ensures
        text::views(final(out)@) == text::views(old(out)@) + filter::filter_columns(filters@),
{
    let ghost start = text::views(out@);
    for i in 0..filters.len()
        invariant
            start == text::views(old(out)@),
            text::views(out@) == start + filter::filter_columns(filters@.take(i as int)),
    {
        let ghost before = text::views(out@);
        out.push(filters[i].field.clone());
        proof {
            assert(filter::filter_columns(filters@.take(i + 1)) =~= filter::filter_columns(
                filters@.take(i as int),
            ).push(filters@[i as int].field@));
            assert(text::views(out@) =~= before.push(filters@[i as int].field@));
            assert(text::views(out@) =~= start + filter::filter_columns(filters@.take(i + 1)));
        }
    }
    proof {
        assert(filters@.take(filters@.len() as int) =~= filters@);
    }
}

/// Every column a read or a filtered write names: those of its filters, its
/// sort keys, its condition and its projection, in that order.
pub fn query_columns(
    filters: &Vec<Filter>,
    sort: &Vec<SortField>,
    tree: &Option<Vec<FilterTree>>,
    projection: &Option<Vec<String>>,
) -> (r: Vec<String>)
    ensures
        text::views(r@) == named_columns(filters@, sort@, *tree, *projection),
{
    let mut out: Vec<String> = Vec::new();
    push_filter_columns(filters, &mut out);
    let ghost filtered = filter::filter_columns(filters@);
    proof {
        assert(text::views(out@) =~= filtered);
    }
    for i in 0..sort.len()
        invariant
            text::views(out@) == filtered + sort_columns(sort@.take(i as int)),
    {
        let ghost before = text::views(out@);
        out.push(sort[i].field.clone());
        proof {
            assert(sort_columns(sort@.take(i + 1)) =~= sort_columns(sort@.take(i as int)).push(
                sort@[i as int].field@,
            ));
            assert(text::views(out@) =~= before.push(sort@[i as int].field@));
            assert(text::views(out@) =~= filtered + sort_columns(sort@.take(i + 1)));
        }
    }
    proof {
        assert(sort@.take(sort@.len() as int) =~= sort@);
    }
    let ghost sorted = filtered + sort_columns(sort@);
    let mut refs: Vec<&str> = Vec::new();
    if let Some(t) = tree {
        push_tree_columns(t, &mut refs);
    }
    let ghost conditioned = match tree {
        Some(t) => filter::tree_columns(t@),
        None => Seq::empty(),
    };
    proof {
        assert(text::views(refs@) =~= conditioned);
    }
    for i in 0..refs.len()
        invariant
            text::views(out@) == sorted + text::views(refs@).take(i as int),
    {
        let ghost before = text::views(out@);
        out.push(refs[i].to_owned());
        proof {
            assert(text::views(out@) =~= before.push(refs@[i as int]@));
            assert(text::views(out@) =~= sorted + text::views(refs@).take(i + 1));
        }
    }
    let ghost so_far = sorted + conditioned;
    proof {
        assert(text::views(refs@).take(refs@.len() as int) =~= text::views(refs@));
        assert(text::views(out@) =~= so_far);
    }
    if let Some(p) = projection {
        for i in 0..p.len()
            invariant
                text::views(out@) == so_far + text::views(p@).take(i as int),
        {
            let ghost before = text::views(out@);
            out.push(p[i].clone());
            proof {
                assert(text::views(out@) =~= before.push(p@[i as int]@));
                assert(text::views(out@) =~= so_far + text::views(p@).take(i + 1));
            }
        }
        proof {
            assert(text::views(p@).take(p@.len() as int) =~= text::views(p@));
        }
    }
    proof {
        assert(text::views(out@) =~= named_columns(filters@, sort@, *tree, *projection));
    }
    out
}

/// The columns one guard names: those of its filters, then the field it sums.
pub open spec fn guard_names(g: CapGuard) -> Seq<Seq<char>> {
    match g {
        CapGuard::CountBelow { filters, .. } => filter::filter_columns(filters@),
        CapGuard::SumAtMost { field, filters, .. } => filter::filter_columns(filters@).push(field@),
    }
}

/// The columns guards name, in order.
pub open spec fn guards_names(guards: Seq<CapGuard>) -> Seq<Seq<char>>
    decreases guards.len(),
{
    if guards.len() == 0 {
        Seq::empty()
    } else {
        guards_names(guards.drop_last()) + guard_names(guards.last())
    }
}

/// Appends the columns that guards name.
pub fn push_guard_columns(guards: &Vec<CapGuard>, out: &mut Vec<String>)
    ensures
        text::views(final(out)@) == text::views(old(out)@) + guards_names(guards@),
{
    let ghost start = text::views(out@);
    proof {
        assert(guards@.take(0) =~= Seq::empty());
        assert(start + guards_names(guards@.take(0)) =~= start);
    }
    for i in 0..guards.len()
        invariant
            start == text::views(old(out)@),
            text::views(out@) == start + guards_names(guards@.take(i as int)),
    {
        let ghost before = text::views(out@);
        proof {
            assert(guards@.take(i + 1).drop_last() =~= guards@.take(i as int));
        }
        match &guards[i] {
            CapGuard::CountBelow { filters, .. } => push_filter_columns(filters, out),
            CapGuard::SumAtMost { field, filters, .. } => {
                push_filter_columns(filters, out);
                let ghost mid = text::views(out@);
                out.push(field.clone());
                proof {
                    assert(text::views(out@) =~= mid.push(field@));
                }
            },
        }
        proof {
            assert(text::views(out@) =~= start + guards_names(guards@.take(i + 1)));
        }
    }
    proof {
        assert(guards@.take(guards@.len() as int) =~= guards@);
    }
}

// ---------------------------------------------------------------------------
// The columns a row sets, in order
// ---------------------------------------------------------------------------

/// The names stand in strictly rising order.
pub open spec fn in_order(pairs: Seq<(Seq<char>, JsonView)>) -> bool {
    forall|i: int, j: int|
        0 <= i < j < pairs.len() ==> text::precedes((#[trigger] pairs[i]).0, (#[trigger] pairs[j]).0)
}

/// `pairs` are the columns of a row in the order of their names.
pub open spec fn pairs_of(columns: Map<Seq<char>, JsonView>, pairs: Seq<(String, Json)>) -> bool {
    let views = json::entry_views(pairs);
    &&& in_order(views)
    &&& row::entries_map(views) == columns
}

/// Names in strictly rising order are distinct.
pub proof fn lemma_in_order_distinct(pairs: Seq<(Seq<char>, JsonView)>)
    requires
        in_order(pairs),
    ensures
        row::distinct_names(pairs),
{
    assert forall|i: int, j: int| 0 <= i < j < pairs.len() implies (#[trigger] pairs[i]).0 != (
    #[trigger] pairs[j]).0 by {
        text::precedes_is_irreflexive(pairs[i].0);
    }
}

/// Lists of distinct entries that hold the same entries make the same map.
pub proof fn lemma_same_entries(a: Seq<(Seq<char>, JsonView)>, b: Seq<(Seq<char>, JsonView)>)
    requires
        row::distinct_names(a),
        row::distinct_names(b),
        forall|i: int| 0 <= i < a.len() ==> b.contains(#[trigger] a[i]),
        forall|i: int| 0 <= i < b.len() ==> a.contains(#[trigger] b[i]),
    ensures
        row::entries_map(a) == row::entries_map(b),
{
    row::lemma_entries_map(a);
    row::lemma_entries_map(b);
    let m = row::entries_map(a);
    let n = row::entries_map(b);
    assert forall|k: Seq<char>| m.dom().contains(k) implies n.dom().contains(k) && n[k] == m[k] by {
        let i = choose|i: int| 0 <= i < a.len() && (#[trigger] a[i]).0 == k;
        assert(b.contains(a[i]));
        let j = choose|j: int| 0 <= j < b.len() && b[j] == a[i];
        assert(n[b[j].0] == b[j].1);
        assert(m[a[i].0] == a[i].1);
    }
    assert forall|k: Seq<char>| n.dom().contains(k) implies m.dom().contains(k) by {
        let i = choose|i: int| 0 <= i < b.len() && (#[trigger] b[i]).0 == k;
        assert(a.contains(b[i]));
        let j = choose|j: int| 0 <= j < a.len() && a[j] == b[i];
        assert(m.dom().contains(a[j].0));
    }
    assert(m =~= n);
}

/// There is only one list of a row's columns in the order of their names.
pub proof fn pairs_are_unique(
    columns: Map<Seq<char>, JsonView>,
    a: Seq<(String, Json)>,
    b: Seq<(String, Json)>,
)
    requires
        pairs_of(columns, a),
        pairs_of(columns, b),
    ensures
        json::entry_views(a) == json::entry_views(b),
{
    lemma_sorted_unique(json::entry_views(a), json::entry_views(b));
}

/// Two lists in strict order that make the same map are the same list.
pub proof fn lemma_sorted_unique(a: Seq<(Seq<char>, JsonView)>, b: Seq<(Seq<char>, JsonView)>)
    requires
        in_order(a),
        in_order(b),
        row::entries_map(a) == row::entries_map(b),
    ensures
        a == b,
    decreases a.len(),
{
    lemma_in_order_distinct(a);
    lemma_in_order_distinct(b);
    row::lemma_entries_map(a);
    row::lemma_entries_map(b);
    assert(a.len() == b.len());
    if a.len() > 0 {
        let x = a.last();
        let y = b.last();
        assert(a[a.len() - 1] == x && b[b.len() - 1] == y);
        if x.0 != y.0 {
            // Each last name stands in the other list too, before its last.
            assert(row::entries_map(b).dom().contains(x.0));
            let i = choose|i: int| 0 <= i < b.len() && (#[trigger] b[i]).0 == x.0;
            assert(text::precedes(b[i].0, b[b.len() - 1].0));
            assert(row::entries_map(a).dom().contains(y.0));
            let j = choose|j: int| 0 <= j < a.len() && (#[trigger] a[j]).0 == y.0;
            assert(text::precedes(a[j].0, a[a.len() - 1].0));
            text::precedes_is_transitive(x.0, y.0, x.0);
            text::precedes_is_irreflexive(x.0);
        }
        assert(x.1 == y.1);
        let p = a.drop_last();
        let q = b.drop_last();
        assert(in_order(p)) by {
            assert forall|i: int, j: int| 0 <= i < j < p.len() implies text::precedes(
                (#[trigger] p[i]).0,
                (#[trigger] p[j]).0,
            ) by {
                assert(text::precedes(a[i].0, a[j].0));
            }
        }
        assert(in_order(q)) by {
            assert forall|i: int, j: int| 0 <= i < j < q.len() implies text::precedes(
                (#[trigger] q[i]).0,
                (#[trigger] q[j]).0,
            ) by {
                assert(text::precedes(b[i].0, b[j].0));
            }
        }
        lemma_in_order_distinct(p);
        lemma_in_order_distinct(q);
        row::lemma_entries_map(p);
        row::lemma_entries_map(q);
        // Without the last entry the maps still agree.
        assert(row::entries_map(p) =~= row::entries_map(a).remove(x.0)) by {
            if row::entries_map(p).dom().contains(x.0) {
                let i = choose|i: int| 0 <= i < p.len() && (#[trigger] p[i]).0 == x.0;
                assert(a[i].0 != a[a.len() - 1].0);
            }
        }
        assert(row::entries_map(q) =~= row::entries_map(b).remove(y.0)) by {
            if row::entries_map(q).dom().contains(y.0) {
                let i = choose|i: int| 0 <= i < q.len() && (#[trigger] q[i]).0 == y.0;
                assert(b[i].0 != b[b.len() - 1].0);
            }
        }
        lemma_sorted_unique(p, q);
        assert(a =~= p.push(x));
        assert(b =~= q.push(y));
    } else {
        assert(a =~= b);
    }
}

/// Where the first of the sorted names stands that does not come before
/// `name`.
fn place_for(pairs: &Vec<(String, Json)>, name: &str) -> (r: usize)
    requires
        in_order(json::entry_views(pairs@)),
        forall|i: int| 0 <= i < pairs@.len() ==> (#[trigger] pairs@[i]).0@ != name@,
    ensures
        r <= pairs@.len(),
        forall|i: int| 0 <= i < r ==> text::precedes((#[trigger] pairs@[i]).0@, name@),
        forall|i: int| r <= i < pairs@.len() ==> text::precedes(name@, (#[trigger] pairs@[i]).0@),
{
    let mut at: usize = 0;
    while at < pairs.len() && text::is_before(pairs[at].0.as_str(), name)
        invariant
            at <= pairs@.len(),
            forall|i: int| 0 <= i < at ==> text::precedes((#[trigger] pairs@[i]).0@, name@),
        decreases pairs@.len() - at,
    {
        at += 1;
    }
    proof {
        if at < pairs@.len() {
            text::precedes_is_total(pairs@[at as int].0@, name@);
        }
        let views = json::entry_views(pairs@);
        assert forall|i: int| at <= i < pairs@.len() implies text::precedes(
            name@,
            (#[trigger] pairs@[i]).0@,
        ) by {
            if i > at {
                assert(text::precedes(views[at as int].0, views[i].0));
                text::precedes_is_transitive(name@, pairs@[at as int].0@, pairs@[i].0@);
            }
        }
    }
    at
}

/// The columns of a row in the order of their names.
pub fn sorted_columns(data: &Row) -> (r: Vec<(String, Json)>)
    ensures
        pairs_of(data@, r@),
{
    let n: usize = data.len();
    let ghost all = data.listed();
    let mut pairs: Vec<(String, Json)> = Vec::new();
    proof {
        assert(json::entry_views(pairs@) =~= Seq::empty());
        assert(all.take(0) =~= Seq::empty());
    }
    for k in 0..n
        invariant
            n == all.len(),
            all == data.listed(),
            row::distinct_names(all),
            in_order(json::entry_views(pairs@)),
            row::entries_map(json::entry_views(pairs@)) == row::entries_map(all.take(k as int)),
    {
        let name = data.name_at(k).to_owned();
        let value = data.value_at(k).clone();
        let ghost before = json::entry_views(pairs@);
        let ghost e = (name@, value@);
        proof {
            assert(e == all[k as int]);
            lemma_in_order_distinct(before);
            row::lemma_entries_map(before);
            let seen = all.take(k as int);
            assert(row::distinct_names(seen)) by {
                assert forall|i: int, j: int| 0 <= i < j < seen.len() implies (
                #[trigger] seen[i]).0 != (#[trigger] seen[j]).0 by {
                    assert(all[i].0 != all[j].0);
                }
            }
            row::lemma_entries_map(seen);
            assert forall|i: int| 0 <= i < pairs@.len() implies (#[trigger] pairs@[i]).0@
                != name@ by {
                assert(before[i].0 == pairs@[i].0@);
                assert(row::entries_map(before).dom().contains(before[i].0));
                let j = choose|j: int| 0 <= j < seen.len() && (#[trigger] seen[j]).0 == before[i].0;
                assert(all[j].0 != all[k as int].0);
            }
        }
        let at = place_for(&pairs, name.as_str());
        let ghost old_pairs = pairs@;
        pairs.insert(at, (name, value));
        proof {
            let after = json::entry_views(pairs@);
            assert(after =~= before.insert(at as int, e));
            assert(in_order(after)) by {
                assert forall|i: int, j: int| 0 <= i < j < after.len() implies text::precedes(
                    (#[trigger] after[i]).0,
                    (#[trigger] after[j]).0,
                ) by {
                    let x = if i < at {
                        i
                    } else {
                        i - 1
                    };
                    let y = if j < at {
                        j
                    } else {
                        j - 1
                    };
                    if i != at && j != at {
                        assert(after[i] == before[x]);
                        assert(after[j] == before[y]);
                        assert(text::precedes(before[x].0, before[y].0));
                    } else if j == at {
                        assert(after[i] == before[i]);
                        assert(old_pairs[i].0@ == before[i].0);
                    } else {
                        assert(after[j] == before[j - 1]);
                        assert(old_pairs[j - 1].0@ == before[j - 1].0);
                    }
                }
            }
            lemma_in_order_distinct(after);
            let pushed = before.push(e);
            assert(row::distinct_names(pushed)) by {
                assert forall|i: int, j: int| 0 <= i < j < pushed.len() implies (
                #[trigger] pushed[i]).0 != (#[trigger] pushed[j]).0 by {
                    assert(pushed[i] == before[i]);
                    assert(old_pairs[i].0@ == before[i].0);
                    if j < before.len() {
                        assert(pushed[j] == before[j]);
                        assert(before[i].0 != before[j].0);
                    }
                }
            }
            assert forall|i: int| 0 <= i < after.len() implies pushed.contains(
                #[trigger] after[i],
            ) by {
                if i < at {
                    assert(pushed[i] == after[i]);
                } else if i == at {
                    assert(pushed[before.len() as int] == after[i]);
                } else {
                    assert(pushed[i - 1] == after[i]);
                }
            }
            assert forall|i: int| 0 <= i < pushed.len() implies after.contains(
                #[trigger] pushed[i],
            ) by {
                if i == before.len() {
                    assert(after[at as int] == pushed[i]);
                } else if i < at {
                    assert(after[i] == pushed[i]);
                } else {
                    assert(after[i + 1] == pushed[i]);
                }
            }
            lemma_same_entries(after, pushed);
            assert(pushed.drop_last() =~= before);
            assert(all.take(k + 1).drop_last() =~= all.take(k as int));
            assert(row::entries_map(after) == row::entries_map(all.take(k + 1)));
        }
    }
    proof {
        assert(all.take(n as int) =~= all);
    }
    pairs
}

/// A name of the row that cannot stand in a statement.
pub open spec fn bad_column(data: Map<Seq<char>, JsonView>, e: DatabaseError) -> bool {
    exists|k: Seq<char>|
        #[trigger] data.dom().contains(k) && !ident::plain(k) && refuses_sql_name(e, k)
}

/// Every column of a map has a plain name.
pub open spec fn columns_plain(data: Map<Seq<char>, JsonView>) -> bool {
    forall|k: Seq<char>| #[trigger] data.dom().contains(k) ==> ident::plain(k)
}

/// Admits every column name of a row into a statement, or refuses one that is
/// not a plain identifier.
pub fn sql_row(data: &Row) -> (r: Result<(), DatabaseError>)
    ensures
        match r {
            Ok(()) => columns_plain(data@),
            Err(e) => bad_column(data@, e),
        },
{
    let n: usize = data.len();
    proof {
        row::lemma_entries_map(data.listed());
    }
    for i in 0..n
        invariant
            n == data.listed().len(),
            row::distinct_names(data.listed()),
            data@ == row::entries_map(data.listed()),
            forall|k: int| 0 <= k < i ==> ident::plain((#[trigger] data.listed()[k]).0),
    {
        if let Err(e) = sql_name(data.name_at(i)) {
            proof {
                row::lemma_entries_map(data.listed());
                assert(data@.dom().contains(data.listed()[i as int].0));
            }
            return Err(e);
        }
    }
    Ok(())
}

/// The columns of a row in the order of their names, refusing a name that is
/// not a plain identifier. The order makes the same row the same statement.
pub fn sorted_pairs(data: &Row) -> (r: Result<Vec<(String, Json)>, DatabaseError>)
    ensures
        match r {
            Ok(pairs) => columns_plain(data@) && pairs_of(data@, pairs@),
            Err(e) => bad_column(data@, e),
        },
{
    if let Err(e) = sql_row(data) {
        return Err(e);
    }
    Ok(sorted_columns(data))
}

// ---------------------------------------------------------------------------
// Keys and timestamps
// ---------------------------------------------------------------------------

/// A lower-case hexadecimal digit.
pub open spec fn is_hex(c: char) -> bool {
    ('0' <= c && c <= '9') || ('a' <= c && c <= 'f')
}

/// The text of a version 7 UUID: 36 characters, in lower case, with hyphens
/// in the four places, the version and the variant in theirs.
pub open spec fn is_record_id(s: Seq<char>) -> bool {
    &&& s.len() == 36
    &&& s[8] == '-' && s[13] == '-' && s[18] == '-' && s[23] == '-'
    &&& forall|i: int|
        0 <= i < 36 && i != 8 && i != 13 && i != 18 && i != 23 ==> is_hex(#[trigger] s[i])
    &&& s[14] == '7'
    &&& s[19] == '8' || s[19] == '9' || s[19] == 'a' || s[19] == 'b'
}

/// The `id` of a record created without one: `uuid::Uuid::now_v7`, rendered
/// by its `Display`. It is the text of a version 7 UUID. Which one depends on
/// the clock and on chance and is not stated, nor that ids rise in the order
/// in which one process mints them.
#[verifier::external_body]
pub fn mint_record_id() -> (r: String)
    ensures
        is_record_id(r@),
{
    uuid::Uuid::now_v7().to_string()
}

/// A timestamp in UTC: digits and separators, closed by the zero offset.
pub open spec fn is_utc_stamp(s: Seq<char>) -> bool {
    &&& s.len() >= 25
    &&& s.subrange(s.len() - 6, s.len() as int) == "+00:00"@
    &&& forall|i: int|
        0 <= i < s.len() ==> text::is_digit(#[trigger] s[i]) || s[i] == '-' || s[i] == '+' || s[i]
            == ':' || s[i] == '.' || s[i] == 'T'
}

/// The time now: `chrono::Utc::now`, rendered by `to_rfc3339`. It is a
/// timestamp in UTC; which one depends on the clock and is not stated.
#[verifier::external_body]
fn now_stamp() -> (r: String)
    ensures
        is_utc_stamp(r@),
{
    chrono::Utc::now().to_rfc3339()
}

/// `m` with column `k` set to `v`, unless it is there.
pub open spec fn with_default(
    m: Map<Seq<char>, JsonView>,
    k: Seq<char>,
    v: JsonView,
) -> Map<Seq<char>, JsonView> {
    if m.dom().contains(k) {
        m
    } else {
        m.insert(k, v)
    }
}

/// A row after it was stamped with the time `now`: as updated, and where
/// `created` is set as created too. What the caller set stays.
pub open spec fn stamped(
    m: Map<Seq<char>, JsonView>,
    created: bool,
    now: Seq<char>,
) -> Map<Seq<char>, JsonView> {
    let m1 = if created {
        with_default(m, "created_at"@, JsonView::Str(now))
    } else {
        m
    };
    with_default(m1, "updated_at"@, JsonView::Str(now))
}

/// A row after the policy of an insert: an `id`, unless the caller gave one or
/// the table fills it, and both timestamps.
pub open spec fn created(
    m: Map<Seq<char>, JsonView>,
    autogenerates_id: bool,
    id: Seq<char>,
    now: Seq<char>,
) -> Map<Seq<char>, JsonView> {
    let m1 = if autogenerates_id {
        m
    } else {
        with_default(m, "id"@, JsonView::Str(id))
    };
    stamped(m1, true, now)
}

/// Stamps a row with the time `now`.
pub fn stamp_with(data: &mut Row, include_created: bool, now: &str)
    ensures
        final(data)@ == stamped(old(data)@, include_created, now@),
{
    if include_created {
        data.insert_absent("created_at".to_owned(), Json::Str(now.to_owned()));
    }
    data.insert_absent("updated_at".to_owned(), Json::Str(now.to_owned()));
}

/// Stamps `updated_at`, and on creation `created_at`, where the caller did not.
pub fn stamp_timestamps(data: &mut Row, include_created: bool)
    ensures
        exists|now: Seq<char>|
            #[trigger] is_utc_stamp(now) && final(data)@ == stamped(
                old(data)@,
                include_created,
                now,
            ),
{
    let now = now_stamp();
    stamp_with(data, include_created, now.as_str());
}

/// Applies the policy of an insert with a given `id` and time.
pub fn prepare_with(data: &mut Row, autogenerates_id: bool, id: String, now: &str)
    ensures
        final(data)@ == created(old(data)@, autogenerates_id, id@, now@),
{
    if !autogenerates_id {
        data.insert_absent("id".to_owned(), Json::Str(id));
    }
    stamp_with(data, true, now);
}

/// The row `after` is the row `before` after the policy of an insert, with
/// some fresh key and some time.
pub open spec fn is_created(
    before: Map<Seq<char>, JsonView>,
    autogenerates_id: bool,
    after: Map<Seq<char>, JsonView>,
) -> bool {
    exists|id: Seq<char>, now: Seq<char>|
        #[trigger] is_record_id(id) && #[trigger] is_utc_stamp(now) && after == created(
            before,
            autogenerates_id,
            id,
            now,
        )
}

/// The row `after` is the row `before`, stamped as updated at some time.
pub open spec fn is_stamped(
    before: Map<Seq<char>, JsonView>,
    after: Map<Seq<char>, JsonView>,
) -> bool {
    exists|now: Seq<char>| #[trigger] is_utc_stamp(now) && after == stamped(before, false, now)
}

/// Applies the policy of an insert: mints an `id` unless the row carries one
/// or the table generates its own, then stamps the timestamps.
pub fn prepare_created_row(data: &mut Row, autogenerates_id: bool)
    ensures
        is_created(old(data)@, autogenerates_id, final(data)@),
{
    let id = mint_record_id();
    let now = now_stamp();
    prepare_with(data, autogenerates_id, id, now.as_str());
}

/// Stamping keeps every column the caller set, as the caller set it.
pub proof fn stamping_keeps_the_callers_values(
    m: Map<Seq<char>, JsonView>,
    autogenerates_id: bool,
    id: Seq<char>,
    now: Seq<char>,
    k: Seq<char>,
)
    requires
        m.dom().contains(k),
    ensures
        stamped(m, false, now).dom().contains(k),
        stamped(m, false, now)[k] == m[k],
        created(m, autogenerates_id, id, now).dom().contains(k),
        created(m, autogenerates_id, id, now)[k] == m[k],
{
}

/// A created row has both timestamps, and a key unless the table fills it; it
/// has no column beyond these and the caller's.
pub proof fn created_rows_are_complete(
    m: Map<Seq<char>, JsonView>,
    autogenerates_id: bool,
    id: Seq<char>,
    now: Seq<char>,
)
    ensures
        created(m, autogenerates_id, id, now).dom().contains("created_at"@),
        created(m, autogenerates_id, id, now).dom().contains("updated_at"@),
        !autogenerates_id ==> created(m, autogenerates_id, id, now).dom().contains("id"@),
        forall|k: Seq<char>| #[trigger]
            created(m, autogenerates_id, id, now).dom().contains(k) ==> m.dom().contains(k) || k
                == "id"@ || k == "created_at"@ || k == "updated_at"@,
{
}

} // verus!
