//! From the calls of the suite to what a service is asked.

use vstd::prelude::*;

use crate::database::conformance::list::List;
use crate::database::conformance::probe::{
    Call, Cap, ColumnShape, Condition, Datum, Entry, Group, Key, Listing, Measure, Summary,
    TableShape, Taken, Tree, Upserting, Write,
};
use crate::database::exec::ops::Request;
use crate::database::filter::{ColumnFilter, Filter, FilterOp, FilterTree, FilterView, SortField};
use crate::database::schema::{Column, Table};
use crate::database::service::{
    AggregateColumnSpec, AggregateSpec, CapGuard, CapGuardView, GroupBySpec, ListOptions,
    UpsertConflict, UpsertSpec, WriteOp,
};
use crate::json;
use crate::json::{Json, JsonView, RealNumber, RealView};
use crate::row::Row;
use crate::text;
use crate::text::{join2, u64_text};

verus! {

// ---------------------------------------------------------------------------
// Values
// ---------------------------------------------------------------------------

/// The JSON value that a datum stands for.
pub open spec fn datum_view(d: Datum) -> JsonView
    decreases d,
{
    match d {
        Datum::Null => JsonView::Null,
        Datum::Bool(b) => JsonView::Bool(b),
        Datum::Int(i) => JsonView::Int(i),
        Datum::Real { text, display, truncated, unsigned, bits } => JsonView::Real(
            RealView { text: text@, display: display@, truncated, unsigned, bits },
        ),
        Datum::Text(s) => JsonView::Str(s@),
        Datum::Array(l) => JsonView::Array(data_views(*l)),
        Datum::Object(l) => JsonView::Object(entry_views(*l)),
    }
}

/// The JSON values that a list of data stands for.
pub open spec fn data_views(l: List<Datum>) -> Seq<JsonView>
    decreases l,
{
    match l {
        List::Nil => Seq::empty(),
        List::More(rest, d) => data_views(*rest).push(datum_view(d)),
    }
}

/// The names and values that a list of entries stands for.
pub open spec fn entry_views(l: List<Entry>) -> Seq<(Seq<char>, JsonView)>
    decreases l,
{
    match l {
        List::Nil => Seq::empty(),
        List::More(rest, e) => entry_views(*rest).push((e.name@, datum_view(e.value))),
    }
}

/// The row that a list of entries stands for.
pub open spec fn row_view(l: List<Entry>) -> Map<Seq<char>, JsonView>
    decreases l,
{
    match l {
        List::Nil => Map::empty(),
        List::More(rest, e) => row_view(*rest).insert(e.name@, datum_view(e.value)),
    }
}

/// The texts of a list of names.
pub open spec fn name_views(l: List<&'static str>) -> Seq<Seq<char>>
    decreases l,
{
    match l {
        List::Nil => Seq::empty(),
        List::More(rest, s) => name_views(*rest).push(s@),
    }
}

/// The JSON value that a datum stands for.
pub fn to_json(d: &Datum) -> (r: Json)
    ensures
        r@ == datum_view(*d),
    decreases *d,
{
    match d {
        Datum::Null => Json::Null,
        Datum::Bool(b) => Json::Bool(*b),
        Datum::Int(i) => Json::Int(*i),
        Datum::Real { text, display, truncated, unsigned, bits } => Json::Real(
            RealNumber {
                text: (*text).to_owned(),
                display: (*display).to_owned(),
                truncated: *truncated,
                unsigned: *unsigned,
                bits: *bits,
            },
        ),
        Datum::Text(s) => Json::Str((*s).to_owned()),
        Datum::Array(l) => {
            let r = Json::Array(to_items(l));
            proof {
                json::lemma_view_of_children(r);
            }
            r
        },
        Datum::Object(l) => {
            let r = Json::Object(to_entries(l));
            proof {
                json::lemma_view_of_children(r);
            }
            r
        },
    }
}

fn to_items(l: &List<Datum>) -> (r: Vec<Json>)
    ensures
        text::views(r@) == data_views(*l),
    decreases *l,
{
    match l {
        List::Nil => {
            let r: Vec<Json> = Vec::new();
            proof {
                assert(text::views(r@) =~= Seq::empty());
            }
            r
        },
        List::More(rest, d) => {
            let mut r = to_items(rest);
            let ghost before = r@;
            r.push(to_json(d));
            proof {
                assert(text::views(r@) =~= text::views(before).push(datum_view(*d)));
            }
            r
        },
    }
}

fn to_entries(l: &List<Entry>) -> (r: Vec<(String, Json)>)
    ensures
        json::entry_views(r@) == entry_views(*l),
    decreases *l,
{
    match l {
        List::Nil => {
            let r: Vec<(String, Json)> = Vec::new();
            proof {
                assert(json::entry_views(r@) =~= Seq::empty());
            }
            r
        },
        List::More(rest, e) => {
            let mut r = to_entries(rest);
            let ghost before = r@;
            r.push((e.name.to_owned(), to_json(&e.value)));
            proof {
                assert(json::entry_views(r@) =~= json::entry_views(before).push(
                    (e.name@, datum_view(e.value)),
                ));
            }
            r
        },
    }
}

/// The row that a list of entries stands for.
pub fn to_row(l: &List<Entry>) -> (r: Row)
    ensures
        r@ == row_view(*l),
    decreases *l,
{
    match l {
        List::Nil => Row::new(),
        List::More(rest, e) => {
            let mut r = to_row(rest);
            r.insert(e.name.to_owned(), to_json(&e.value));
            r
        },
    }
}

/// The texts of a list of names.
pub fn to_names(l: &List<&'static str>) -> (r: Vec<String>)
    ensures
        text::views(r@) == name_views(*l),
    decreases *l,
{
    match l {
        List::Nil => {
            let r: Vec<String> = Vec::new();
            proof {
                assert(text::views(r@) =~= Seq::empty());
            }
            r
        },
        List::More(rest, s) => {
            let mut r = to_names(rest);
            let ghost before = r@;
            r.push((*s).to_owned());
            proof {
                assert(text::views(r@) =~= text::views(before).push(s@));
            }
            r
        },
    }
}

/// Each row, in order.
pub open spec fn rows_are(l: List<List<Entry>>, s: Seq<Row>) -> bool
    decreases l,
{
    match l {
        List::Nil => s.len() == 0,
        List::More(rest, row) => s.len() > 0 && rows_are(*rest, s.drop_last()) && s.last()@
            == row_view(row),
    }
}

fn to_rows(l: &List<List<Entry>>) -> (r: Vec<Row>)
    ensures
        rows_are(*l, r@),
    decreases *l,
{
    match l {
        List::Nil => Vec::new(),
        List::More(rest, row) => {
            let mut r = to_rows(rest);
            let ghost before = r@;
            r.push(to_row(row));
            proof {
                assert(r@.drop_last() =~= before);
            }
            r
        },
    }
}

/// `n` in at least three digits.
pub open spec fn three_digits(n: nat) -> Seq<char> {
    if n < 10 {
        "00"@ + text::decimal(n as int)
    } else if n < 100 {
        "0"@ + text::decimal(n as int)
    } else {
        text::decimal(n as int)
    }
}

/// The numbered row `n`: a name, a score, and in every third a note.
pub open spec fn numbered_row(n: nat) -> Map<Seq<char>, JsonView> {
    let row = Map::empty().insert("name"@, JsonView::Str("m"@ + three_digits(n))).insert(
        "score"@,
        JsonView::Int(n as i64),
    );
    if n % 3 == 0 {
        row.insert("note"@, JsonView::Str("third"@))
    } else {
        row
    }
}

/// The first rows that are numbered.
pub open spec fn rows_are_numbered(s: Seq<Row>) -> bool {
    forall|i: int| 0 <= i < s.len() ==> (#[trigger] s[i])@ == numbered_row(i as nat)
}

fn to_numbered_rows(count: u64) -> (r: Vec<Row>)
    requires
        count <= 1000,
    ensures
        r@.len() == count,
        rows_are_numbered(r@),
{
    let mut out: Vec<Row> = Vec::new();
    for n in 0..count
        invariant
            count <= 1000,
            out@.len() == n,
            rows_are_numbered(out@),
    {
        let digits = u64_text(n);
        let name = if n < 10 {
            join2("00", &digits)
        } else if n < 100 {
            join2("0", &digits)
        } else {
            digits
        };
        let mut row = Row::new();
        row.insert("name".to_owned(), Json::Str(join2("m", &name)));
        row.insert("score".to_owned(), Json::Int(n as i64));
        if n % 3 == 0 {
            row.insert("note".to_owned(), Json::Str("third".to_owned()));
        }
        proof {
            assert(row@ == numbered_row(n as nat));
        }
        out.push(row);
    }
    out
}

// ---------------------------------------------------------------------------
// Conditions
// ---------------------------------------------------------------------------

/// The filter that a condition stands for.
pub open spec fn condition_view(c: Condition) -> FilterView {
    FilterView { field: c.field@, operator: c.operator, value: datum_view(c.value) }
}

/// The filters that a list of conditions stands for.
pub open spec fn condition_views(l: List<Condition>) -> Seq<FilterView>
    decreases l,
{
    match l {
        List::Nil => Seq::empty(),
        List::More(rest, c) => condition_views(*rest).push(condition_view(c)),
    }
}

fn to_filter(c: &Condition) -> (r: Filter)
    ensures
        r@ == condition_view(*c),
{
    Filter { field: c.field.to_owned(), operator: c.operator, value: to_json(&c.value) }
}

/// The filters that a list of conditions stands for.
pub fn to_filters(l: &List<Condition>) -> (r: Vec<Filter>)
    ensures
        text::views(r@) == condition_views(*l),
    decreases *l,
{
    match l {
        List::Nil => {
            let r: Vec<Filter> = Vec::new();
            proof {
                assert(text::views(r@) =~= Seq::empty());
            }
            r
        },
        List::More(rest, c) => {
            let mut r = to_filters(rest);
            let ghost before = r@;
            r.push(to_filter(c));
            proof {
                assert(text::views(r@) =~= text::views(before).push(condition_view(*c)));
            }
            r
        },
    }
}

/// The filter tree says what the tree says.
pub open spec fn tree_is(t: Tree, f: FilterTree) -> bool
    decreases t,
{
    match t {
        Tree::Leaf(c) => f matches FilterTree::Leaf(g) && g@ == condition_view(c),
        Tree::Columns { field, operator, column } => f matches FilterTree::ColumnCompare(g)
            && g.field@ == field@ && g.operator == operator && g.column@ == column@,
        Tree::Any(l) => f matches FilterTree::Any(v) && trees_are(*l, v@),
    }
}

/// Each filter tree says what its tree says, in order.
pub open spec fn trees_are(l: List<Tree>, s: Seq<FilterTree>) -> bool
    decreases l,
{
    match l {
        List::Nil => s.len() == 0,
        List::More(rest, t) => s.len() > 0 && trees_are(*rest, s.drop_last()) && tree_is(
            t,
            s.last(),
        ),
    }
}

fn to_tree(t: &Tree) -> (r: FilterTree)
    ensures
        tree_is(*t, r),
    decreases *t,
{
    match t {
        Tree::Leaf(c) => FilterTree::Leaf(to_filter(c)),
        Tree::Columns { field, operator, column } => FilterTree::ColumnCompare(
            ColumnFilter {
                field: (*field).to_owned(),
                operator: *operator,
                column: (*column).to_owned(),
            },
        ),
        Tree::Any(l) => FilterTree::Any(to_trees(l)),
    }
}

fn to_trees(l: &List<Tree>) -> (r: Vec<FilterTree>)
    ensures
        trees_are(*l, r@),
    decreases *l,
{
    match l {
        List::Nil => Vec::new(),
        List::More(rest, t) => {
            let mut r = to_trees(rest);
            let ghost before = r@;
            r.push(to_tree(t));
            proof {
                assert(r@.drop_last() =~= before);
            }
            r
        },
    }
}

/// Each sort field is its key, in order.
pub open spec fn keys_are(l: List<Key>, s: Seq<SortField>) -> bool
    decreases l,
{
    match l {
        List::Nil => s.len() == 0,
        List::More(rest, k) => s.len() > 0 && keys_are(*rest, s.drop_last()) && s.last().field@
            == k.field@ && s.last().desc == k.desc,
    }
}

fn to_keys(l: &List<Key>) -> (r: Vec<SortField>)
    ensures
        keys_are(*l, r@),
    decreases *l,
{
    match l {
        List::Nil => Vec::new(),
        List::More(rest, k) => {
            let mut r = to_keys(rest);
            let ghost before = r@;
            r.push(SortField { field: k.field.to_owned(), desc: k.desc });
            proof {
                assert(r@.drop_last() =~= before);
            }
            r
        },
    }
}

/// The list options say what the listing says; the records over all pages are
/// counted.
pub open spec fn listing_is(l: Listing, o: ListOptions) -> bool {
    &&& text::views(o.filters@) == condition_views(l.filters)
    &&& match l.trees {
        Some(trees) => o.filter_tree matches Some(v) && trees_are(trees, v@),
        None => o.filter_tree is None,
    }
    &&& keys_are(l.sort, o.sort@)
    &&& o.limit == l.limit
    &&& o.offset == l.offset
    &&& !o.skip_count
    &&& match l.columns {
        Some(columns) => o.columns matches Some(v) && text::views(v@) == name_views(columns),
        None => o.columns is None,
    }
}

fn to_options(l: &Listing) -> (r: ListOptions)
    ensures
        listing_is(*l, r),
{
    ListOptions {
        filters: to_filters(&l.filters),
        filter_tree: match &l.trees {
            Some(trees) => Some(to_trees(trees)),
            None => None,
        },
        sort: to_keys(&l.sort),
        limit: l.limit,
        offset: l.offset,
        skip_count: false,
        columns: match &l.columns {
            Some(columns) => Some(to_names(columns)),
            None => None,
        },
    }
}

// ---------------------------------------------------------------------------
// Writes
// ---------------------------------------------------------------------------

/// The upsert says what was written down. A counter counts in `count`, its
/// window begins at `window_start`, and it stamps `created_at` and
/// `updated_at`.
pub open spec fn upsert_is(u: Upserting, s: UpsertSpec) -> bool {
    &&& json::entry_views(s.data@) == entry_views(u.data)
    &&& text::views(s.conflict_columns@) == name_views(u.conflict)
    &&& match u.taken {
        Taken::Overwrite(columns) => s.on_conflict matches UpsertConflict::SetColumns(v)
            && text::views(v@) == name_views(columns),
        Taken::Count { now, cutoff } => s.on_conflict matches UpsertConflict::WindowedCounter {
            count_field,
            window_field,
            now: at,
            window_cutoff,
            created_fields,
            updated_fields,
        } && count_field@ == "count"@ && window_field@ == "window_start"@ && at == now
            && window_cutoff == cutoff && text::views(created_fields@) == Seq::empty().push(
            "created_at"@,
        ) && text::views(updated_fields@) == Seq::empty().push("updated_at"@),
    }
}

fn just(name: &str) -> (r: Vec<String>)
    ensures
        text::views(r@) == Seq::empty().push(name@),
{
    let mut r: Vec<String> = Vec::new();
    r.push(name.to_owned());
    proof {
        assert(text::views(r@) =~= Seq::empty().push(name@));
    }
    r
}

fn to_upsert(u: &Upserting) -> (r: UpsertSpec)
    ensures
        upsert_is(*u, r),
{
    UpsertSpec {
        data: to_entries(&u.data),
        conflict_columns: to_names(&u.conflict),
        on_conflict: match &u.taken {
            Taken::Overwrite(columns) => UpsertConflict::SetColumns(to_names(columns)),
            Taken::Count { now, cutoff } => UpsertConflict::WindowedCounter {
                count_field: "count".to_owned(),
                window_field: "window_start".to_owned(),
                now: *now,
                window_cutoff: *cutoff,
                created_fields: just("created_at"),
                updated_fields: just("updated_at"),
            },
        },
    }
}

/// The guard that a cap stands for.
pub open spec fn cap_view(c: Cap) -> CapGuardView {
    match c {
        Cap::CountBelow { filters, cap } => CapGuardView::CountBelow {
            filters: condition_views(filters),
            cap,
        },
        Cap::SumAtMost { field, filters, add, cap } => CapGuardView::SumAtMost {
            field: field@,
            filters: condition_views(filters),
            add,
            cap,
        },
    }
}

/// The guards that a list of caps stands for.
pub open spec fn cap_views(l: List<Cap>) -> Seq<CapGuardView>
    decreases l,
{
    match l {
        List::Nil => Seq::empty(),
        List::More(rest, c) => cap_views(*rest).push(cap_view(c)),
    }
}

fn to_guard(c: &Cap) -> (r: CapGuard)
    ensures
        r@ == cap_view(*c),
{
    match c {
        Cap::CountBelow { filters, cap } => CapGuard::CountBelow {
            filters: to_filters(filters),
            cap: *cap,
        },
        Cap::SumAtMost { field, filters, add, cap } => CapGuard::SumAtMost {
            field: (*field).to_owned(),
            filters: to_filters(filters),
            add: *add,
            cap: *cap,
        },
    }
}

fn to_guards(l: &List<Cap>) -> (r: Vec<CapGuard>)
    ensures
        text::views(r@) == cap_views(*l),
    decreases *l,
{
    match l {
        List::Nil => {
            let r: Vec<CapGuard> = Vec::new();
            proof {
                assert(text::views(r@) =~= Seq::empty());
            }
            r
        },
        List::More(rest, c) => {
            let mut r = to_guards(rest);
            let ghost before = r@;
            r.push(to_guard(c));
            proof {
                assert(text::views(r@) =~= text::views(before).push(cap_view(*c)));
            }
            r
        },
    }
}

/// The write of a batch says what was written down.
pub open spec fn write_is(w: Write, op: WriteOp) -> bool {
    match w {
        Write::Create { table, data } => op matches WriteOp::Create { collection, data: d }
            && collection@ == table@ && d@ == row_view(data),
        Write::Update { table, id, data } => op matches WriteOp::Update {
            collection,
            id: i,
            data: d,
        } && collection@ == table@ && i@ == id@ && d@ == row_view(data),
        Write::Delete { table, id } => op matches WriteOp::Delete { collection, id: i }
            && collection@ == table@ && i@ == id@,
        Write::UpdateWhere { table, filters, data } => op matches WriteOp::UpdateWhere {
            collection,
            filters: f,
            data: d,
        } && collection@ == table@ && text::views(f@) == condition_views(filters) && d@
            == row_view(data),
        Write::DeleteWhere { table, filters } => op matches WriteOp::DeleteWhere {
            collection,
            filters: f,
        } && collection@ == table@ && text::views(f@) == condition_views(filters),
        Write::Upsert { table, row } => op matches WriteOp::Upsert { collection, spec }
            && collection@ == table@ && upsert_is(row, spec),
    }
}

/// Each write of a batch says what was written down, in order.
pub open spec fn writes_are(l: List<Write>, s: Seq<WriteOp>) -> bool
    decreases l,
{
    match l {
        List::Nil => s.len() == 0,
        List::More(rest, w) => s.len() > 0 && writes_are(*rest, s.drop_last()) && write_is(
            w,
            s.last(),
        ),
    }
}

fn to_write(w: &Write) -> (r: WriteOp)
    ensures
        write_is(*w, r),
{
    match w {
        Write::Create { table, data } => WriteOp::Create {
            collection: (*table).to_owned(),
            data: to_row(data),
        },
        Write::Update { table, id, data } => WriteOp::Update {
            collection: (*table).to_owned(),
            id: (*id).to_owned(),
            data: to_row(data),
        },
        Write::Delete { table, id } => WriteOp::Delete {
            collection: (*table).to_owned(),
            id: (*id).to_owned(),
        },
        Write::UpdateWhere { table, filters, data } => WriteOp::UpdateWhere {
            collection: (*table).to_owned(),
            filters: to_filters(filters),
            data: to_row(data),
        },
        Write::DeleteWhere { table, filters } => WriteOp::DeleteWhere {
            collection: (*table).to_owned(),
            filters: to_filters(filters),
        },
        Write::Upsert { table, row } => WriteOp::Upsert {
            collection: (*table).to_owned(),
            spec: to_upsert(row),
        },
    }
}

fn to_writes(l: &List<Write>) -> (r: Vec<WriteOp>)
    ensures
        writes_are(*l, r@),
    decreases *l,
{
    match l {
        List::Nil => Vec::new(),
        List::More(rest, w) => {
            let mut r = to_writes(rest);
            let ghost before = r@;
            r.push(to_write(w));
            proof {
                assert(r@.drop_last() =~= before);
            }
            r
        },
    }
}

// ---------------------------------------------------------------------------
// Aggregates
// ---------------------------------------------------------------------------

/// The aggregate column says what was written down.
pub open spec fn measure_is(m: Measure, c: AggregateColumnSpec) -> bool {
    match m {
        Measure::Count { alias } => c matches AggregateColumnSpec::Count { alias: a } && a@
            == alias@,
        Measure::Sum { field, alias, cast_as } => c matches AggregateColumnSpec::Sum {
            field: f,
            alias: a,
            cast_as: t,
        } && f@ == field@ && a@ == alias@ && t == cast_as,
        Measure::Avg { field, alias, cast_as } => c matches AggregateColumnSpec::Avg {
            field: f,
            alias: a,
            cast_as: t,
        } && f@ == field@ && a@ == alias@ && t == cast_as,
        Measure::Max { field, alias } => c matches AggregateColumnSpec::Max { field: f, alias: a }
            && f@ == field@ && a@ == alias@,
        Measure::CountWhere { when, alias } => c matches AggregateColumnSpec::CaseWhenSum {
            when: w,
            alias: a,
        } && trees_are(when, w@) && a@ == alias@,
        Measure::SumWhere { field, when, alias, cast_as } => c matches AggregateColumnSpec::SumWhere {
            field: f,
            when: w,
            alias: a,
            cast_as: t,
        } && f@ == field@ && trees_are(when, w@) && a@ == alias@ && t == cast_as,
    }
}

/// Each aggregate column says what was written down, in order.
pub open spec fn measures_are(l: List<Measure>, s: Seq<AggregateColumnSpec>) -> bool
    decreases l,
{
    match l {
        List::Nil => s.len() == 0,
        List::More(rest, m) => s.len() > 0 && measures_are(*rest, s.drop_last()) && measure_is(
            m,
            s.last(),
        ),
    }
}

fn to_measure(m: &Measure) -> (r: AggregateColumnSpec)
    ensures
        measure_is(*m, r),
{
    match m {
        Measure::Count { alias } => AggregateColumnSpec::Count { alias: (*alias).to_owned() },
        Measure::Sum { field, alias, cast_as } => AggregateColumnSpec::Sum {
            field: (*field).to_owned(),
            alias: (*alias).to_owned(),
            cast_as: *cast_as,
        },
        Measure::Avg { field, alias, cast_as } => AggregateColumnSpec::Avg {
            field: (*field).to_owned(),
            alias: (*alias).to_owned(),
            cast_as: *cast_as,
        },
        Measure::Max { field, alias } => AggregateColumnSpec::Max {
            field: (*field).to_owned(),
            alias: (*alias).to_owned(),
        },
        Measure::CountWhere { when, alias } => AggregateColumnSpec::CaseWhenSum {
            when: to_trees(when),
            alias: (*alias).to_owned(),
        },
        Measure::SumWhere { field, when, alias, cast_as } => AggregateColumnSpec::SumWhere {
            field: (*field).to_owned(),
            when: to_trees(when),
            alias: (*alias).to_owned(),
            cast_as: *cast_as,
        },
    }
}

fn to_measures(l: &List<Measure>) -> (r: Vec<AggregateColumnSpec>)
    ensures
        measures_are(*l, r@),
    decreases *l,
{
    match l {
        List::Nil => Vec::new(),
        List::More(rest, m) => {
            let mut r = to_measures(rest);
            let ghost before = r@;
            r.push(to_measure(m));
            proof {
                assert(r@.drop_last() =~= before);
            }
            r
        },
    }
}

/// Each term groups by what was written down, in order.
pub open spec fn groups_are(l: List<Group>, s: Seq<GroupBySpec>) -> bool
    decreases l,
{
    match l {
        List::Nil => s.len() == 0,
        List::More(rest, g) => {
            &&& s.len() > 0
            &&& groups_are(*rest, s.drop_last())
            &&& match g {
                Group::Column(name) => s.last() matches GroupBySpec::Column(c) && c@ == name@,
                Group::Day(name) => s.last() matches GroupBySpec::DateBucket { field } && field@
                    == name@,
            }
        },
    }
}

fn to_groups(l: &List<Group>) -> (r: Vec<GroupBySpec>)
    ensures
        groups_are(*l, r@),
    decreases *l,
{
    match l {
        List::Nil => Vec::new(),
        List::More(rest, g) => {
            let mut r = to_groups(rest);
            let ghost before = r@;
            let term = match g {
                Group::Column(name) => GroupBySpec::Column((*name).to_owned()),
                Group::Day(name) => GroupBySpec::DateBucket { field: (*name).to_owned() },
            };
            r.push(term);
            proof {
                assert(r@.drop_last() =~= before);
            }
            r
        },
    }
}

/// The aggregate says what the summary says, over every group.
pub open spec fn summary_is(s: Summary, a: AggregateSpec) -> bool {
    &&& text::views(a.select_columns@) == name_views(s.select)
    &&& measures_are(s.measures, a.aggregates@)
    &&& text::views(a.filters@) == condition_views(s.filters)
    &&& groups_are(s.groups, a.group_by@)
    &&& keys_are(s.sort, a.sort@)
    &&& a.limit == 0
}

fn to_aggregate(s: &Summary) -> (r: AggregateSpec)
    ensures
        summary_is(*s, r),
{
    AggregateSpec {
        select_columns: to_names(&s.select),
        aggregates: to_measures(&s.measures),
        filters: to_filters(&s.filters),
        group_by: to_groups(&s.groups),
        sort: to_keys(&s.sort),
        limit: 0,
    }
}

// ---------------------------------------------------------------------------
// Tables
// ---------------------------------------------------------------------------

/// The column is declared as written down, without a default.
pub open spec fn column_is(c: ColumnShape, d: Column) -> bool {
    &&& d.name@ == c.name@
    &&& d.data_type == c.data_type
    &&& d.nullable == c.nullable
    &&& d.primary_key == c.primary_key
    &&& d.auto_increment == c.auto_increment
    &&& d.unique == c.unique
    &&& d.default is None
}

/// Each column is declared as written down, in order.
pub open spec fn columns_are(l: List<ColumnShape>, s: Seq<Column>) -> bool
    decreases l,
{
    match l {
        List::Nil => s.len() == 0,
        List::More(rest, c) => s.len() > 0 && columns_are(*rest, s.drop_last()) && column_is(
            c,
            s.last(),
        ),
    }
}

/// The table is declared as written down, without indexes and further keys.
pub open spec fn table_is(t: TableShape, d: Table) -> bool {
    &&& d.name@ == t.name@
    &&& columns_are(t.columns, d.columns@)
    &&& d.indexes@.len() == 0
    &&& text::views(d.primary_key@) == name_views(t.primary_key)
    &&& d.unique_keys@.len() == 0
}

/// Each table is declared as written down, in order.
pub open spec fn tables_are(l: List<TableShape>, s: Seq<Table>) -> bool
    decreases l,
{
    match l {
        List::Nil => s.len() == 0,
        List::More(rest, t) => s.len() > 0 && tables_are(*rest, s.drop_last()) && table_is(
            t,
            s.last(),
        ),
    }
}

fn to_column(c: &ColumnShape) -> (r: Column)
    ensures
        column_is(*c, r),
{
    Column {
        name: c.name.to_owned(),
        data_type: c.data_type,
        nullable: c.nullable,
        primary_key: c.primary_key,
        auto_increment: c.auto_increment,
        unique: c.unique,
        default: None,
    }
}

fn to_columns(l: &List<ColumnShape>) -> (r: Vec<Column>)
    ensures
        columns_are(*l, r@),
    decreases *l,
{
    match l {
        List::Nil => Vec::new(),
        List::More(rest, c) => {
            let mut r = to_columns(rest);
            let ghost before = r@;
            r.push(to_column(c));
            proof {
                assert(r@.drop_last() =~= before);
            }
            r
        },
    }
}

fn to_table(t: &TableShape) -> (r: Table)
    ensures
        table_is(*t, r),
{
    Table {
        name: t.name.to_owned(),
        columns: to_columns(&t.columns),
        indexes: Vec::new(),
        primary_key: to_names(&t.primary_key),
        unique_keys: Vec::new(),
    }
}

fn to_tables(l: &List<TableShape>) -> (r: Vec<Table>)
    ensures
        tables_are(*l, r@),
    decreases *l,
{
    match l {
        List::Nil => Vec::new(),
        List::More(rest, t) => {
            let mut r = to_tables(rest);
            let ghost before = r@;
            r.push(to_table(t));
            proof {
                assert(r@.drop_last() =~= before);
            }
            r
        },
    }
}

// ---------------------------------------------------------------------------
// Calls
// ---------------------------------------------------------------------------

/// What is kept of earlier answers.
#[derive(Debug)]
pub struct Kept {
    /// Ids, counts and times, by the names under which they were kept.
    pub values: Row,
    /// The columns of a record.
    pub data: Option<Row>,
    /// The columns of a table.
    pub columns: Option<Vec<String>>,
    /// The keys of the pages read so far.
    pub gathered: Vec<String>,
}

impl Kept {
    /// The text that is kept under a name.
    pub open spec fn text(&self, name: Seq<char>) -> Option<Seq<char>> {
        if self.values@.dom().contains(name) {
            match self.values@[name] {
                JsonView::Str(s) => Some(s),
                _ => None,
            }
        } else {
            None
        }
    }

    /// The count that is kept under a name.
    pub open spec fn count(&self, name: Seq<char>) -> Option<i64> {
        if self.values@.dom().contains(name) {
            self.values@[name].signed()
        } else {
            None
        }
    }

    /// Nothing.
    pub fn new() -> (r: Self)
        ensures
            r.values@ == Map::<Seq<char>, JsonView>::empty(),
            r.data is None,
            r.columns is None,
            r.gathered@.len() == 0,
    {
        Kept { values: Row::new(), data: None, columns: None, gathered: Vec::new() }
    }

    /// The text that is kept under a name.
    pub fn get_text(&self, name: &str) -> (r: Option<&str>)
        ensures
            match r {
                Some(s) => self.text(name@) == Some(s@),
                None => self.text(name@) is None,
            },
    {
        match self.values.get(name) {
            Some(value) => value.as_str(),
            None => None,
        }
    }

    /// The count that is kept under a name.
    pub fn get_count(&self, name: &str) -> (r: Option<i64>)
        ensures
            r == self.count(name@),
    {
        match self.values.get(name) {
            Some(value) => value.as_i64(),
            None => None,
        }
    }
}

/// What a service is asked.
#[derive(Debug)]
pub enum Act {
    Operation(Request),
    Batch(Vec<WriteOp>),
    TableExists { table: String },
    Columns { table: String },
    EnsureTable(Table),
    EnsureTables(Vec<Table>),
    AddColumn { table: String, column: Column },
    DropTable { table: String },
    /// Whether the schema is strict from now on.
    Strict(bool),
    /// So many guarded inserts of the row, all at once.
    Race { times: usize, table: String, data: Row, guards: Vec<CapGuard> },
    /// The time now, as an RFC 3339 timestamp.
    Clock,
}

/// The call is the operation.
pub open spec fn operates(call: Call, kept: Kept, r: Request) -> bool {
    match call {
        Call::Get { table, id } => r matches Request::Get { collection, id: i } && collection@
            == table@ && i@ == id@,
        Call::List { table, listing } => r matches Request::List { collection, opts }
            && collection@ == table@ && listing_is(listing, opts),
        Call::Count { table, filters } => r matches Request::Count { collection, filters: f }
            && collection@ == table@ && text::views(f@) == condition_views(filters),
        Call::Sum { table, field, filters } => r matches Request::Sum {
            collection,
            field: n,
            filters: f,
        } && collection@ == table@ && n@ == field@ && text::views(f@) == condition_views(filters),
        Call::Create { table, data } => r matches Request::Create { collection, data: d }
            && collection@ == table@ && d@ == row_view(data),
        Call::CreateMany { table, rows } => r matches Request::CreateMany {
            collection,
            rows: v,
        } && collection@ == table@ && rows_are(rows, v@),
        Call::CreateNumbered { table, count } => r matches Request::CreateMany {
            collection,
            rows: v,
        } && collection@ == table@ && v@.len() == count && rows_are_numbered(v@),
        Call::InsertGuarded { table, data, caps } => r matches Request::InsertGuarded {
            collection,
            data: d,
            guards,
        } && collection@ == table@ && d@ == row_view(data) && text::views(guards@) == cap_views(
            caps,
        ),
        Call::UpdateGuarded { table, filters, data, caps } => r matches Request::UpdateGuarded {
            collection,
            filters: f,
            data: d,
            guards,
        } && collection@ == table@ && text::views(f@) == condition_views(filters) && d@ == row_view(
            data,
        ) && text::views(guards@) == cap_views(caps),
        Call::Update { table, id, data } => r matches Request::Update {
            collection,
            id: i,
            data: d,
        } && collection@ == table@ && i@ == id@ && d@ == row_view(data),
        Call::Delete { table, id } => r matches Request::Delete { collection, id: i }
            && collection@ == table@ && i@ == id@,
        Call::DeleteWhere { table, filters } => r matches Request::DeleteWhere {
            collection,
            filters: f,
        } && collection@ == table@ && text::views(f@) == condition_views(filters),
        Call::DeleteWhereCount { table, filters } => r matches Request::DeleteWhereCount {
            collection,
            filters: f,
        } && collection@ == table@ && text::views(f@) == condition_views(filters),
        Call::TakeWhere { table, filters } => r matches Request::TakeWhere {
            collection,
            filters: f,
        } && collection@ == table@ && text::views(f@) == condition_views(filters),
        Call::UpdateWhere { table, filters, data } => r matches Request::UpdateWhere {
            collection,
            filters: f,
            data: d,
        } && collection@ == table@ && text::views(f@) == condition_views(filters) && d@ == row_view(
            data,
        ),
        Call::UpdateWhereCount { table, filters, data } => r matches Request::UpdateWhereCount {
            collection,
            filters: f,
            data: d,
        } && collection@ == table@ && text::views(f@) == condition_views(filters) && d@ == row_view(
            data,
        ),
        Call::Increment { table, field, delta, filters } => r matches Request::IncrementFieldWhere {
            collection,
            col,
            delta: n,
            filters: f,
        } && collection@ == table@ && col@ == field@ && n == delta && text::views(f@)
            == condition_views(filters),
        Call::Upsert { table, row } => r matches Request::Upsert { collection, upsert }
            && collection@ == table@ && upsert_is(row, upsert),
        Call::Aggregate { table, summary } => r matches Request::Aggregate {
            collection,
            aggregate,
        } && collection@ == table@ && summary_is(summary, aggregate),
        Call::QueryRaw { query } => r matches Request::QueryRaw { query: q, args } && q@ == query@
            && args@.len() == 0,
        Call::ExecRaw { query } => r matches Request::ExecRaw { query: q, args } && q@ == query@
            && args@.len() == 0,
        Call::GetKept { table, kept: name } => r matches Request::Get { collection, id }
            && collection@ == table@ && kept.text(name@) == Some(id@),
        Call::UpdateKept { table, kept: name, data } => r matches Request::Update {
            collection,
            id,
            data: d,
        } && collection@ == table@ && kept.text(name@) == Some(id@) && d@ == row_view(data),
        Call::DeleteKept { table, kept: name } => r matches Request::Delete { collection, id }
            && collection@ == table@ && kept.text(name@) == Some(id@),
        Call::CountBefore { table, filters, stamp, kept: name } => r matches Request::Count {
            collection,
            filters: f,
        } && collection@ == table@ && kept.text(name@) is Some && text::views(f@)
            == condition_views(filters).push(
            FilterView {
                field: stamp@,
                operator: FilterOp::LessThan,
                value: JsonView::Str(kept.text(name@)->0),
            },
        ),
        _ => false,
    }
}

/// The call is what the service is asked.
pub open spec fn asks(call: Call, kept: Kept, act: Act) -> bool {
    match call {
        Call::Batch(writes) => act matches Act::Batch(ops) && writes_are(writes, ops@),
        Call::TableExists { table } => act matches Act::TableExists { table: t } && t@ == table@,
        Call::Columns { table } => act matches Act::Columns { table: t } && t@ == table@,
        Call::EnsureTable(shape) => act matches Act::EnsureTable(t) && table_is(shape, t),
        Call::EnsureTables(shapes) => act matches Act::EnsureTables(t) && tables_are(shapes, t@),
        Call::AddColumn { table, column } => act matches Act::AddColumn { table: t, column: c }
            && t@ == table@ && column_is(column, c),
        Call::DropTable { table } => act matches Act::DropTable { table: t } && t@ == table@,
        Call::Strict(strict) => act matches Act::Strict(b) && b == strict,
        Call::Race { times, table, data, caps } => act matches Act::Race {
            times: n,
            table: t,
            data: d,
            guards,
        } && n == times && t@ == table@ && d@ == row_view(data) && text::views(guards@)
            == cap_views(caps),
        Call::Clock => act is Clock,
        _ => act matches Act::Operation(r) && operates(call, kept, r),
    }
}

/// The call can be asked: what it takes from earlier answers was kept, and it
/// numbers no more rows than three digits can.
pub open spec fn can_ask(call: Call, kept: Kept) -> bool {
    match call {
        Call::GetKept { kept: name, .. } => kept.text(name@) is Some,
        Call::UpdateKept { kept: name, .. } => kept.text(name@) is Some,
        Call::DeleteKept { kept: name, .. } => kept.text(name@) is Some,
        Call::CountBefore { kept: name, .. } => kept.text(name@) is Some,
        Call::CreateNumbered { count, .. } => count <= 1000,
        _ => true,
    }
}

/// The call is one operation, rather than a batch, a race, a change or question
/// to the schema, a setting, or a look at the clock.
pub open spec fn is_operation(call: Call) -> bool {
    match call {
        Call::Batch(_) => false,
        Call::TableExists { .. } => false,
        Call::Columns { .. } => false,
        Call::EnsureTable(_) => false,
        Call::EnsureTables(_) => false,
        Call::AddColumn { .. } => false,
        Call::DropTable { .. } => false,
        Call::Strict(_) => false,
        Call::Race { .. } => false,
        Call::Clock => false,
        _ => true,
    }
}

/// The request of a call.
fn to_request(call: &Call, kept: &Kept) -> (r: Option<Request>)
    ensures
        match r {
            Some(request) => can_ask(*call, *kept) && operates(*call, *kept, request),
            None => !can_ask(*call, *kept) || !is_operation(*call),
        },
{
    match call {
        Call::Get { table, id } => Some(
            Request::Get { collection: (*table).to_owned(), id: (*id).to_owned() },
        ),
        Call::List { table, listing } => Some(
            Request::List { collection: (*table).to_owned(), opts: to_options(listing) },
        ),
        Call::Count { table, filters } => Some(
            Request::Count { collection: (*table).to_owned(), filters: to_filters(filters) },
        ),
        Call::Sum { table, field, filters } => Some(
            Request::Sum {
                collection: (*table).to_owned(),
                field: (*field).to_owned(),
                filters: to_filters(filters),
            },
        ),
        Call::Create { table, data } => Some(
            Request::Create { collection: (*table).to_owned(), data: to_row(data) },
        ),
        Call::CreateMany { table, rows } => Some(
            Request::CreateMany { collection: (*table).to_owned(), rows: to_rows(rows) },
        ),
        Call::CreateNumbered { table, count } => if *count <= 1000 {
            Some(
                Request::CreateMany {
                    collection: (*table).to_owned(),
                    rows: to_numbered_rows(*count),
                },
            )
        } else {
            None
        },
        Call::InsertGuarded { table, data, caps } => Some(
            Request::InsertGuarded {
                collection: (*table).to_owned(),
                data: to_row(data),
                guards: to_guards(caps),
            },
        ),
        Call::UpdateGuarded { table, filters, data, caps } => Some(
            Request::UpdateGuarded {
                collection: (*table).to_owned(),
                filters: to_filters(filters),
                data: to_row(data),
                guards: to_guards(caps),
            },
        ),
        Call::Update { table, id, data } => Some(
            Request::Update {
                collection: (*table).to_owned(),
                id: (*id).to_owned(),
                data: to_row(data),
            },
        ),
        Call::Delete { table, id } => Some(
            Request::Delete { collection: (*table).to_owned(), id: (*id).to_owned() },
        ),
        Call::DeleteWhere { table, filters } => Some(
            Request::DeleteWhere { collection: (*table).to_owned(), filters: to_filters(filters) },
        ),
        Call::DeleteWhereCount { table, filters } => Some(
            Request::DeleteWhereCount {
                collection: (*table).to_owned(),
                filters: to_filters(filters),
            },
        ),
        Call::TakeWhere { table, filters } => Some(
            Request::TakeWhere { collection: (*table).to_owned(), filters: to_filters(filters) },
        ),
        Call::UpdateWhere { table, filters, data } => Some(
            Request::UpdateWhere {
                collection: (*table).to_owned(),
                filters: to_filters(filters),
                data: to_row(data),
            },
        ),
        Call::UpdateWhereCount { table, filters, data } => Some(
            Request::UpdateWhereCount {
                collection: (*table).to_owned(),
                filters: to_filters(filters),
                data: to_row(data),
            },
        ),
        Call::Increment { table, field, delta, filters } => Some(
            Request::IncrementFieldWhere {
                collection: (*table).to_owned(),
                col: (*field).to_owned(),
                delta: *delta,
                filters: to_filters(filters),
            },
        ),
        Call::Upsert { table, row } => Some(
            Request::Upsert { collection: (*table).to_owned(), upsert: to_upsert(row) },
        ),
        Call::Aggregate { table, summary } => Some(
            Request::Aggregate { collection: (*table).to_owned(), aggregate: to_aggregate(summary) },
        ),
        Call::QueryRaw { query } => Some(
            Request::QueryRaw { query: (*query).to_owned(), args: Vec::new() },
        ),
        Call::ExecRaw { query } => Some(
            Request::ExecRaw { query: (*query).to_owned(), args: Vec::new() },
        ),
        Call::GetKept { table, kept: name } => match kept.get_text(name) {
            Some(id) => Some(
                Request::Get { collection: (*table).to_owned(), id: id.to_owned() },
            ),
            None => None,
        },
        Call::UpdateKept { table, kept: name, data } => match kept.get_text(name) {
            Some(id) => Some(
                Request::Update {
                    collection: (*table).to_owned(),
                    id: id.to_owned(),
                    data: to_row(data),
                },
            ),
            None => None,
        },
        Call::DeleteKept { table, kept: name } => match kept.get_text(name) {
            Some(id) => Some(
                Request::Delete { collection: (*table).to_owned(), id: id.to_owned() },
            ),
            None => None,
        },
        Call::CountBefore { table, filters, stamp, kept: name } => match kept.get_text(name) {
            Some(time) => {
                let mut all = to_filters(filters);
                let ghost before = all@;
                let last = Filter {
                    field: (*stamp).to_owned(),
                    operator: FilterOp::LessThan,
                    value: Json::Str(time.to_owned()),
                };
                all.push(last);
                proof {
                    assert(text::views(all@) =~= text::views(before).push(last@));
                }
                Some(Request::Count { collection: (*table).to_owned(), filters: all })
            },
            None => None,
        },
        _ => None,
    }
}

/// What the service is asked for a call: nothing where the call needs
/// something that was not kept.
pub fn ask(call: &Call, kept: &Kept) -> (r: Option<Act>)
    ensures
        match r {
            Some(act) => can_ask(*call, *kept) && asks(*call, *kept, act),
            None => !can_ask(*call, *kept),
        },
{
    match call {
        Call::Batch(writes) => Some(Act::Batch(to_writes(writes))),
        Call::TableExists { table } => Some(Act::TableExists { table: (*table).to_owned() }),
        Call::Columns { table } => Some(Act::Columns { table: (*table).to_owned() }),
        Call::EnsureTable(shape) => Some(Act::EnsureTable(to_table(shape))),
        Call::EnsureTables(shapes) => Some(Act::EnsureTables(to_tables(shapes))),
        Call::AddColumn { table, column } => Some(
            Act::AddColumn { table: (*table).to_owned(), column: to_column(column) },
        ),
        Call::DropTable { table } => Some(Act::DropTable { table: (*table).to_owned() }),
        Call::Strict(strict) => Some(Act::Strict(*strict)),
        Call::Race { times, table, data, caps } => Some(
            Act::Race {
                times: *times,
                table: (*table).to_owned(),
                data: to_row(data),
                guards: to_guards(caps),
            },
        ),
        Call::Clock => Some(Act::Clock),
        _ => match to_request(call, kept) {
            Some(request) => Some(Act::Operation(request)),
            None => None,
        },
    }
}

} // verus!
