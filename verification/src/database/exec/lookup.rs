//! Facts about the schema, remembered or to be asked for.
//!
//! A backend may keep a [`SchemaCache`] or not. Without one every fact is
//! asked for, and nothing is remembered.

use vstd::prelude::*;

use crate::database::schema_cache::{CacheView, ColumnsView, SchemaCache, TableColumns};
use crate::database::service::Record;
use crate::json::{Json, JsonView};
use crate::text;

verus! {

/// The generation in which a fact is asked for.
pub open spec fn generation_of(c: Option<CacheView>) -> Option<u64> {
    match c {
        Some(v) => Some(v.generation),
        None => None,
    }
}

/// Whether a table is known to exist.
pub open spec fn known_present(c: Option<CacheView>, table: Seq<char>) -> bool {
    c is Some && c->0.of(table).present
}

/// The columns of a table, where they are known.
pub open spec fn known_columns(c: Option<CacheView>, table: Seq<char>) -> Option<ColumnsView> {
    match c {
        Some(v) => v.of(table).columns,
        None => None,
    }
}

/// The primary key of a table, where it is known.
pub open spec fn known_key(c: Option<CacheView>, table: Seq<char>) -> Option<Seq<Seq<char>>> {
    match c {
        Some(v) => v.of(table).primary_key,
        None => None,
    }
}

/// Whether a table fills `id` itself, where that is known.
pub open spec fn known_generates(c: Option<CacheView>, table: Seq<char>) -> Option<bool> {
    match c {
        Some(v) => v.of(table).generates_id,
        None => None,
    }
}

/// The cache after a table changed.
pub open spec fn changed(c: Option<CacheView>, table: Seq<char>) -> Option<CacheView> {
    match c {
        Some(v) => Some(v.after_change(table)),
        None => None,
    }
}

/// The cache after any table may have changed.
pub open spec fn all_changed(c: Option<CacheView>) -> Option<CacheView> {
    match c {
        Some(v) => Some(v.after_any_change()),
        None => None,
    }
}

/// The cache after a table is known to exist.
pub open spec fn noted_present(
    c: Option<CacheView>,
    table: Seq<char>,
    asked: Option<u64>,
) -> Option<CacheView> {
    match (c, asked) {
        (Some(v), Some(g)) => Some(v.after_present(table, g)),
        _ => c,
    }
}

/// The cache after the columns of a table came back.
pub open spec fn noted_columns(
    c: Option<CacheView>,
    table: Seq<char>,
    columns: ColumnsView,
    asked: Option<u64>,
) -> Option<CacheView> {
    match (c, asked) {
        (Some(v), Some(g)) => Some(v.after_columns(table, columns, g)),
        _ => c,
    }
}

/// The cache after the primary key of a table came back.
pub open spec fn noted_key(
    c: Option<CacheView>,
    table: Seq<char>,
    key: Seq<Seq<char>>,
    asked: Option<u64>,
) -> Option<CacheView> {
    match (c, asked) {
        (Some(v), Some(g)) => Some(v.after_primary_key(table, key, g)),
        _ => c,
    }
}

/// The cache after it came back whether a table fills `id` itself.
pub open spec fn noted_generates(
    c: Option<CacheView>,
    table: Seq<char>,
    generates: bool,
    asked: Option<u64>,
) -> Option<CacheView> {
    match (c, asked) {
        (Some(v), Some(g)) => Some(v.after_generates_id(table, generates, g)),
        _ => c,
    }
}

/// The generation in which a fact is asked for.
pub fn generation(cache: &Option<SchemaCache>) -> (r: Option<u64>)
    ensures
        r == generation_of(text::opt_view(*cache)),
{
    match cache {
        Some(c) => Some(c.generation()),
        None => None,
    }
}

/// Whether `table` is known to exist.
pub fn is_known_present(cache: &Option<SchemaCache>, table: &str) -> (r: bool)
    ensures
        r == known_present(text::opt_view(*cache), table@),
{
    match cache {
        Some(c) => c.table_known_present(table),
        None => false,
    }
}

/// The columns of `table`, where they are known.
pub fn columns(cache: &Option<SchemaCache>, table: &str) -> (r: Option<TableColumns>)
    ensures
        text::opt_view(r) == known_columns(text::opt_view(*cache), table@),
{
    match cache {
        Some(c) => c.columns(table),
        None => None,
    }
}

/// The primary key of `table`, where it is known.
pub fn primary_key(cache: &Option<SchemaCache>, table: &str) -> (r: Option<Vec<String>>)
    ensures
        crate::database::schema_cache::opt_names(r) == known_key(text::opt_view(*cache), table@),
{
    match cache {
        Some(c) => c.primary_key(table),
        None => None,
    }
}

/// Whether `table` fills `id` itself, where that is known.
pub fn generates_id(cache: &Option<SchemaCache>, table: &str) -> (r: Option<bool>)
    ensures
        r == known_generates(text::opt_view(*cache), table@),
{
    match cache {
        Some(c) => c.generates_id(table),
        None => None,
    }
}

/// Forgets what is known of `table`.
pub fn invalidate(cache: &mut Option<SchemaCache>, table: &str)
    ensures
        text::opt_view(*final(cache)) == changed(text::opt_view(*old(cache)), table@),
{
    match cache {
        Some(c) => c.invalidate(table),
        None => {},
    }
}

/// Forgets what is known of every table.
pub fn clear(cache: &mut Option<SchemaCache>)
    ensures
        text::opt_view(*final(cache)) == all_changed(text::opt_view(*old(cache))),
{
    match cache {
        Some(c) => c.clear(),
        None => {},
    }
}

/// Notes that `table` exists.
pub fn note_present(cache: &mut Option<SchemaCache>, table: &str, asked: Option<u64>)
    ensures
        text::opt_view(*final(cache)) == noted_present(text::opt_view(*old(cache)), table@, asked),
{
    if let Some(g) = asked {
        match cache {
            Some(c) => c.mark_table_present_if_gen(table, g),
            None => {},
        }
    }
}

/// Notes the columns of `table`.
pub fn note_columns(
    cache: &mut Option<SchemaCache>,
    table: &str,
    columns: TableColumns,
    asked: Option<u64>,
)
    ensures
        text::opt_view(*final(cache)) == noted_columns(
            text::opt_view(*old(cache)),
            table@,
            columns@,
            asked,
        ),
{
    if let Some(g) = asked {
        match cache {
            Some(c) => c.set_columns_if_gen(table, columns, g),
            None => {},
        }
    }
}

/// Notes the primary key of `table`.
pub fn note_key(
    cache: &mut Option<SchemaCache>,
    table: &str,
    key: Vec<String>,
    asked: Option<u64>,
)
    ensures
        text::opt_view(*final(cache)) == noted_key(
            text::opt_view(*old(cache)),
            table@,
            text::views(key@),
            asked,
        ),
{
    if let Some(g) = asked {
        match cache {
            Some(c) => c.set_primary_key_if_gen(table, key, g),
            None => {},
        }
    }
}

/// Notes whether `table` fills `id` itself.
pub fn note_generates(
    cache: &mut Option<SchemaCache>,
    table: &str,
    generates: bool,
    asked: Option<u64>,
)
    ensures
        text::opt_view(*final(cache)) == noted_generates(
            text::opt_view(*old(cache)),
            table@,
            generates,
            asked,
        ),
{
    if let Some(g) = asked {
        match cache {
            Some(c) => c.set_generates_id_if_gen(table, generates, g),
            None => {},
        }
    }
}

// ---------------------------------------------------------------------------
// What a listing says
// ---------------------------------------------------------------------------

/// The text in the `name` column of a row, if there is one.
pub open spec fn row_name(r: Record) -> Option<Seq<char>> {
    if r.data@.dom().contains("name"@) {
        match r.data@["name"@] {
            JsonView::Str(s) => Some(s),
            _ => None,
        }
    } else {
        None
    }
}

/// The texts in the `name` columns of rows, in order; a row without is left
/// out.
pub open spec fn row_names(rows: Seq<Record>) -> Seq<Seq<char>>
    decreases rows.len(),
{
    if rows.len() == 0 {
        Seq::empty()
    } else {
        match row_name(rows.last()) {
            Some(n) => row_names(rows.drop_last()).push(n),
            None => row_names(rows.drop_last()),
        }
    }
}

/// Names in lower case.
pub open spec fn lowered(names: Seq<Seq<char>>) -> Seq<Seq<char>> {
    names.map_values(|n: Seq<char>| text::unicode_lowercase(n))
}

/// The names that rows list, in order.
pub fn listed_names(rows: &Vec<Record>) -> (r: Vec<String>)
    ensures
        text::views(r@) == row_names(rows@),
{
    let mut out: Vec<String> = Vec::new();
    proof {
        assert(rows@.take(0) =~= Seq::empty());
        assert(text::views(out@) =~= Seq::empty());
    }
    for i in 0..rows.len()
        invariant
            text::views(out@) == row_names(rows@.take(i as int)),
    {
        let ghost before = text::views(out@);
        proof {
            assert(rows@.take(i + 1).drop_last() =~= rows@.take(i as int));
        }
        if let Some(Json::Str(s)) = rows[i].data.get("name") {
            out.push(s.clone());
            proof {
                assert(text::views(out@) =~= before.push(s@));
            }
        }
    }
    proof {
        assert(rows@.take(rows@.len() as int) =~= rows@);
    }
    out
}

/// The names that rows list, in order and in lower case.
pub fn lowercase_names(rows: &Vec<Record>) -> (r: Vec<String>)
    ensures
        text::views(r@) == lowered(row_names(rows@)),
{
    let names = listed_names(rows);
    let mut out: Vec<String> = Vec::new();
    for i in 0..names.len()
        invariant
            out@.len() == i,
            forall|k: int|
                0 <= k < i ==> #[trigger] out@[k]@ == text::unicode_lowercase(names@[k]@),
    {
        out.push(text::to_lowercase(names[i].as_str()));
    }
    proof {
        assert(text::views(out@) =~= lowered(text::views(names@)));
    }
    out
}

/// Among the lower-case names `existing` stands `column`.
pub open spec fn has_column(existing: Seq<Seq<char>>, column: Seq<char>) -> bool {
    existing.contains(text::unicode_lowercase(column))
}

/// Whether `column` stands among the lower-case names `existing`.
pub fn lists_column(existing: &Vec<String>, column: &str) -> (r: bool)
    ensures
        r == has_column(text::views(existing@), column@),
{
    let wanted = text::to_lowercase(column);
    for i in 0..existing.len()
        invariant
            wanted@ == text::unicode_lowercase(column@),
            forall|k: int| 0 <= k < i ==> #[trigger] text::views(existing@)[k] != wanted@,
    {
        assert(text::views(existing@)[i as int] == existing@[i as int]@);
        if existing[i] == wanted {
            return true;
        }
    }
    false
}

/// The first of `columns` that does not stand among `existing`.
pub open spec fn first_missing(
    columns: Seq<Seq<char>>,
    existing: Seq<Seq<char>>,
) -> Option<Seq<char>>
    decreases columns.len(),
{
    if columns.len() == 0 {
        None
    } else {
        match first_missing(columns.drop_last(), existing) {
            Some(c) => Some(c),
            None => if has_column(existing, columns.last()) {
                None
            } else {
                Some(columns.last())
            },
        }
    }
}

proof fn lemma_first_missing_stops(columns: Seq<Seq<char>>, existing: Seq<Seq<char>>, n: int)
    requires
        0 <= n <= columns.len(),
        first_missing(columns.take(n), existing) is Some,
    ensures
        first_missing(columns, existing) == first_missing(columns.take(n), existing),
    decreases columns.len() - n,
{
    if n == columns.len() {
        assert(columns.take(n) =~= columns);
    } else {
        assert(columns.take(n + 1).drop_last() =~= columns.take(n));
        lemma_first_missing_stops(columns, existing, n + 1);
    }
}

/// The first of `columns` that does not stand among `existing`.
pub fn find_missing<'a>(columns: &'a Vec<String>, existing: &Vec<String>) -> (r: Option<&'a str>)
    ensures
        text::opt_view(r) == first_missing(text::views(columns@), text::views(existing@)),
{
    let ghost all = text::views(columns@);
    proof {
        assert(all.take(0) =~= Seq::empty());
    }
    for i in 0..columns.len()
        invariant
            all == text::views(columns@),
            first_missing(all.take(i as int), text::views(existing@)) is None,
    {
        proof {
            assert(all.take(i + 1).drop_last() =~= all.take(i as int));
            if first_missing(all.take(i + 1), text::views(existing@)) is Some {
                lemma_first_missing_stops(all, text::views(existing@), i + 1);
            }
        }
        if !lists_column(existing, columns[i].as_str()) {
            return Some(columns[i].as_str());
        }
    }
    proof {
        assert(all.take(all.len() as int) =~= all);
    }
    None
}

/// What is noted of a table, as asked in the present generation, is what is known
/// of it afterwards; without a cache nothing is ever known.
pub proof fn what_is_noted_is_known(
    c: CacheView,
    table: Seq<char>,
    columns: ColumnsView,
    key: Seq<Seq<char>>,
    generates: bool,
)
    ensures
        known_present(noted_present(Some(c), table, generation_of(Some(c))), table),
        columns.names.len() > 0 ==> known_columns(
            noted_columns(Some(c), table, columns, generation_of(Some(c))),
            table,
        ) == Some(columns),
        key.len() > 0 ==> known_key(
            noted_key(Some(c), table, key, generation_of(Some(c))),
            table,
        ) == Some(key),
        generates ==> known_generates(
            noted_generates(Some(c), table, generates, generation_of(Some(c))),
            table,
        ) == Some(true),
        !known_present(changed(Some(c), table), table),
        known_columns(changed(Some(c), table), table) is None,
        known_key(changed(Some(c), table), table) is None,
        known_generates(changed(Some(c), table), table) is None,
        known_columns(all_changed(Some(c)), table) is None,
        !known_present(None, table),
        known_columns(None, table) is None,
        known_key(None, table) is None,
        known_generates(None, table) is None,
        noted_columns(None, table, columns, None) is None,
{
}

/// An answer that was asked for before the table changed is not noted.
pub proof fn what_is_stale_is_not_noted(
    c: CacheView,
    table: Seq<char>,
    other: Seq<char>,
    columns: ColumnsView,
    key: Seq<Seq<char>>,
    generates: bool,
)
    ensures
        noted_columns(changed(Some(c), other), table, columns, generation_of(Some(c))) == changed(
            Some(c),
            other,
        ),
        noted_key(changed(Some(c), other), table, key, generation_of(Some(c))) == changed(
            Some(c),
            other,
        ),
        noted_present(changed(Some(c), other), table, generation_of(Some(c))) == changed(
            Some(c),
            other,
        ),
        noted_generates(changed(Some(c), other), table, generates, generation_of(Some(c)))
            == changed(Some(c), other),
{
}

} // verus!
