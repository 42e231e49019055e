//! How the rows of a result are read, the same way for every backend.
//!
//! Whether a text is JSON to be parsed back or a string to be returned as
//! written is decided by the declared type of its column, never by what the
//! text looks like.

use vstd::prelude::*;

use crate::database::service::Record;
use crate::json;
use crate::json::{Json, JsonView};
use crate::row::Row;
use crate::text;

verus! {

/// The columns of a result row that hold JSON text, by name. Names compare
/// without regard to ASCII case, as SQL identifiers do.
#[derive(Debug, PartialEq, Eq)]
pub struct JsonColumns(Vec<String>);

impl View for JsonColumns {
    type V = Seq<Seq<char>>;

    closed spec fn view(&self) -> Seq<Seq<char>> {
        text::views(self.0@)
    }
}

/// `column` is one of `names`, but for ASCII case.
pub open spec fn names_column(names: Seq<Seq<char>>, column: Seq<char>) -> bool {
    exists|i: int| 0 <= i < names.len() && text::lower(#[trigger] names[i]) == text::lower(column)
}

impl JsonColumns {
    /// No JSON columns: every text reads as a string.
    pub fn none() -> (r: Self)
        ensures
            r@ == Seq::<Seq<char>>::empty(),
    {
        let r = JsonColumns(Vec::new());
        proof {
            assert(r@ =~= Seq::empty());
        }
        r
    }

    /// The JSON columns named in `names`.
    pub fn new(names: Vec<String>) -> (r: Self)
        ensures
            r@ == text::views(names@),
    {
        JsonColumns(names)
    }

    /// Whether `column` holds JSON text.
    pub fn contains(&self, column: &str) -> (r: bool)
        ensures
            r == names_column(self@, column@),
    {
        for i in 0..self.0.len()
            invariant
                forall|k: int|
                    0 <= k < i ==> text::lower(#[trigger] self@[k]) != text::lower(column@),
        {
            assert(self@[i as int] == self.0@[i as int]@);
            if text::eq_ignore_ascii_case(self.0[i].as_str(), column) {
                return true;
            }
        }
        false
    }

    /// Whether no column holds JSON text.
    pub fn is_empty(&self) -> (r: bool)
        ensures
            r == (self@.len() == 0),
    {
        self.0.len() == 0
    }
}

impl Clone for JsonColumns {
    fn clone(&self) -> (r: Self)
        ensures
            r@ == self@,
    {
        let names = self.0.clone();
        proof {
            assert(text::views(names@) =~= text::views(self.0@));
        }
        JsonColumns(names)
    }
}

/// What the text of a column reads as, `parsed` being what the text is as
/// JSON: that value in a JSON column, where there is one; the text itself
/// otherwise.
pub open spec fn decoded(
    column: Seq<char>,
    content: Seq<char>,
    json: Seq<Seq<char>>,
    parsed: Option<JsonView>,
) -> JsonView {
    if names_column(json, column) && parsed is Some {
        parsed->0
    } else {
        JsonView::Str(content)
    }
}

/// Reads the text of a column, given what that text is as JSON.
pub fn decode_parsed(
    column: &str,
    content: &str,
    json: &JsonColumns,
    parsed: Option<Json>,
) -> (r: Json)
    ensures
        r@ == decoded(column@, content@, json@, text::opt_view(parsed)),
{
    if json.contains(column) {
        if let Some(value) = parsed {
            return value;
        }
    }
    Json::Str(content.to_owned())
}

/// Reads the text of column `column`. In a JSON column the text is parsed, and
/// stays a string where it does not parse; in any other column it is a string,
/// whatever it looks like.
pub fn decode_text(column: &str, content: &str, json: &JsonColumns) -> (r: Json)
    ensures
        r@ == decoded(column@, content@, json@, json::json_parsed(content@)),
{
    let parsed = if json.contains(column) {
        json::parse(content)
    } else {
        None
    };
    decode_parsed(column, content, json, parsed)
}

/// A column that is not declared to hold JSON gives its text back verbatim,
/// whatever JSON the text may be.
pub proof fn plain_columns_read_verbatim(
    column: Seq<char>,
    content: Seq<char>,
    json: Seq<Seq<char>>,
    parsed: Option<JsonView>,
)
    requires
        !names_column(json, column),
    ensures
        decoded(column, content, json, parsed) == JsonView::Str(content),
{
}

/// A JSON column whose text is not JSON gives that text back, not nothing.
pub proof fn unparsed_text_is_kept(column: Seq<char>, content: Seq<char>, json: Seq<Seq<char>>)
    ensures
        decoded(column, content, json, None) == JsonView::Str(content),
{
}

/// What a column's value reads as: a text as [`decode_text`] reads it,
/// anything else as it is.
pub open spec fn decoded_value(
    column: Seq<char>,
    value: JsonView,
    json: Seq<Seq<char>>,
) -> JsonView {
    match value {
        JsonView::Str(s) => decoded(column, s, json, json::json_parsed(s)),
        other => other,
    }
}

/// Whether a value of the `id` column is a key: a text is one, and an integer.
pub open spec fn is_key(value: JsonView) -> bool {
    match value {
        JsonView::Str(_) => true,
        JsonView::Int(_) => true,
        JsonView::Real(n) => n.unsigned is Some,
        _ => false,
    }
}

/// The key of a record, from its `id` column: a text as it is, an integer as
/// its digits, nothing else.
pub open spec fn id_text(value: JsonView) -> Seq<char> {
    match value {
        JsonView::Str(s) => s,
        JsonView::Int(i) => text::decimal(i as int),
        JsonView::Real(n) => if n.unsigned is Some {
            n.text
        } else {
            Seq::empty()
        },
        _ => Seq::empty(),
    }
}

/// Whether the value of an `id` column is a key.
pub fn holds_key(value: &Json) -> (r: bool)
    ensures
        r == is_key(value@),
{
    match value {
        Json::Str(_) => true,
        Json::Int(_) => true,
        Json::Real(n) => n.unsigned.is_some(),
        _ => false,
    }
}

/// The key of a record, from the value of its `id` column.
pub fn record_id(value: &Json) -> (r: String)
    ensures
        r@ == id_text(value@),
{
    match value {
        Json::Str(s) => s.clone(),
        Json::Int(i) => text::i64_text(*i),
        Json::Real(n) => if n.unsigned.is_some() {
            n.text.clone()
        } else {
            String::new()
        },
        _ => String::new(),
    }
}

/// The columns of a row, each read as its declared type says.
pub open spec fn decoded_row(
    entries: Seq<(Seq<char>, JsonView)>,
    json: Seq<Seq<char>>,
) -> Map<Seq<char>, JsonView>
    decreases entries.len(),
{
    if entries.len() == 0 {
        Map::empty()
    } else {
        decoded_row(entries.drop_last(), json).insert(
            entries.last().0,
            decoded_value(entries.last().0, entries.last().1, json),
        )
    }
}

/// The key of a row: that of its `id` column, nothing where it has none.
pub open spec fn row_id(columns: Map<Seq<char>, JsonView>) -> Seq<char> {
    if columns.dom().contains("id"@) {
        id_text(columns["id"@])
    } else {
        Seq::empty()
    }
}

/// Reads a result row that is shaped as a JSON object, column by column. The
/// `id` column gives the record its key and stays among the columns. A row
/// that is no object reads as a record without key and columns.
pub fn record_from_json_row(row: Json, json: &JsonColumns) -> (r: Record)
    ensures
        match row@ {
            JsonView::Object(entries) => r.data@ == decoded_row(entries, json@) && r.id@ == row_id(
                r.data@,
            ),
            _ => r.data@ == Map::<Seq<char>, JsonView>::empty() && r.id@ == Seq::<char>::empty(),
        },
{
    let ghost given = row;
    proof {
        json::lemma_view_of_children(given);
    }
    let entries: Vec<(String, Json)> = match row {
        Json::Object(entries) => entries,
        _ => {
            return Record { id: String::new(), data: Row::new() };
        },
    };
    let ghost views = json::entry_views(entries@);
    let ghost items = entries@;
    let mut data = Row::new();
    let mut id = String::new();
    proof {
        assert(views.take(0) =~= Seq::empty());
    }
    for e in it: entries
        invariant
            it.seq() == items,
            views == json::entry_views(items),
            data@ == decoded_row(views.take(it.index()), json@),
            id@ == row_id(data@),
    {
        let ghost next = views.take(it.index() + 1);
        proof {
            assert(next.drop_last() =~= views.take(it.index()));
            assert(next.last() == (e.0@, e.1@));
        }
        let (name, value) = e;
        let value = match value {
            Json::Str(s) => decode_text(name.as_str(), s.as_str(), json),
            other => other,
        };
        if text::same(name.as_str(), "id") {
            id = record_id(&value);
        }
        data.insert(name, value);
    }
    proof {
        assert(views.take(views.len() as int) =~= views);
    }
    Record { id, data }
}

/// The single value of a one-column row: the first entry of an object, which
/// has none where it is empty, and a bare value itself.
pub open spec fn sole_value(row: JsonView) -> Option<JsonView> {
    match row {
        JsonView::Object(entries) => if entries.len() == 0 {
            None
        } else {
            Some(entries[0].1)
        },
        other => Some(other),
    }
}

/// The single value of a one-column row, whatever the column is called.
pub fn first_scalar(row: Json) -> (r: Option<Json>)
    ensures
        text::opt_view(r) == sole_value(row@),
{
    proof {
        json::lemma_view_of_children(row);
    }
    match row {
        Json::Object(entries) => {
            let mut entries = entries;
            if entries.len() == 0 {
                None
            } else {
                let e = entries.remove(0);
                Some(e.1)
            }
        },
        other => Some(other),
    }
}

/// The count that a one-column row gives: its integer, its number rounded
/// toward zero, and zero for anything else and for no row.
pub open spec fn count_of(row: Option<JsonView>) -> i64 {
    match row {
        None => 0,
        Some(r) => match sole_value(r) {
            Some(JsonView::Int(i)) => i,
            Some(JsonView::Real(n)) => n.truncated,
            _ => 0,
        },
    }
}

/// The single value of a counting row, as an integer.
pub fn scalar_i64(row: Option<Json>) -> (r: i64)
    ensures
        r == count_of(text::opt_view(row)),
{
    match row {
        None => 0,
        Some(row) => match first_scalar(row) {
            Some(Json::Int(i)) => i,
            Some(Json::Real(n)) => n.truncated,
            _ => 0,
        },
    }
}

/// A JSON column gives back the value whose text it holds, in whatever case the
/// column is named.
pub proof fn json_columns_give_the_value_back(
    column: Seq<char>,
    named: Seq<char>,
    content: Seq<char>,
    json: Seq<Seq<char>>,
    value: JsonView,
)
    requires
        json.contains(named),
        text::lower(named) == text::lower(column),
    ensures
        decoded(column, content, json, Some(value)) == value,
{
    let i = json.index_of(named);
    assert(text::lower(json[i]) == text::lower(column));
}

/// A record has exactly the columns of the row it was read from; each value that
/// is no text stands as it is, a text of a plain column too, and a text of a
/// JSON column is the value it writes, where it writes one.
pub proof fn a_record_has_the_columns_of_its_row(
    entries: Seq<(Seq<char>, JsonView)>,
    json: Seq<Seq<char>>,
    i: int,
    k: Seq<char>,
)
    requires
        0 <= i < entries.len(),
        crate::row::distinct_names(entries),
    ensures
        decoded_row(entries, json).dom().contains(k) <==> exists|j: int|
            0 <= j < entries.len() && (#[trigger] entries[j]).0 == k,
        decoded_row(entries, json).dom().contains(entries[i].0),
        !(entries[i].1 is Str) ==> decoded_row(entries, json)[entries[i].0] == entries[i].1,
        entries[i].1 is Str && !names_column(json, entries[i].0) ==> decoded_row(entries, json)[
            entries[i].0] == entries[i].1,
        entries[i].1 is Str && names_column(json, entries[i].0) ==> decoded_row(entries, json)[
            entries[i].0] == match json::json_parsed(entries[i].1->Str_0) {
            Some(v) => v,
            None => entries[i].1,
        },
    decreases entries.len(),
{
    let init = entries.drop_last();
    let n = entries.len() - 1;
    assert(crate::row::distinct_names(init)) by {
        assert forall|a: int, b: int| 0 <= a < b < init.len() implies (#[trigger] init[a]).0 != (
        #[trigger] init[b]).0 by {
            assert(entries[a].0 != entries[b].0);
        }
    }
    assert(entries[n] == entries.last());
    if init.len() == 0 {
        assert(decoded_row(init, json) == Map::<Seq<char>, JsonView>::empty());
    } else {
        a_record_has_the_columns_of_its_row(
            init,
            json,
            if i < n {
                i
            } else {
                0
            },
            k,
        );
        if i < n {
            assert(init[i] == entries[i]);
            assert(entries[i].0 != entries[n].0);
        }
        if exists|j: int| 0 <= j < init.len() && (#[trigger] init[j]).0 == k {
            let j = choose|j: int| 0 <= j < init.len() && (#[trigger] init[j]).0 == k;
            assert(entries[j].0 == k);
        }
        if exists|j: int| 0 <= j < entries.len() && (#[trigger] entries[j]).0 == k {
            let j = choose|j: int| 0 <= j < entries.len() && (#[trigger] entries[j]).0 == k;
            if j < n {
                assert(init[j].0 == k);
            }
        }
    }
}

/// A record's key is the text of its `id`, or the digits of an integer there,
/// which read back as that integer; where there is none, it has none.
pub proof fn a_key_is_read_from_the_id(columns: Map<Seq<char>, JsonView>, n: i64)
    ensures
        !columns.dom().contains("id"@) ==> row_id(columns).len() == 0,
        columns.dom().contains("id"@) && columns["id"@] is Str ==> row_id(columns)
            == columns["id"@]->Str_0,
        columns.dom().contains("id"@) && columns["id"@] == JsonView::Int(n) && n >= 0
            ==> text::digits_value(row_id(columns)) == n,
        columns.dom().contains("id"@) && (columns["id"@] is Null || columns["id"@] is Bool
            || columns["id"@] is Array || columns["id"@] is Object) ==> row_id(columns).len() == 0
            && !is_key(columns["id"@]),
{
    if n >= 0 {
        text::decimal_reads_back(n as nat);
    }
}

/// A count is the integer of the one column of its row, whatever that is called,
/// or the bare integer; without a row it is zero.
pub proof fn counts_are_read_whatever_their_column(name: Seq<char>, n: i64)
    ensures
        count_of(Some(JsonView::Object(seq![(name, JsonView::Int(n))]))) == n,
        count_of(Some(JsonView::Int(n))) == n,
        count_of(None) == 0,
        count_of(Some(JsonView::Object(seq![(name, JsonView::Null)]))) == 0,
{
}

} // verus!
