//! From a declared table to the service's form of it. A kind of column or of
//! default that is not known is refused: nothing is guessed.

use vstd::prelude::*;

use crate::database::schema::{Column, DataType, DefaultVal, DefaultValue, Index, Table};
use crate::database::wire::{ColumnDef, DefaultDef, IndexDef, TableDef};
use crate::error::{invalid, ErrorCode, WaferError};
use crate::json;
use crate::json::{Json, JsonView};
use crate::text;

verus! {

/// The type a kind of column stands for.
pub open spec fn type_of_kind(kind: Seq<char>) -> Option<DataType> {
    if kind == "string"@ {
        Some(DataType::String)
    } else if kind == "text"@ {
        Some(DataType::Text)
    } else if kind == "int"@ {
        Some(DataType::Int)
    } else if kind == "int64"@ {
        Some(DataType::Int64)
    } else if kind == "float"@ {
        Some(DataType::Float)
    } else if kind == "bool"@ {
        Some(DataType::Bool)
    } else if kind == "datetime"@ {
        Some(DataType::DateTime)
    } else if kind == "json"@ {
        Some(DataType::Json)
    } else if kind == "blob"@ {
        Some(DataType::Blob)
    } else {
        None
    }
}

/// What is said of a kind of column that is not known.
pub open spec fn kind_refusal(kind: Seq<char>) -> Seq<char> {
    "unknown column kind `"@ + kind + "`"@
}

/// The type that `kind` stands for.
pub fn data_type_from_kind(kind: &str) -> (r: Result<DataType, WaferError>)
    ensures
        match r {
            Ok(t) => type_of_kind(kind@) == Some(t),
            Err(e) => type_of_kind(kind@) is None && e.says(
                ErrorCode::InvalidArgument,
                kind_refusal(kind@),
            ),
        },
{
    if text::same(kind, "string") {
        Ok(DataType::String)
    } else if text::same(kind, "text") {
        Ok(DataType::Text)
    } else if text::same(kind, "int") {
        Ok(DataType::Int)
    } else if text::same(kind, "int64") {
        Ok(DataType::Int64)
    } else if text::same(kind, "float") {
        Ok(DataType::Float)
    } else if text::same(kind, "bool") {
        Ok(DataType::Bool)
    } else if text::same(kind, "datetime") {
        Ok(DataType::DateTime)
    } else if text::same(kind, "json") {
        Ok(DataType::Json)
    } else if text::same(kind, "blob") {
        Ok(DataType::Blob)
    } else {
        Err(invalid(text::join3("unknown column kind `", kind, "`")))
    }
}

/// A value as the value of a default, and as its text.
pub open spec fn default_value_of(j: JsonView, value: DefaultVal, raw: Seq<char>) -> bool {
    match j {
        JsonView::Str(s) => (value matches DefaultVal::Str(t) && t@ == s) && raw == s,
        JsonView::Bool(b) => value == DefaultVal::Bool(b) && raw == if b {
            "true"@
        } else {
            "false"@
        },
        JsonView::Int(i) => value == DefaultVal::Int(i) && raw == text::decimal(i as int),
        JsonView::Real(n) => (value matches DefaultVal::Float(t) && t@ == n.display) && raw
            == n.display,
        _ => false,
    }
}

/// Only texts, truth values and numbers are the values of defaults.
pub open spec fn is_scalar(j: JsonView) -> bool {
    j is Str || j is Bool || j is Int || j is Real
}

/// Why a default is refused.
pub open spec fn default_refusal(def: DefaultDef) -> Option<Seq<char>> {
    if def.kind@ == "null"@ || def.kind@ == "now"@ {
        None
    } else if def.kind@ == "value"@ {
        if is_scalar(def.value@) {
            None
        } else {
            Some("unsupported default value "@ + json::compact(def.value@))
        }
    } else {
        Some("unknown default kind `"@ + def.kind@ + "`"@)
    }
}

/// `d` is the default that `def` declares.
pub open spec fn default_of(def: DefaultDef, d: DefaultValue) -> bool {
    if def.kind@ == "null"@ {
        d == DefaultValue::Null
    } else if def.kind@ == "now"@ {
        d == DefaultValue::Now
    } else {
        d matches DefaultValue::Value { raw, value } && default_value_of(def.value@, value, raw@)
    }
}

fn default_from_def(def: &DefaultDef) -> (r: Result<DefaultValue, WaferError>)
    ensures
        match r {
            Ok(d) => default_refusal(*def) is None && default_of(*def, d),
            Err(e) => default_refusal(*def) is Some && e.says(
                ErrorCode::InvalidArgument,
                default_refusal(*def)->0,
            ),
        },
{
    let kind = def.kind.as_str();
    if text::same(kind, "null") {
        return Ok(DefaultValue::Null);
    }
    if text::same(kind, "now") {
        return Ok(DefaultValue::Now);
    }
    if !text::same(kind, "value") {
        return Err(invalid(text::join3("unknown default kind `", kind, "`")));
    }
    proof {
        reveal_with_fuel(json::json_view, 2);
    }
    match &def.value {
        Json::Str(s) => Ok(
            DefaultValue::Value { raw: s.clone(), value: DefaultVal::Str(s.clone()) },
        ),
        Json::Bool(b) => Ok(
            DefaultValue::Value {
                raw: if *b {
                    "true".to_owned()
                } else {
                    "false".to_owned()
                },
                value: DefaultVal::Bool(*b),
            },
        ),
        Json::Int(i) => Ok(
            DefaultValue::Value { raw: text::i64_text(*i), value: DefaultVal::Int(*i) },
        ),
        Json::Real(n) => Ok(
            DefaultValue::Value {
                raw: n.display.clone(),
                value: DefaultVal::Float(n.display.clone()),
            },
        ),
        other => Err(
            invalid(text::join2("unsupported default value ", other.to_text().as_str())),
        ),
    }
}

/// Why a column is refused: its kind, then its default.
pub open spec fn column_refusal(def: ColumnDef) -> Option<Seq<char>> {
    if type_of_kind(def.kind@) is None {
        Some(kind_refusal(def.kind@))
    } else {
        match def.default {
            None => None,
            Some(d) => default_refusal(d),
        }
    }
}

/// `c` is the column that `def` declares.
pub open spec fn column_of(def: ColumnDef, c: Column) -> bool {
    &&& c.name@ == def.name@
    &&& type_of_kind(def.kind@) == Some(c.data_type)
    &&& c.nullable == def.nullable
    &&& c.primary_key == def.primary_key
    &&& c.auto_increment == def.auto_increment
    &&& c.unique == def.unique
    &&& match def.default {
        None => c.default is None,
        Some(d) => c.default is Some && default_of(d, c.default->0),
    }
}

/// Converts a declared column.
pub fn column_from_def(def: &ColumnDef) -> (r: Result<Column, WaferError>)
    ensures
        match r {
            Ok(c) => column_refusal(*def) is None && column_of(*def, c),
            Err(e) => column_refusal(*def) is Some && e.says(
                ErrorCode::InvalidArgument,
                column_refusal(*def)->0,
            ),
        },
{
    let data_type = match data_type_from_kind(def.kind.as_str()) {
        Ok(t) => t,
        Err(e) => {
            return Err(e);
        },
    };
    let default = match &def.default {
        None => None,
        Some(d) => match default_from_def(d) {
            Ok(v) => Some(v),
            Err(e) => {
                return Err(e);
            },
        },
    };
    Ok(
        Column {
            name: def.name.clone(),
            data_type,
            nullable: def.nullable,
            primary_key: def.primary_key,
            auto_increment: def.auto_increment,
            unique: def.unique,
            default,
        },
    )
}

/// What is said of the first column that is refused.
pub open spec fn first_column_refusal(defs: Seq<ColumnDef>) -> Option<Seq<char>>
    decreases defs.len(),
{
    if defs.len() == 0 {
        None
    } else {
        match first_column_refusal(defs.drop_last()) {
            Some(m) => Some(m),
            None => column_refusal(defs.last()),
        }
    }
}

proof fn lemma_columns_stop(defs: Seq<ColumnDef>, n: int)
    requires
        0 <= n <= defs.len(),
        first_column_refusal(defs.take(n)) is Some,
    ensures
        first_column_refusal(defs) == first_column_refusal(defs.take(n)),
    decreases defs.len() - n,
{
    if n == defs.len() {
        assert(defs.take(n) =~= defs);
    } else {
        assert(defs.take(n + 1).drop_last() =~= defs.take(n));
        lemma_columns_stop(defs, n + 1);
    }
}

/// Why a table is refused: it has no columns, or one that is refused.
pub open spec fn table_refusal(def: TableDef) -> Option<Seq<char>> {
    if def.columns@.len() == 0 {
        Some("table `"@ + def.name@ + "` declares no columns"@)
    } else {
        first_column_refusal(def.columns@)
    }
}

/// `i` is the index that `def` declares.
pub open spec fn index_of(def: IndexDef, i: Index) -> bool {
    i.name@ == def.name@ && text::views(i.columns@) == text::views(def.columns@) && i.unique
        == def.unique
}

/// `t` is the table that `def` declares.
pub open spec fn table_of(def: TableDef, t: Table) -> bool {
    &&& t.name@ == def.name@
    &&& t.columns@.len() == def.columns@.len()
    &&& forall|i: int|
        0 <= i < def.columns@.len() ==> column_of(#[trigger] def.columns@[i], t.columns@[i])
    &&& t.indexes@.len() == def.indexes@.len()
    &&& forall|i: int|
        0 <= i < def.indexes@.len() ==> index_of(#[trigger] def.indexes@[i], t.indexes@[i])
    &&& text::views(t.primary_key@) == text::views(def.primary_key@)
    &&& t.unique_keys@.len() == def.unique_keys@.len()
    &&& forall|i: int|
        0 <= i < def.unique_keys@.len() ==> text::views((#[trigger] t.unique_keys@[i])@)
            == text::views(def.unique_keys@[i]@)
}

/// Converts a declared table.
pub fn table_from_def(def: &TableDef) -> (r: Result<Table, WaferError>)
    ensures
        match r {
            Ok(t) => table_refusal(*def) is None && table_of(*def, t),
            Err(e) => table_refusal(*def) is Some && e.says(
                ErrorCode::InvalidArgument,
                table_refusal(*def)->0,
            ),
        },
{
    if def.columns.len() == 0 {
        return Err(
            invalid(text::join3("table `", def.name.as_str(), "` declares no columns")),
        );
    }
    let mut columns: Vec<Column> = Vec::new();
    proof {
        assert(def.columns@.take(0) =~= Seq::empty());
    }
    for i in 0..def.columns.len()
        invariant
            def.columns@.len() > 0,
            columns@.len() == i,
            first_column_refusal(def.columns@.take(i as int)) is None,
            forall|k: int|
                0 <= k < i ==> column_of(#[trigger] def.columns@[k], columns@[k]),
    {
        proof {
            let next = def.columns@.take(i + 1);
            assert(next.drop_last() =~= def.columns@.take(i as int));
            assert(next.last() == def.columns@[i as int]);
            if first_column_refusal(next) is Some {
                lemma_columns_stop(def.columns@, i + 1);
            }
        }
        match column_from_def(&def.columns[i]) {
            Ok(c) => columns.push(c),
            Err(e) => {
                return Err(e);
            },
        }
    }
    proof {
        assert(def.columns@.take(def.columns@.len() as int) =~= def.columns@);
    }
    let mut indexes: Vec<Index> = Vec::new();
    for i in 0..def.indexes.len()
        invariant
            indexes@.len() == i,
            forall|k: int| 0 <= k < i ==> index_of(#[trigger] def.indexes@[k], indexes@[k]),
    {
        let d = &def.indexes[i];
        indexes.push(
            Index {
                name: d.name.clone(),
                columns: text::clone_strings(&d.columns),
                unique: d.unique,
            },
        );
    }
    let mut unique_keys: Vec<Vec<String>> = Vec::new();
    for i in 0..def.unique_keys.len()
        invariant
            unique_keys@.len() == i,
            forall|k: int|
                0 <= k < i ==> text::views((#[trigger] unique_keys@[k])@) == text::views(
                    def.unique_keys@[k]@,
                ),
    {
        unique_keys.push(text::clone_strings(&def.unique_keys[i]));
    }
    Ok(
        Table {
            name: def.name.clone(),
            columns,
            indexes,
            primary_key: text::clone_strings(&def.primary_key),
            unique_keys,
        },
    )
}

/// How a type is written in a declaration.
pub open spec fn kind_of(t: DataType) -> Seq<char> {
    match t {
        DataType::String => "string"@,
        DataType::Text => "text"@,
        DataType::Int => "int"@,
        DataType::Int64 => "int64"@,
        DataType::Float => "float"@,
        DataType::Bool => "bool"@,
        DataType::DateTime => "datetime"@,
        DataType::Json => "json"@,
        DataType::Blob => "blob"@,
    }
}

proof fn lemma_kinds_differ()
    ensures
        "string"@ != "text"@,
        "string"@ != "int"@,
        "string"@ != "int64"@,
        "string"@ != "float"@,
        "string"@ != "bool"@,
        "string"@ != "datetime"@,
        "string"@ != "json"@,
        "string"@ != "blob"@,
        "text"@ != "int"@,
        "text"@ != "int64"@,
        "text"@ != "float"@,
        "text"@ != "bool"@,
        "text"@ != "datetime"@,
        "text"@ != "json"@,
        "text"@ != "blob"@,
        "int"@ != "int64"@,
        "int"@ != "float"@,
        "int"@ != "bool"@,
        "int"@ != "datetime"@,
        "int"@ != "json"@,
        "int"@ != "blob"@,
        "int64"@ != "float"@,
        "int64"@ != "bool"@,
        "int64"@ != "datetime"@,
        "int64"@ != "json"@,
        "int64"@ != "blob"@,
        "float"@ != "bool"@,
        "float"@ != "datetime"@,
        "float"@ != "json"@,
        "float"@ != "blob"@,
        "bool"@ != "datetime"@,
        "bool"@ != "json"@,
        "bool"@ != "blob"@,
        "datetime"@ != "json"@,
        "datetime"@ != "blob"@,
        "json"@ != "blob"@,
{
    reveal_strlit("string");
    reveal_strlit("text");
    reveal_strlit("int");
    reveal_strlit("int64");
    reveal_strlit("float");
    reveal_strlit("bool");
    reveal_strlit("datetime");
    reveal_strlit("json");
    reveal_strlit("blob");
    assert("string"@.len() == 6);
    assert("int"@.len() == 3);
    assert("datetime"@.len() == 8);
    assert("text"@[0] != "bool"@[0]);
    assert("text"@[0] != "json"@[0]);
    assert("text"@[0] != "blob"@[0]);
    assert("int64"@[0] != "float"@[0]);
    assert("bool"@[0] != "json"@[0]);
    assert("bool"@[1] != "blob"@[1]);
    assert("json"@[0] != "blob"@[0]);
}

/// A column declared of a kind has the very type that is written so: every type
/// can be declared, and no two are written alike.
pub proof fn every_type_has_its_kind(t: DataType, kind: Seq<char>)
    ensures
        type_of_kind(kind_of(t)) == Some(t),
        type_of_kind(kind) matches Some(u) ==> kind == kind_of(u),
{
    lemma_kinds_differ();
}

/// A declared table is brought up as it is declared: its columns in order, each
/// with its name, type and constraints, its indexes, its key and its unique
/// keys.
pub proof fn a_table_is_as_it_is_declared(def: TableDef, t: Table, r: Result<Table, WaferError>)
    requires
        call_ensures(table_from_def, (&def,), r),
    ensures
        r is Ok <==> def.columns@.len() > 0 && first_column_refusal(def.columns@) is None,
        r == Ok::<Table, WaferError>(t) ==> {
            &&& t.name@ == def.name@
            &&& t.columns@.len() == def.columns@.len()
            &&& forall|i: int|
                0 <= i < def.columns@.len() ==> (#[trigger] t.columns@[i]).name@
                    == def.columns@[i].name@ && kind_of(t.columns@[i].data_type)
                    == def.columns@[i].kind@ && t.columns@[i].nullable == def.columns@[i].nullable
                    && t.columns@[i].primary_key == def.columns@[i].primary_key
                    && t.columns@[i].auto_increment == def.columns@[i].auto_increment
                    && t.columns@[i].unique == def.columns@[i].unique && (t.columns@[i].default is Some
                    <==> def.columns@[i].default is Some)
            &&& t.indexes@.len() == def.indexes@.len()
            &&& forall|i: int|
                0 <= i < def.indexes@.len() ==> (#[trigger] t.indexes@[i]).name@
                    == def.indexes@[i].name@ && text::views(t.indexes@[i].columns@) == text::views(
                    def.indexes@[i].columns@,
                ) && t.indexes@[i].unique == def.indexes@[i].unique
            &&& text::views(t.primary_key@) == text::views(def.primary_key@)
            &&& t.unique_keys@.len() == def.unique_keys@.len()
        },
{
    if r == Ok::<Table, WaferError>(t) {
        assert forall|i: int| 0 <= i < def.columns@.len() implies (#[trigger] t.columns@[i]).name@
            == def.columns@[i].name@ && kind_of(t.columns@[i].data_type) == def.columns@[i].kind@
            && t.columns@[i].nullable == def.columns@[i].nullable && t.columns@[i].primary_key
            == def.columns@[i].primary_key && t.columns@[i].auto_increment
            == def.columns@[i].auto_increment && t.columns@[i].unique == def.columns@[i].unique && (
        t.columns@[i].default is Some <==> def.columns@[i].default is Some) by {
            assert(column_of(def.columns@[i], t.columns@[i]));
            every_type_has_its_kind(t.columns@[i].data_type, def.columns@[i].kind@);
        }
        assert forall|i: int| 0 <= i < def.indexes@.len() implies (#[trigger] t.indexes@[i]).name@
            == def.indexes@[i].name@ && text::views(t.indexes@[i].columns@) == text::views(
            def.indexes@[i].columns@,
        ) && t.indexes@[i].unique == def.indexes@[i].unique by {
            assert(index_of(def.indexes@[i], t.indexes@[i]));
        }
    }
}

/// A default is the value that is declared, with its text: a text as it is, a
/// number in digits that read back, a truth value in its word; `now` and `null`
/// stand for themselves.
pub proof fn a_default_is_what_is_declared(def: DefaultDef, d: DefaultValue, n: i64)
    requires
        default_refusal(def) is None,
        default_of(def, d),
    ensures
        d is Null <==> def.kind@ == "null"@,
        d is Now <==> def.kind@ == "now"@,
        d is Value ==> def.kind@ == "value"@,
        d is Value && def.value@ is Str ==> d->Value_raw@ == def.value@->Str_0 && (
        d->Value_value matches DefaultVal::Str(s) && s@ == def.value@->Str_0),
        d is Value && def.value@ == JsonView::Int(n) ==> d->Value_value == DefaultVal::Int(n) && (n
            >= 0 ==> text::digits_value(d->Value_raw@) == n),
        d is Value && def.value@ == JsonView::Bool(true) ==> d->Value_value == DefaultVal::Bool(true)
            && d->Value_raw@ == "true"@,
        d is Value && def.value@ == JsonView::Bool(false) ==> d->Value_value
            == DefaultVal::Bool(false) && d->Value_raw@ == "false"@,
{
    reveal_strlit("null");
    reveal_strlit("now");
    reveal_strlit("value");
    assert("null"@.len() == 4);
    assert("now"@.len() == 3);
    assert("value"@.len() == 5);
    if n >= 0 {
        text::decimal_reads_back(n as nat);
    }
}

} // verus!
