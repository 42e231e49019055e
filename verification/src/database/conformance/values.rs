//! What is asked of values.

use vstd::prelude::*;

use crate::database::conformance::judge::{FieldCheck, ListCheck, RecordCheck};
use crate::database::conformance::list::{list, List};
use crate::database::conformance::probe::{
    eq, everything, fraction, nullable, number, pk, row, table, text, Datum, Entry, TableShape,
};
use crate::database::conformance::script::{
    create, done, equals, get, gives, has, int_is, list_of, lists, reset, update, Script,
};
use crate::database::schema::DataType;
use crate::double::Within;

verus! {

/// An object that holds an array and an object.
#[verifier::allow_in_spec]
pub fn nested_object() -> Datum
    returns
        ({
            let inner = Datum::Object(Box::new(row().with("b", Datum::Bool(true))));
            let numbers = Datum::Array(Box::new(list().and(number(1)).and(number(2))));
            Datum::Object(Box::new(row().with("k", numbers).with("nested", inner)))
        }),
{
    let inner = Datum::Object(Box::new(row().with("b", Datum::Bool(true))));
    let numbers = Datum::Array(Box::new(list().and(number(1)).and(number(2))));
    Datum::Object(Box::new(row().with("k", numbers).with("nested", inner)))
}

/// The largest unsigned 64-bit integer.
#[verifier::allow_in_spec]
pub fn largest() -> Datum
    returns
        (Datum::Real {
            text: "18446744073709551615",
            display: "18446744073709552000",
            truncated: 9_223_372_036_854_775_807,
            unsigned: Some(18_446_744_073_709_551_615),
            bits: 0x43F0_0000_0000_0000,
        }),
{
    Datum::Real {
        text: "18446744073709551615",
        display: "18446744073709552000",
        truncated: 9_223_372_036_854_775_807,
        unsigned: Some(18_446_744_073_709_551_615),
        bits: 0x43F0_0000_0000_0000,
    }
}

/// A number that is so many, and a half more where it is said so, to the
/// precision of a double.
#[verifier::allow_in_spec]
pub fn precisely(whole: u32, half: bool) -> FieldCheck
    returns
        (FieldCheck::Near { whole, half, within: Within::Epsilon }),
{
    FieldCheck::Near { whole, half, within: Within::Epsilon }
}

/// A value of each kind, in columns of JSON.
#[verifier::allow_in_spec]
pub fn json_values(data: List<Entry>) -> List<Entry>
    returns
        ({
            let data = data.with("declared_json", nested_object());
            let data = data.with("serialized_json", text("{\"k\":[1,2],\"nested\":{\"b\":true}}"));
            let data = data.with("word_json", text("not json"));
            let data = data.with("str_123", text("123"));
            let data = data.with("str_true", text("true"));
            let data = data.with("str_null", text("null"));
            let data = data.with("str_array", text("[1]"));
            let data = data.with("str_object", text("{}"));
            let data = data.with("num_json", number(123));
            let data = data.with("big_json", largest());
            let data = data.with("bool_json", Datum::Bool(true));
            let data = data.with("null_json", Datum::Null);
            data
        }),
{
    let data = data.with("declared_json", nested_object());
    let data = data.with("serialized_json", text("{\"k\":[1,2],\"nested\":{\"b\":true}}"));
    let data = data.with("word_json", text("not json"));
    let data = data.with("str_123", text("123"));
    let data = data.with("str_true", text("true"));
    let data = data.with("str_null", text("null"));
    let data = data.with("str_array", text("[1]"));
    let data = data.with("str_object", text("{}"));
    let data = data.with("num_json", number(123));
    let data = data.with("big_json", largest());
    let data = data.with("bool_json", Datum::Bool(true));
    let data = data.with("null_json", Datum::Null);
    data
}

/// An array of letters.
#[verifier::allow_in_spec]
pub fn lettered() -> Datum
    returns
        Datum::Array(Box::new(list().and(text("a")).and(text("b")))),
{
    Datum::Array(Box::new(list().and(text("a")).and(text("b"))))
}

/// A value of each kind, in columns of JSON, of text, and yet to be added.
#[verifier::allow_in_spec]
pub fn mixed_values() -> List<Entry>
    returns
        ({
            let data = row().with("id", text("[1]"));
            let data = data.with("declared_text", text("[1]"));
            let data = data.with("empty_object_text", text("{}"));
            let data = data.with("serialized_text", text("{\"k\":[1,2],\"nested\":{\"b\":true}}"));
            let data = data.with("lazy_text", text("{\"a\":1}"));
            let data = json_values(data);
            let data = data.with("lazy_json", nested_object());
            let data = data.with("lazy_array", lettered());
            let data = data.with("plain", text("not json"));
            data
        }),
{
    let data = row().with("id", text("[1]"));
    let data = data.with("declared_text", text("[1]"));
    let data = data.with("empty_object_text", text("{}"));
    let data = data.with("serialized_text", text("{\"k\":[1,2],\"nested\":{\"b\":true}}"));
    let data = data.with("lazy_text", text("{\"a\":1}"));
    let data = json_values(data);
    let data = data.with("lazy_json", nested_object());
    let data = data.with("lazy_array", lettered());
    let data = data.with("plain", text("not json"));
    data
}

/// Each of the values, as it was written.
#[verifier::allow_in_spec]
pub fn reads_back() -> List<RecordCheck>
    returns
        ({
            let checks = list().and(RecordCheck::Id("[1]"));
            let checks = checks.having("declared_text", equals(text("[1]")));
            let checks = checks.having("empty_object_text", equals(text("{}")));
            let checks = checks.having("serialized_text", equals(text("{\"k\":[1,2],\"nested\":{\"b\":true}}")));
            let checks = checks.having("lazy_text", equals(text("{\"a\":1}")));
            let checks = checks.having("declared_json", equals(nested_object()));
            let checks = checks.having("serialized_json", equals(text("{\"k\":[1,2],\"nested\":{\"b\":true}}")));
            let checks = checks.having("word_json", equals(text("not json")));
            let checks = checks.having("str_123", equals(text("123")));
            let checks = checks.having("str_true", equals(text("true")));
            let checks = checks.having("str_null", equals(text("null")));
            let checks = checks.having("str_array", equals(text("[1]")));
            let checks = checks.having("str_object", equals(text("{}")));
            let checks = checks.having("num_json", equals(number(123)));
            let checks = checks.having("big_json", equals(largest()));
            let checks = checks.having("bool_json", equals(Datum::Bool(true)));
            let checks = checks.having("null_json", equals(Datum::Null));
            let checks = checks.having("lazy_json", equals(nested_object()));
            let checks = checks.having("lazy_array", equals(lettered()));
            let checks = checks.having("plain", equals(text("not json")));
            checks
        }),
{
    let checks = list().and(RecordCheck::Id("[1]"));
    let checks = checks.having("declared_text", equals(text("[1]")));
    let checks = checks.having("empty_object_text", equals(text("{}")));
    let checks = checks.having("serialized_text", equals(text("{\"k\":[1,2],\"nested\":{\"b\":true}}")));
    let checks = checks.having("lazy_text", equals(text("{\"a\":1}")));
    let checks = checks.having("declared_json", equals(nested_object()));
    let checks = checks.having("serialized_json", equals(text("{\"k\":[1,2],\"nested\":{\"b\":true}}")));
    let checks = checks.having("word_json", equals(text("not json")));
    let checks = checks.having("str_123", equals(text("123")));
    let checks = checks.having("str_true", equals(text("true")));
    let checks = checks.having("str_null", equals(text("null")));
    let checks = checks.having("str_array", equals(text("[1]")));
    let checks = checks.having("str_object", equals(text("{}")));
    let checks = checks.having("num_json", equals(number(123)));
    let checks = checks.having("big_json", equals(largest()));
    let checks = checks.having("bool_json", equals(Datum::Bool(true)));
    let checks = checks.having("null_json", equals(Datum::Null));
    let checks = checks.having("lazy_json", equals(nested_object()));
    let checks = checks.having("lazy_array", equals(lettered()));
    let checks = checks.having("plain", equals(text("not json")));
    checks
}

/// A table of text and of JSON columns.
#[verifier::allow_in_spec]
pub fn json_table() -> TableShape
    returns
        ({
            let columns = list().and(pk("id"));
            let columns = columns.and(nullable("declared_text", DataType::Text));
            let columns = columns.and(nullable("empty_object_text", DataType::Text));
            let columns = columns.and(nullable("serialized_text", DataType::Text));
            let columns = columns.and(nullable("declared_json", DataType::Json));
            let columns = columns.and(nullable("serialized_json", DataType::Json));
            let columns = columns.and(nullable("word_json", DataType::Json));
            let columns = columns.and(nullable("str_123", DataType::Json));
            let columns = columns.and(nullable("str_true", DataType::Json));
            let columns = columns.and(nullable("str_null", DataType::Json));
            let columns = columns.and(nullable("str_array", DataType::Json));
            let columns = columns.and(nullable("str_object", DataType::Json));
            let columns = columns.and(nullable("num_json", DataType::Json));
            let columns = columns.and(nullable("big_json", DataType::Json));
            let columns = columns.and(nullable("bool_json", DataType::Json));
            let columns = columns.and(nullable("null_json", DataType::Json));
            table("conf_json", columns)
        }),
{
    let columns = list().and(pk("id"));
    let columns = columns.and(nullable("declared_text", DataType::Text));
    let columns = columns.and(nullable("empty_object_text", DataType::Text));
    let columns = columns.and(nullable("serialized_text", DataType::Text));
    let columns = columns.and(nullable("declared_json", DataType::Json));
    let columns = columns.and(nullable("serialized_json", DataType::Json));
    let columns = columns.and(nullable("word_json", DataType::Json));
    let columns = columns.and(nullable("str_123", DataType::Json));
    let columns = columns.and(nullable("str_true", DataType::Json));
    let columns = columns.and(nullable("str_null", DataType::Json));
    let columns = columns.and(nullable("str_array", DataType::Json));
    let columns = columns.and(nullable("str_object", DataType::Json));
    let columns = columns.and(nullable("num_json", DataType::Json));
    let columns = columns.and(nullable("big_json", DataType::Json));
    let columns = columns.and(nullable("bool_json", DataType::Json));
    let columns = columns.and(nullable("null_json", DataType::Json));
    table("conf_json", columns)
}

/// A value reads back as it was written: a column of JSON holds the JSON value,
/// whatever its kind, and any other text is text, however it looks.
#[verifier::allow_in_spec]
pub fn check_json_value_round_trip(s: Script) -> Script
    returns
        ({
            let s = reset(s, json_table());
            let s = s.and(
                done(
                    create("conf_json", mixed_values()),
                    "create with JSON-looking payloads must succeed",
                ),
            );
            let s = s.and(gives(get("conf_json", "[1]"), reads_back(), "get"));
            let s = s.and(
                lists(
                    list_of("conf_json", everything().filtered(eq("id", text("[1]")))),
                    list().and(ListCheck::Len(1)).and(ListCheck::At(0, reads_back())),
                    "list",
                ),
            );
            s.and(gives(update("conf_json", "[1]", json_values(row())), reads_back(), "update"))
        }),
{
    let s = reset(s, json_table());
    let s = s.and(
        done(
            create("conf_json", mixed_values()),
            "create with JSON-looking payloads must succeed",
        ),
    );
    let s = s.and(gives(get("conf_json", "[1]"), reads_back(), "get"));
    let s = s.and(
        lists(
            list_of("conf_json", everything().filtered(eq("id", text("[1]")))),
            list().and(ListCheck::Len(1)).and(ListCheck::At(0, reads_back())),
            "list",
        ),
    );
    s.and(gives(update("conf_json", "[1]", json_values(row())), reads_back(), "update"))
}

/// A value in each typed column.
#[verifier::allow_in_spec]
pub fn filled_columns(data: List<Entry>) -> List<Entry>
    returns
        ({
            let doc = Datum::Object(Box::new(row().with("a", number(1))));
            data.with("n", number(1)).with("big", number(2)).with("flag", Datum::Bool(true)).with(
                "doc",
                doc,
            )
        }),
{
    let doc = Datum::Object(Box::new(row().with("a", number(1))));
    data.with("n", number(1)).with("big", number(2)).with("flag", Datum::Bool(true)).with(
        "doc",
        doc,
    )
}

/// No value in any typed column.
#[verifier::allow_in_spec]
pub fn nulls(data: List<Entry>) -> List<Entry>
    returns
        data.with("n", Datum::Null).with("big", Datum::Null).with("flag", Datum::Null).with(
            "doc",
            Datum::Null,
        ),
{
    data.with("n", Datum::Null).with("big", Datum::Null).with("flag", Datum::Null).with(
        "doc",
        Datum::Null,
    )
}

/// No typed column has a value.
#[verifier::allow_in_spec]
pub fn are_null() -> List<RecordCheck>
    returns
        has("n", equals(Datum::Null)).having("big", equals(Datum::Null)).having(
            "flag",
            equals(Datum::Null),
        ).having("doc", equals(Datum::Null)),
{
    has("n", equals(Datum::Null)).having("big", equals(Datum::Null)).having(
        "flag",
        equals(Datum::Null),
    ).having("doc", equals(Datum::Null))
}

/// Typed columns have their values.
#[verifier::allow_in_spec]
pub fn are_filled(checks: List<RecordCheck>) -> List<RecordCheck>
    returns
        ({
            let doc = Datum::Object(Box::new(row().with("a", number(1))));
            checks.having("n", int_is(1)).having("big", int_is(2)).having("doc", equals(doc))
        }),
{
    let doc = Datum::Object(Box::new(row().with("a", number(1))));
    checks.having("n", int_is(1)).having("big", int_is(2)).having("doc", equals(doc))
}

/// A value is bound by the type of its column and not by its own: a missing value
/// fits every column, and an integer in a column of fractions is that integer.
#[verifier::allow_in_spec]
pub fn check_typed_values_round_trip(s: Script) -> Script
    returns
        ({
            let shape = table(
                "conf_typed",
                list().and(pk("id")).and(nullable("n", DataType::Int)).and(
                    nullable("big", DataType::Int64),
                ).and(nullable("flag", DataType::Bool)).and(nullable("doc", DataType::Json)).and(
                    nullable("amount", DataType::Float),
                ),
            );
            let s = reset(s, shape);
            let half = filled_columns(row().with("id", text("t1"))).with(
                "amount",
                fraction("1.5", "1.5", 1, 0x3FF8_0000_0000_0000),
            );
            let s = s.and(done(create("conf_typed", half), "create with a float amount"));
            let whole = filled_columns(row().with("id", text("t2"))).with("amount", number(2));
            let s = s.and(done(create("conf_typed", whole), "create with an integral amount"));
            let s = s.and(
                gives(
                    get("conf_typed", "t1"),
                    are_filled(has("amount", precisely(1, true))),
                    "t1: amount must read back 1.5",
                ),
            );
            let s = s.and(
                gives(
                    get("conf_typed", "t2"),
                    are_filled(has("amount", precisely(2, false))),
                    "t2: amount must read back 2",
                ),
            );
            let s = s.and(
                done(
                    create("conf_typed", nulls(row()).with("id", text("t3"))),
                    "create with NULLs in typed columns",
                ),
            );
            let s = s.and(gives(get("conf_typed", "t3"), are_null(), "create"));
            let s = s.and(gives(update("conf_typed", "t1", nulls(row())), are_null(), "update"));
            let s = s.and(gives(get("conf_typed", "t1"), are_null(), "update, re-read"));
            s.and(
                gives(
                    update("conf_typed", "t1", filled_columns(row())),
                    are_filled(list()),
                    "update typed columns back to values",
                ),
            )
        }),
{
    let shape = table(
        "conf_typed",
        list().and(pk("id")).and(nullable("n", DataType::Int)).and(
            nullable("big", DataType::Int64),
        ).and(nullable("flag", DataType::Bool)).and(nullable("doc", DataType::Json)).and(
            nullable("amount", DataType::Float),
        ),
    );
    let s = reset(s, shape);
    let half = filled_columns(row().with("id", text("t1"))).with(
        "amount",
        fraction("1.5", "1.5", 1, 0x3FF8_0000_0000_0000),
    );
    let s = s.and(done(create("conf_typed", half), "create with a float amount"));
    let whole = filled_columns(row().with("id", text("t2"))).with("amount", number(2));
    let s = s.and(done(create("conf_typed", whole), "create with an integral amount"));
    let s = s.and(
        gives(
            get("conf_typed", "t1"),
            are_filled(has("amount", precisely(1, true))),
            "t1: amount must read back 1.5",
        ),
    );
    let s = s.and(
        gives(
            get("conf_typed", "t2"),
            are_filled(has("amount", precisely(2, false))),
            "t2: amount must read back 2",
        ),
    );
    let s = s.and(
        done(
            create("conf_typed", nulls(row()).with("id", text("t3"))),
            "create with NULLs in typed columns",
        ),
    );
    let s = s.and(gives(get("conf_typed", "t3"), are_null(), "create"));
    let s = s.and(gives(update("conf_typed", "t1", nulls(row())), are_null(), "update"));
    let s = s.and(gives(get("conf_typed", "t1"), are_null(), "update, re-read"));
    s.and(
        gives(
            update("conf_typed", "t1", filled_columns(row())),
            are_filled(list()),
            "update typed columns back to values",
        ),
    )
}

} // verus!
