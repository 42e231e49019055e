//! Handling a logger message: its texts are escaped, its fields put in order,
//! and the record is handed to the service with the name of the block that
//! sent it, as the runtime knows it.

use vstd::prelude::*;

use crate::error::{ErrorCode, WaferError};
use crate::handler_util;
use crate::handler_util::malformed;
use crate::json;
use crate::json::{Json, JsonView};
use crate::logger::service;
use crate::logger::service::{escape_log_text, Field, FieldValue};
use crate::row;
use crate::row::Row;
use crate::text;

verus! {

/// How grave a record is.
#[derive(Clone, Copy, Debug, PartialEq, Eq, Structural)]
pub enum Level {
    Debug,
    Info,
    Warn,
    Error,
}

/// What a message asks to record.
#[derive(Debug)]
pub struct LogRequest {
    pub message: String,
    pub fields: Row,
}

/// A record as it is handed to the service.
#[derive(Debug)]
pub struct LogRecord {
    pub level: Level,
    /// The block that sent it, where one did.
    pub caller: Option<String>,
    pub message: String,
    pub fields: Vec<Field>,
}

/// A value as the value of a field.
pub open spec fn value_answers(j: JsonView, v: FieldValue) -> bool {
    match j {
        JsonView::Str(s) => v matches FieldValue::String(t) && t@ == service::escaped(s),
        JsonView::Int(i) => v == FieldValue::Int(i),
        JsonView::Real(n) => v matches FieldValue::Float(t) && t@ == n.display,
        JsonView::Bool(b) => v == FieldValue::Bool(b),
        _ => v matches FieldValue::Any(t) && t@ == service::escaped(json::compact(j)),
    }
}

/// `f` is the field for the entry `e`.
pub open spec fn field_of(e: (Seq<char>, JsonView), f: Field) -> bool {
    f.key@ == service::escaped(e.0) && value_answers(e.1, f.value)
}

/// `fields` are the fields for the entries of `data`, one for each, in the
/// order of their keys.
pub open spec fn fields_of(data: Map<Seq<char>, JsonView>, fields: Seq<Field>) -> bool {
    &&& forall|i: int, j: int|
        0 <= i < j < fields.len() ==> text::precedes(
            (#[trigger] fields[i]).key@,
            (#[trigger] fields[j]).key@,
        )
    &&& forall|k: Seq<char>| #[trigger]
        data.dom().contains(k) ==> exists|i: int|
            0 <= i < fields.len() && field_of((k, data[k]), #[trigger] fields[i])
    &&& forall|i: int|
        0 <= i < fields.len() ==> exists|k: Seq<char>| #[trigger]
            data.dom().contains(k) && field_of((k, data[k]), #[trigger] fields[i])
}

fn field_value(v: &Json) -> (r: FieldValue)
    ensures
        value_answers(v@, r),
{
    proof {
        reveal_with_fuel(json::json_view, 2);
    }
    match v {
        Json::Str(s) => FieldValue::String(escape_log_text(s.as_str())),
        Json::Int(i) => FieldValue::Int(*i),
        Json::Real(n) => FieldValue::Float(n.display.clone()),
        Json::Bool(b) => FieldValue::Bool(*b),
        other => FieldValue::Any(escape_log_text(other.to_text().as_str())),
    }
}

fn place_for(fields: &Vec<Field>, key: &str) -> (r: usize)
    requires
        forall|i: int, j: int|
            0 <= i < j < fields@.len() ==> text::precedes(
                (#[trigger] fields@[i]).key@,
                (#[trigger] fields@[j]).key@,
            ),
        forall|i: int| 0 <= i < fields@.len() ==> (#[trigger] fields@[i]).key@ != key@,
    ensures
        r <= fields@.len(),
        forall|i: int| 0 <= i < r ==> text::precedes((#[trigger] fields@[i]).key@, key@),
        forall|i: int| r <= i < fields@.len() ==> text::precedes(key@, (#[trigger] fields@[i]).key@),
{
    let mut at: usize = 0;
    while at < fields.len() && text::is_before(fields[at].key.as_str(), key)
        invariant
            at <= fields@.len(),
            forall|i: int| 0 <= i < at ==> text::precedes((#[trigger] fields@[i]).key@, key@),
        decreases fields@.len() - at,
    {
        at += 1;
    }
    proof {
        if at < fields@.len() {
            text::precedes_is_total(fields@[at as int].key@, key@);
        }
        assert forall|i: int| at <= i < fields@.len() implies text::precedes(
            key@,
            (#[trigger] fields@[i]).key@,
        ) by {
            if i > at {
                assert(text::precedes(fields@[at as int].key@, fields@[i].key@));
                text::precedes_is_transitive(key@, fields@[at as int].key@, fields@[i].key@);
            }
        }
    }
    at
}

/// The fields of a record: every key and every text is escaped, and the fields
/// are ordered by key, so that a record reads the same on every call.
pub fn json_fields_to_service_fields(data: &Row) -> (r: Vec<Field>)
    ensures
        fields_of(data@, r@),
{
    let n: usize = data.len();
    let ghost all = data.listed();
    let mut out: Vec<Field> = Vec::new();
    let ghost mut from: Seq<int> = Seq::empty();
    for k in 0..n
        invariant
            n == all.len(),
            all == data.listed(),
            row::distinct_names(all),
            from.len() == k,
            out@.len() == k,
            forall|i: int| 0 <= i < k ==> 0 <= #[trigger] from[i] < k,
            forall|i: int| 0 <= i < k ==> field_of(all[from[i]], #[trigger] out@[i]),
            forall|j: int| 0 <= j < k ==> #[trigger] from.contains(j),
            forall|i: int, j: int|
                0 <= i < j < out@.len() ==> text::precedes(
                    (#[trigger] out@[i]).key@,
                    (#[trigger] out@[j]).key@,
                ),
            forall|i: int, j: int|
                0 <= i < j < k ==> #[trigger] from[i] != #[trigger] from[j],
    {
        let field = Field {
            key: escape_log_text(data.name_at(k)),
            value: field_value(data.value_at(k)),
        };
        let ghost before = out@;
        let ghost given = from;
        proof {
            assert(field_of(all[k as int], field));
            assert forall|i: int| 0 <= i < out@.len() implies (#[trigger] out@[i]).key@
                != field.key@ by {
                assert(field_of(all[from[i]], out@[i]));
                assert(all[from[i]].0 != all[k as int].0);
                if out@[i].key@ == field.key@ {
                    service::escaping_is_unambiguous(all[from[i]].0, all[k as int].0);
                }
            }
        }
        let at = place_for(&out, field.key.as_str());
        let ghost added = field;
        out.insert(at, field);
        proof {
            from = given.insert(at as int, k as int);
            assert(out@ == before.insert(at as int, added));
            assert forall|i: int| 0 <= i < k + 1 implies field_of(
                all[from[i]],
                #[trigger] out@[i],
            ) && 0 <= from[i] < k + 1 by {
                if i < at {
                    assert(out@[i] == before[i] && from[i] == given[i]);
                } else if i > at {
                    assert(out@[i] == before[i - 1] && from[i] == given[i - 1]);
                }
            }
            assert forall|j: int| 0 <= j < k + 1 implies #[trigger] from.contains(j) by {
                if j == k {
                    assert(from[at as int] == j);
                } else {
                    assert(given.contains(j));
                    let i = choose|i: int| 0 <= i < given.len() && given[i] == j;
                    if i < at {
                        assert(from[i] == j);
                    } else {
                        assert(from[i + 1] == j);
                    }
                }
            }
            assert forall|i: int, j: int| 0 <= i < j < out@.len() implies text::precedes(
                (#[trigger] out@[i]).key@,
                (#[trigger] out@[j]).key@,
            ) by {
                let x = if i < at {
                    i
                } else {
                    i - 1
                };
                let y = if j < at {
                    j
                } else {
                    j - 1
                };
                if i != at && j != at {
                    assert(out@[i] == before[x] && out@[j] == before[y]);
                } else if j == at {
                    assert(out@[i] == before[i]);
                } else {
                    assert(out@[j] == before[j - 1]);
                }
            }
            assert forall|i: int, j: int| 0 <= i < j < k + 1 implies #[trigger] from[i]
                != #[trigger] from[j] by {
                let x = if i < at {
                    i
                } else {
                    i - 1
                };
                let y = if j < at {
                    j
                } else {
                    j - 1
                };
                if i != at && j != at {
                    assert(from[i] == given[x] && from[j] == given[y]);
                } else if j == at {
                    assert(from[i] == given[i]);
                } else {
                    assert(from[j] == given[j - 1]);
                }
            }
        }
    }
    proof {
        row::lemma_entries_map(all);
        assert forall|k: Seq<char>| #[trigger] data@.dom().contains(k) implies exists|i: int|
            0 <= i < out@.len() && field_of((k, data@[k]), #[trigger] out@[i]) by {
            let j = choose|j: int| 0 <= j < all.len() && (#[trigger] all[j]).0 == k;
            assert(from.contains(j));
            let i = choose|i: int| 0 <= i < from.len() && from[i] == j;
            assert(field_of(all[from[i]], out@[i]));
            assert(all[j] == (k, data@[k]));
        }
        assert forall|i: int| 0 <= i < out@.len() implies exists|k: Seq<char>| #[trigger]
            data@.dom().contains(k) && field_of((k, data@[k]), #[trigger] out@[i]) by {
            let j = from[i];
            assert(field_of(all[j], out@[i]));
            assert(data@.dom().contains(all[j].0));
            assert(all[j] == (all[j].0, data@[all[j].0]));
        }
    }
    out
}

/// What a message leads to: the record to hand to the service, or a refusal. A
/// message that cannot be read is refused whatever it asks for.
pub open spec fn logs(
    kind: Seq<char>,
    level: Option<Level>,
    caller: Option<String>,
    decoded: Result<LogRequest, String>,
    r: Result<LogRecord, WaferError>,
) -> bool {
    match decoded {
        Err(why) => r matches Err(e) && handler_util::refuses_malformed(e, "logger.log"@, why@),
        Ok(request) => match level {
            None => r matches Err(e) && e.says(
                ErrorCode::Unimplemented,
                "unknown logger operation: "@ + kind,
            ),
            Some(l) => {
                &&& r matches Ok(record)
                &&& record.level == l
                &&& record.caller == caller
                &&& record.message@ == service::escaped(request.message@)
                &&& fields_of(request.fields@, record.fields@)
            },
        },
    }
}

/// Handles a logger message from the block `caller`; `level` is the level that
/// its kind stands for.
pub fn handle_message(
    kind: &str,
    level: Option<Level>,
    caller: Option<String>,
    decoded: Result<LogRequest, String>,
) -> (r: Result<LogRecord, WaferError>)
    ensures
        logs(kind@, level, caller, decoded, r),
{
    let request = match decoded {
        Ok(request) => request,
        Err(why) => {
            return Err(malformed("logger.log", why.as_str()));
        },
    };
    let message = escape_log_text(request.message.as_str());
    let fields = json_fields_to_service_fields(&request.fields);
    match level {
        Some(level) => Ok(LogRecord { level, caller, message, fields }),
        None => Err(
            WaferError::new(
                ErrorCode::Unimplemented,
                text::join2("unknown logger operation: ", kind),
            ),
        ),
    }
}

/// Whatever a block puts in a message, its record stands on one line: neither
/// the message nor the key or text of a field breaks it.
pub proof fn a_record_is_one_line(
    kind: Seq<char>,
    level: Option<Level>,
    caller: Option<String>,
    request: LogRequest,
    record: LogRecord,
    f: int,
    i: int,
)
    requires
        logs(kind, level, caller, Ok(request), Ok(record)),
    ensures
        0 <= i < record.message@.len() ==> !service::breaks_line(record.message@[i]),
        0 <= f < record.fields@.len() && 0 <= i < record.fields@[f].key@.len()
            ==> !service::breaks_line(record.fields@[f].key@[i]),
        0 <= f < record.fields@.len() ==> match record.fields@[f].value {
            FieldValue::String(s) => 0 <= i < s@.len() ==> !service::breaks_line(s@[i]),
            FieldValue::Any(s) => 0 <= i < s@.len() ==> !service::breaks_line(s@[i]),
            _ => true,
        },
{
    if 0 <= i < record.message@.len() {
        service::escaped_text_is_one_line(request.message@, i);
    }
    if 0 <= f < record.fields@.len() {
        let field = record.fields@[f];
        let k = choose|k: Seq<char>| #[trigger]
            request.fields@.dom().contains(k) && field_of((k, request.fields@[k]), field);
        let j = request.fields@[k];
        if 0 <= i < field.key@.len() {
            service::escaped_text_is_one_line(k, i);
        }
        match field.value {
            FieldValue::String(s) => {
                if 0 <= i < s@.len() {
                    service::escaped_text_is_one_line(j->Str_0, i);
                }
            },
            FieldValue::Any(s) => {
                if 0 <= i < s@.len() {
                    service::escaped_text_is_one_line(json::compact(j), i);
                }
            },
            _ => {},
        }
    }
}

/// A record has the level and the caller that the runtime knows, and the message
/// itself where nothing in it needs to be escaped.
pub proof fn a_record_says_what_was_given(
    kind: Seq<char>,
    level: Option<Level>,
    caller: Option<String>,
    request: LogRequest,
    record: LogRecord,
)
    requires
        logs(kind, level, caller, Ok(request), Ok(record)),
    ensures
        level == Some(record.level),
        record.caller == caller,
        service::plain(request.message@) ==> record.message@ == request.message@,
{
    if service::plain(request.message@) {
        service::plain_text_stays(request.message@);
    }
}

/// Every entry of a message has its field, with the number or the truth value
/// that was given, or with the text itself where nothing in it needs to be
/// escaped.
pub proof fn every_entry_has_its_field(
    data: Map<Seq<char>, JsonView>,
    fields: Seq<Field>,
    k: Seq<char>,
) -> (i: int)
    requires
        fields_of(data, fields),
        data.dom().contains(k),
    ensures
        0 <= i < fields.len(),
        service::plain(k) ==> fields[i].key@ == k,
        data[k] matches JsonView::Int(n) ==> fields[i].value == FieldValue::Int(n),
        data[k] matches JsonView::Bool(b) ==> fields[i].value == FieldValue::Bool(b),
        data[k] matches JsonView::Str(s) ==> fields[i].value is String && (service::plain(s)
            ==> fields[i].value->String_0@ == s),
{
    let i = choose|i: int| 0 <= i < fields.len() && field_of((k, data[k]), #[trigger] fields[i]);
    assert(field_of((k, data[k]), fields[i]));
    if service::plain(k) {
        service::plain_text_stays(k);
    }
    if let JsonView::Str(s) = data[k] {
        if service::plain(s) {
            service::plain_text_stays(s);
        }
    }
    i
}

} // verus!
