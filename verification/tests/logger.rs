use wafer_core::error::ErrorCode;
use wafer_core::json::{Json, RealNumber};
use wafer_core::logger::handler::{handle_message, json_fields_to_service_fields, Level, LogRequest};
use wafer_core::logger::service::{
    any, bool_field, err, escape_log_text, float, integer, string, Field, FieldValue,
};
use wafer_core::row::Row;

#[test]
fn escape_log_text_leaves_one_line_and_is_unambiguous() {
    assert_eq!(
        escape_log_text("plain text, ünïcode ✓"),
        "plain text, ünïcode ✓"
    );
    assert_eq!(escape_log_text("a\nb\r\tc"), "a\\nb\\r\\tc");
    assert_eq!(
        escape_log_text("\u{1b}[31m\u{0}\u{85}"),
        "\\u{1b}[31m\\u{0}\\u{85}"
    );
    assert_eq!(
        escape_log_text("a\u{2028}b\u{2029}"),
        "a\\u{2028}b\\u{2029}"
    );
    assert_eq!(escape_log_text("a\\nb"), "a\\\\nb");
    assert_ne!(escape_log_text("a\\nb"), escape_log_text("a\nb"));
}

#[test]
fn every_control_character_is_escaped_as_the_standard_library_knows_them() {
    for n in 0..0x3000u32 {
        if let Some(c) = char::from_u32(n) {
            let escaped = escape_log_text(&c.to_string());
            let special = c.is_control() || c == '\\' || c == '\u{2028}' || c == '\u{2029}';
            assert_eq!(escaped != c.to_string(), special, "U+{n:04X}");
            assert!(!escaped.chars().any(char::is_control));
        }
    }
}

fn fields() -> Row {
    let mut row = Row::new();
    row.insert("zeta".into(), Json::Str("a\nb".into()));
    row.insert("alpha".into(), Json::Int(7));
    row.insert("mid\tkey".into(), Json::Bool(true));
    row.insert(
        "ratio".into(),
        Json::Real(RealNumber {
            text: "2.0".into(),
            display: "2".into(),
            truncated: 2,
            unsigned: None,
            bits: 2.0_f64.to_bits(),
        }),
    );
    row.insert("list".into(), Json::Array(vec![Json::Str("\u{2028}".into())]));
    row.insert("none".into(), Json::Null);
    row
}

#[test]
fn fields_are_escaped_and_ordered_by_key() {
    let out = json_fields_to_service_fields(&fields());
    let keys: Vec<&str> = out.iter().map(|f| f.key.as_str()).collect();
    assert_eq!(keys, ["alpha", "list", "mid\\tkey", "none", "ratio", "zeta"]);
    assert_eq!(out[0].value, FieldValue::Int(7));
    assert_eq!(out[1].value, FieldValue::Any("[\"\\u{2028}\"]".into()));
    assert_eq!(out[2].value, FieldValue::Bool(true));
    assert_eq!(out[3].value, FieldValue::Any("null".into()));
    assert_eq!(out[4].value, FieldValue::Float("2".into()));
    assert_eq!(out[5].value, FieldValue::String("a\\nb".into()));
}

#[test]
fn a_record_carries_level_caller_and_escaped_texts() {
    let record = handle_message(
        "logger.warn",
        Some(Level::Warn),
        Some("a/b".into()),
        Ok(LogRequest { message: "x\ny".into(), fields: fields() }),
    )
    .unwrap();
    assert_eq!(record.level, Level::Warn);
    assert_eq!(record.caller.as_deref(), Some("a/b"));
    assert_eq!(record.message, "x\\ny");
    assert_eq!(record.fields.len(), 6);
}

#[test]
fn logger_refuses_what_it_cannot_read_or_does_not_know() {
    let e = handle_message("logger.x", None, None, Err("eof".into())).unwrap_err();
    assert_eq!(e.code, ErrorCode::InvalidArgument);
    assert_eq!(e.message, "invalid logger.log request: eof");
    let e = handle_message(
        "logger.x",
        None,
        None,
        Ok(LogRequest { message: String::new(), fields: Row::new() }),
    )
    .unwrap_err();
    assert_eq!(e.code, ErrorCode::Unimplemented);
    assert_eq!(e.message, "unknown logger operation: logger.x");
}

#[test]
fn fields_are_built_and_rendered() {
    for (field, key, text) in [
        (string("k", "v"), "k", "v"),
        (integer("k", -5), "k", "-5"),
        (float("k", "1.5".into()), "k", "1.5"),
        (bool_field("k", false), "k", "false"),
        (err("boom"), "error", "boom"),
        (any("k", "shown"), "k", "shown"),
    ] {
        let Field { key: got, value } = field;
        assert_eq!(got, key);
        assert_eq!(value.to_string(), text);
    }
    assert_eq!(integer("k", -5).value, FieldValue::Int(-5));
    assert_eq!(err("boom").value, FieldValue::Error("boom".into()));
}
