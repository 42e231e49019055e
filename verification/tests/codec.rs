use wafer_core::database::codec::{
    decode_text, first_scalar, record_from_json_row, record_id, scalar_i64, JsonColumns,
};
use wafer_core::json::{parse, Json, RealNumber};

fn half() -> Json {
    Json::Real(RealNumber {
        text: "2.5".into(),
        display: "2.5".into(),
        truncated: 2,
        unsigned: None,
        bits: 2.5_f64.to_bits(),
    })
}

#[test]
fn json_is_read_and_written_as_serde_json_does() {
    let text = r#"{"a":[1,null,true,"x\n\"y\""],"b":{},"c":2.5,"d":18446744073709551615}"#;
    let value = parse(text).unwrap();
    assert_eq!(value.to_text(), text);
    match &value {
        Json::Object(entries) => {
            let keys: Vec<&str> = entries.iter().map(|(k, _)| k.as_str()).collect();
            assert_eq!(keys, ["a", "b", "c", "d"]);
            assert_eq!(entries[2].1, half());
            assert_eq!(entries[3].1.as_u64(), Some(u64::MAX));
            assert_eq!(entries[3].1.as_i64(), None);
        }
        other => panic!("{other:?}"),
    }
    assert!(parse("{").is_none());
    assert!(value.same(&value.clone()));
    assert!(!value.same(&Json::Null));
    let made = Json::from_value(serde_json::Value::from(vec![1, 2]));
    assert_eq!(made, Json::Array(vec![Json::Int(1), Json::Int(2)]));
}

#[test]
fn only_json_columns_are_parsed() {
    let json = JsonColumns::new(vec!["doc".into()]);
    assert!(json.contains("doc") && !json.contains("note") && !json.is_empty());
    assert!(JsonColumns::none().is_empty());
    assert_eq!(decode_text("note", "[1]", &json), Json::Str("[1]".into()));
    assert_eq!(decode_text("doc", "[1]", &json), Json::Array(vec![Json::Int(1)]));
    assert_eq!(decode_text("doc", "not json", &json), Json::Str("not json".into()));
}

#[test]
fn rows_become_records() {
    let row = Json::Object(vec![
        ("doc".into(), Json::Str("{\"k\":1}".into())),
        ("id".into(), Json::Int(7)),
        ("note".into(), Json::Str("{}".into())),
    ]);
    let record = record_from_json_row(row, &JsonColumns::new(vec!["doc".into()]));
    assert_eq!(record.id, "7");
    assert_eq!(
        record.data.get("doc"),
        Some(&Json::Object(vec![("k".into(), Json::Int(1))]))
    );
    assert_eq!(record.data.get("note"), Some(&Json::Str("{}".into())));
    assert_eq!(record_id(&Json::Str("a".into())), "a");
    assert_eq!(record_id(&Json::Bool(true)), "");
}

#[test]
fn the_first_column_is_the_scalar() {
    let row = Json::Object(vec![("n".into(), Json::Int(3)), ("z".into(), Json::Int(9))]);
    assert_eq!(first_scalar(row), Some(Json::Int(3)));
    let of = |value: Json| scalar_i64(Some(Json::Object(vec![("n".into(), value)])));
    assert_eq!(of(Json::Int(3)), 3);
    assert_eq!(of(half()), 2);
    assert_eq!(of(Json::Str("x".into())), 0);
    assert_eq!(scalar_i64(None), 0);
}

#[test]
fn only_texts_and_integers_are_keys() {
    let of = |text: &str| record_id(&parse(text).expect("JSON"));
    assert_eq!(of("42"), "42");
    assert_eq!(of("-7"), "-7");
    assert_eq!(of("18446744073709551615"), "18446744073709551615");
    assert_eq!(of("\"a b\""), "a b");
    for other in ["1.5", "1e300", "null", "true", "[1]", "{}"] {
        assert_eq!(of(other), "", "{other}");
    }
}

#[test]
fn texts_are_quoted_with_the_escapes_of_json() {
    let quoted = |text: &str| Json::Str(text.into()).to_text();
    assert_eq!(quoted(""), "\"\"");
    assert_eq!(quoted("a \u{7f}\u{e9}/"), "\"a \u{7f}\u{e9}/\"");
    assert_eq!(quoted("\"\\\u{8}\t\n\u{c}\r"), r#""\"\\\b\t\n\f\r""#);
    assert_eq!(quoted("\0\u{1f}"), r#""\u0000\u001f""#);
}
