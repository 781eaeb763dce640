use ai_gateway::json::{json_eq, parse_json, Json};

fn s(text: &str) -> String {
    String::from(text)
}

#[test]
fn serializes_scalars() {
    assert_eq!(Json::Null.to_text(), "null");
    assert_eq!(Json::Bool(true).to_text(), "true");
    assert_eq!(Json::Bool(false).to_text(), "false");
    assert_eq!(Json::Int(42).to_text(), "42");
    assert_eq!(Json::Int(-7).to_text(), "-7");
    assert_eq!(Json::Int(i64::MIN).to_text(), "-9223372036854775808");
    assert_eq!(Json::UInt(u64::MAX).to_text(), "18446744073709551615");
    assert_eq!(Json::Str(s("hi")).to_text(), "\"hi\"");
}

#[test]
fn serializes_composites() {
    let arr = Json::Arr(vec![Json::Int(1), Json::Int(2), Json::Null]);
    assert_eq!(arr.to_text(), "[1,2,null]");
    let obj = Json::Obj(vec![(s("a"), Json::Int(1)), (s("b"), Json::Str(s("x")))]);
    assert_eq!(obj.to_text(), "{\"a\":1,\"b\":\"x\"}");
    let empty_obj = Json::Obj(vec![]);
    assert_eq!(empty_obj.to_text(), "{}");
}

#[test]
fn escapes_strings() {
    let text = Json::Str(s("a\"b\\c\nd\te\r\u{8}\u{c}\u{1}"));
    assert_eq!(text.to_text(), "\"a\\\"b\\\\c\\nd\\te\\r\\b\\f\\u0001\"");
}

#[test]
fn serialized_text_reads_back_in_serde() {
    let obj = Json::Obj(vec![
        (s("k"), Json::Arr(vec![Json::Str(s("line\n\"quoted\"")), Json::Int(-3)])),
        (s("n"), Json::Null),
    ]);
    let text = obj.to_text();
    let v: serde_json::Value = serde_json::from_str(&text).expect("own output must be JSON");
    assert_eq!(v["k"][0], serde_json::Value::String(String::from("line\n\"quoted\"")));
    assert_eq!(v["k"][1], serde_json::Value::from(-3));
    assert!(v["n"].is_null());
}

#[test]
fn parses_values() {
    let j = parse_json("{\"a\":1,\"b\":[true,null,\"x\"]}").unwrap();
    let expected = Json::Obj(vec![
        (s("a"), Json::Int(1)),
        (
            s("b"),
            Json::Arr(vec![Json::Bool(true), Json::Null, Json::Str(s("x"))]),
        ),
    ]);
    assert_eq!(j, expected);
}

#[test]
fn parse_rejects_what_is_not_json() {
    assert!(parse_json("not json").is_none());
    assert!(parse_json("{\"a\":").is_none());
    assert!(parse_json("").is_none());
}

#[test]
fn accessors_read_the_tree() {
    let j = parse_json("{\"usage\":{\"input_tokens\":3},\"id\":\"r1\",\"done\":false}").unwrap();
    assert_eq!(j.get("id").and_then(|v| v.as_str()).map(|v| v.as_str()), Some("r1"));
    assert_eq!(j.get("usage").and_then(|u| u.get("input_tokens")).and_then(|v| v.as_u64()), Some(3));
    assert_eq!(j.get("done").and_then(|v| v.as_bool()), Some(false));
    assert!(j.get("missing").is_none());
    assert!(!j.is_null());
}

#[test]
fn lookup_takes_the_first_entry_with_a_key() {
    let j = Json::Obj(vec![(s("a"), Json::Int(1)), (s("a"), Json::Int(2))]);
    assert_eq!(j.get("a"), Some(&Json::Int(1)));
}

#[test]
fn equality_follows_the_denoted_value() {
    assert!(json_eq(&Json::Int(5), &Json::UInt(5)));
    assert!(!json_eq(&Json::Int(1), &Json::Num(s("1"))));
    assert!(!json_eq(&Json::Int(-1), &Json::UInt(u64::MAX)));
    let a = parse_json("{\"k\":[1,{\"n\":null}]}").unwrap();
    let b = parse_json("{\"k\":[1,{\"n\":null}]}").unwrap();
    let c = parse_json("{\"k\":[1,{\"n\":2}]}").unwrap();
    assert!(json_eq(&a, &b));
    assert!(!json_eq(&a, &c));
}

#[test]
fn parse_then_serialize_round_trips() {
    let text = "{\"a\":[1,2,{\"b\":\"c\"}],\"d\":null}";
    let j = parse_json(text).unwrap();
    assert_eq!(j.to_text(), text);
}
