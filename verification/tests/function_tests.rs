use ai_gateway::function::{
    need_send_call_results, schema_to_json, Function, FunctionDeclaration, JsonSchema, ToolCall,
    ToolCallResult,
};
use ai_gateway::json::Json;

fn s(text: &str) -> String {
    String::from(text)
}

fn call(name: &str, id: Option<&str>) -> ToolCall {
    ToolCall::new(s(name), Json::Null, id.map(s))
}

#[test]
fn dedup_keeps_last_occurrence_in_order() {
    let calls = vec![
        ToolCall::new(s("a"), Json::Int(1), Some(s("1"))),
        call("b", Some("2")),
        ToolCall::new(s("a2"), Json::Int(2), Some(s("1"))),
        call("c", None),
    ];
    let out = ToolCall::dedup(calls);
    assert_eq!(out.len(), 3);
    assert_eq!(out[0].name, "b");
    assert_eq!(out[1].name, "a2");
    assert_eq!(out[1].arguments, Json::Int(2));
    assert_eq!(out[1].id, Some(s("1")));
    assert_eq!(out[2].name, "c");
    assert_eq!(out[2].id, None);
}

#[test]
fn dedup_drops_identical_idless_calls() {
    let calls = vec![call("x", None), call("y", None), call("x", None)];
    let out = ToolCall::dedup(calls);
    assert_eq!(out.len(), 2);
    assert_eq!(out[0].name, "y");
    assert_eq!(out[1].name, "x");
}

#[test]
fn dedup_keeps_distinct_idless_calls() {
    let calls = vec![
        ToolCall::new(s("x"), Json::Int(1), None),
        ToolCall::new(s("x"), Json::Int(2), None),
        call("y", None),
    ];
    let out = ToolCall::dedup(calls);
    assert_eq!(out.len(), 3);
    assert_eq!(out[0].arguments, Json::Int(1));
    assert_eq!(out[1].arguments, Json::Int(2));
    assert_eq!(out[2].name, "y");
}

#[test]
fn dedup_identity_reads_the_json_value_not_its_spelling() {
    let calls = vec![
        ToolCall::new(s("x"), Json::UInt(1), None),
        ToolCall::new(s("x"), Json::Int(1), None),
    ];
    let out = ToolCall::dedup(calls);
    assert_eq!(out.len(), 1);
    assert_eq!(out[0].arguments, Json::Int(1));
}

#[test]
fn dedup_leaves_unique_ids_alone() {
    let calls = vec![call("a", Some("1")), call("b", Some("2"))];
    let out = ToolCall::dedup(calls);
    assert_eq!(out.len(), 2);
    assert_eq!(out[0].name, "a");
    assert_eq!(out[1].name, "b");
}

#[test]
fn results_need_sending_only_with_output() {
    let quiet = vec![ToolCallResult::new(call("a", None), Json::Null)];
    assert!(!need_send_call_results(&quiet));
    let loud = vec![
        ToolCallResult::new(call("a", None), Json::Null),
        ToolCallResult::new(call("b", None), Json::Str(s("ok"))),
    ];
    assert!(need_send_call_results(&loud));
    assert!(!need_send_call_results(&vec![]));
}

fn weather_decl() -> FunctionDeclaration {
    FunctionDeclaration {
        name: s("get_weather"),
        description: s("Looks the weather up"),
        parameters: JsonSchema {
            type_value: s("object"),
            description: None,
            properties: Some(vec![(
                s("location"),
                JsonSchema {
                    type_value: s("string"),
                    description: Some(s("City name")),
                    properties: None,
                    enum_value: None,
                    required: None,
                },
            )]),
            enum_value: None,
            required: Some(vec![s("location")]),
        },
    }
}

#[test]
fn schema_serialises_in_declaration_order() {
    let j = schema_to_json(&weather_decl().parameters);
    assert_eq!(
        j.to_text(),
        "{\"type\":\"object\",\"properties\":{\"location\":{\"type\":\"string\",\
         \"description\":\"City name\"}},\"required\":[\"location\"]}"
    );
}

#[test]
fn select_filters_by_whole_name() {
    let f = Function::new(
        vec![
            weather_decl(),
            FunctionDeclaration {
                name: s("get_time"),
                description: s("Tells the time"),
                parameters: JsonSchema {
                    type_value: s("object"),
                    description: None,
                    properties: None,
                    enum_value: None,
                    required: None,
                },
            },
        ],
        None,
    );
    let picked = f.select("get_weather").expect("one declaration matches");
    assert_eq!(picked.len(), 1);
    assert_eq!(picked[0].name, "get_weather");
    let both = f.select("get_.*").expect("both declarations match");
    assert_eq!(both.len(), 2);
    assert_eq!(both[0].name, "get_weather");
    assert_eq!(both[1].name, "get_time");
    assert!(f.select("nothing").is_none());
    assert!(f.select("get_weath").is_none());
    assert!(f.select("(").is_none());
}
