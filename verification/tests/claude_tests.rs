use ai_gateway::claude::{
    claude_build_chat_completions_body, claude_extract_chat_completions, claude_stream_frame,
    parse_data_url,
};
use ai_gateway::client::SendData;
use ai_gateway::error::Error;
use ai_gateway::json::{parse_json, Json};
use ai_gateway::message::{ContentPart, Message, MessageContent, MessageRole};
use ai_gateway::model::Model;
use ai_gateway::stream::StreamSignal;

fn s(text: &str) -> String {
    String::from(text)
}

fn model() -> Model {
    Model::new("anthropic", "opus")
}

fn request(messages: Vec<Message>) -> SendData {
    SendData { messages, temperature: None, top_p: None, stream: false, functions: None }
}

#[test]
fn splits_data_urls() {
    let (mime, data) = parse_data_url("data:image/png;base64,AAAA").unwrap();
    assert_eq!(mime, "image/png");
    assert_eq!(data, "AAAA");
    assert!(parse_data_url("https://host/cat.png").is_none());
    assert!(parse_data_url("data:image/png").is_none());
}

#[test]
fn inline_images_build() {
    let req = request(vec![Message::PlainText {
        role: MessageRole::User,
        content: MessageContent::Parts(vec![
            ContentPart::Text { text: s("look") },
            ContentPart::ImageUrl { url: s("data:image/png;base64,QUJD") },
        ]),
    }]);
    let body = claude_build_chat_completions_body(req, &model()).expect("inline data is fine");
    assert_eq!(
        body.to_text(),
        "{\"model\":\"opus\",\"messages\":[{\"role\":\"user\",\"content\":\
         [{\"type\":\"text\",\"text\":\"look\"},{\"type\":\"image\",\"source\":\
         {\"type\":\"base64\",\"media_type\":\"image/png\",\"data\":\"QUJD\"}}]}]}"
    );
}

#[test]
fn network_images_are_rejected_with_every_url() {
    let req = request(vec![Message::PlainText {
        role: MessageRole::User,
        content: MessageContent::Parts(vec![
            ContentPart::ImageUrl { url: s("https://a/1.png") },
            ContentPart::ImageUrl { url: s("data:image/png;base64,AA") },
            ContentPart::ImageUrl { url: s("http://b/2.jpg") },
        ]),
    }]);
    match claude_build_chat_completions_body(req, &model()) {
        Err(Error::MalformedInput { urls }) => {
            assert_eq!(urls, vec![s("https://a/1.png"), s("http://b/2.jpg")]);
        },
        other => panic!("expected MalformedInput, got {:?}", other),
    }
}

#[test]
fn system_message_moves_to_the_top_level() {
    let req = SendData {
        messages: vec![Message::system("Be terse."), Message::user("Hi")],
        temperature: Some(Json::Num(s("0.7"))),
        top_p: None,
        stream: true,
        functions: None,
    };
    let body = claude_build_chat_completions_body(req, &model()).unwrap();
    assert_eq!(
        body.to_text(),
        "{\"model\":\"opus\",\"messages\":[{\"role\":\"user\",\"content\":\"Hi\"}],\
         \"system\":\"Be terse.\",\"temperature\":0.7,\"stream\":true}"
    );
}

#[test]
fn every_system_message_is_extracted_and_joined() {
    let req = request(vec![
        Message::user("Hi"),
        Message::system("Be terse."),
        Message::user("More"),
        Message::system("Answer in French."),
    ]);
    let body = claude_build_chat_completions_body(req, &model()).unwrap();
    assert_eq!(
        body.to_text(),
        "{\"model\":\"opus\",\"messages\":[{\"role\":\"user\",\"content\":\"Hi\"},\
         {\"role\":\"user\",\"content\":\"More\"}],\
         \"system\":\"Be terse.\\n\\nAnswer in French.\"}"
    );
}

#[test]
fn error_envelopes_surface_from_unary_bodies() {
    let data = parse_json(
        "{\"type\":\"error\",\"error\":{\"type\":\"overloaded_error\",\
         \"message\":\"busy\"}}",
    )
    .unwrap();
    match claude_extract_chat_completions(&data) {
        Err(Error::UpstreamError { code, message }) => {
            assert_eq!(code, Some(s("overloaded_error")));
            assert_eq!(message, "busy");
        },
        other => panic!("expected UpstreamError, got {:?}", other),
    }
}

#[test]
fn system_text_survives_the_round_trip() {
    let req = request(vec![Message::system("You are terse"), Message::user("Hi")]);
    let body = claude_build_chat_completions_body(req, &model()).unwrap();
    let system = body.get("system").and_then(|v| v.as_str()).unwrap().clone();
    let echo = Json::Obj(vec![(
        s("content"),
        Json::Arr(vec![Json::Obj(vec![
            (s("type"), Json::Str(s("text"))),
            (s("text"), Json::Str(system)),
        ])]),
    )]);
    let out = claude_extract_chat_completions(&echo).unwrap();
    assert_eq!(out.text, "You are terse");
    assert!(out.tool_calls.is_empty());
}

#[test]
fn tool_results_become_a_paired_exchange() {
    let call = ai_gateway::function::ToolCall::new(
        s("get_weather"),
        Json::Obj(vec![(s("city"), Json::Str(s("Paris")))]),
        Some(s("t1")),
    );
    let result = ai_gateway::function::ToolCallResult::new(call, Json::Str(s("sunny")));
    let req = request(vec![Message::PlainText {
        role: MessageRole::Assistant,
        content: MessageContent::ToolResults(vec![result], s("checking")),
    }]);
    let body = claude_build_chat_completions_body(req, &model()).unwrap();
    assert_eq!(
        body.to_text(),
        "{\"model\":\"opus\",\"messages\":[{\"role\":\"assistant\",\"content\":\
         [{\"type\":\"text\",\"text\":\"checking\"},{\"type\":\"tool_use\",\"id\":\"t1\",\
         \"name\":\"get_weather\",\"input\":{\"city\":\"Paris\"}}]},{\"role\":\"user\",\
         \"content\":[{\"type\":\"tool_result\",\"tool_use_id\":\"t1\",\
         \"content\":\"\\\"sunny\\\"\"}]}]}"
    );
}

#[test]
fn declared_functions_ride_as_tools() {
    let decl = ai_gateway::function::FunctionDeclaration {
        name: s("f"),
        description: s("does f"),
        parameters: ai_gateway::function::JsonSchema {
            type_value: s("object"),
            description: None,
            properties: None,
            enum_value: None,
            required: None,
        },
    };
    let req = SendData {
        messages: vec![Message::user("Hi")],
        temperature: None,
        top_p: None,
        stream: false,
        functions: Some(vec![decl]),
    };
    let body = claude_build_chat_completions_body(req, &model()).unwrap();
    assert_eq!(
        body.to_text(),
        "{\"model\":\"opus\",\"messages\":[{\"role\":\"user\",\"content\":\"Hi\"}],\
         \"tools\":[{\"name\":\"f\",\"description\":\"does f\",\
         \"input_schema\":{\"type\":\"object\"}}]}"
    );
}

#[test]
fn unary_body_with_text_and_usage_extracts() {
    let data = parse_json(
        "{\"content\":[{\"type\":\"text\",\"text\":\"Hello\"}],\
         \"usage\":{\"input_tokens\":3,\"output_tokens\":1}}",
    )
    .unwrap();
    let out = claude_extract_chat_completions(&data).unwrap();
    assert_eq!(out.text, "Hello");
    assert!(out.tool_calls.is_empty());
    assert_eq!(out.input_tokens, Some(3));
    assert_eq!(out.output_tokens, Some(1));
    assert_eq!(out.id, None);
}

#[test]
fn empty_content_is_an_invalid_response() {
    let data = parse_json("{\"content\":[]}").unwrap();
    match claude_extract_chat_completions(&data) {
        Err(Error::InvalidResponse) => {},
        other => panic!("expected InvalidResponse, got {:?}", other),
    }
}

#[test]
fn tool_use_blocks_extract_as_calls() {
    let data = parse_json(
        "{\"content\":[{\"type\":\"text\",\"text\":\"on it\"},{\"type\":\"tool_use\",\
         \"id\":\"c1\",\"name\":\"f\",\"input\":{\"a\":1}}],\"id\":\"resp\"}",
    )
    .unwrap();
    let out = claude_extract_chat_completions(&data).unwrap();
    assert_eq!(out.text, "on it");
    assert_eq!(out.tool_calls.len(), 1);
    assert_eq!(out.tool_calls[0].name, "f");
    assert_eq!(out.tool_calls[0].id, Some(s("c1")));
    assert_eq!(out.tool_calls[0].arguments, Json::Obj(vec![(s("a"), Json::Int(1))]));
    assert_eq!(out.id, Some(s("resp")));
}

#[test]
fn stream_frames_classify() {
    let start = claude_stream_frame(
        "{\"type\":\"content_block_start\",\"content_block\":\
         {\"type\":\"tool_use\",\"name\":\"f\",\"id\":\"1\"}}",
    )
    .unwrap();
    assert_eq!(start, StreamSignal::ToolCallStart(s("f"), s("1")));
    let text = claude_stream_frame(
        "{\"type\":\"content_block_delta\",\"delta\":{\"text\":\"hey\"}}",
    )
    .unwrap();
    assert_eq!(text, StreamSignal::TextDelta(s("hey")));
    let frag = claude_stream_frame(
        "{\"type\":\"content_block_delta\",\"delta\":{\"partial_json\":\"{\\\"a\\\":\"}}",
    )
    .unwrap();
    assert_eq!(frag, StreamSignal::ToolCallFragment(s("{\"a\":")));
    let stop = claude_stream_frame("{\"type\":\"content_block_stop\"}").unwrap();
    assert_eq!(stop, StreamSignal::ToolCallClosed);
    let other = claude_stream_frame("{\"type\":\"message_start\"}").unwrap();
    assert_eq!(other, StreamSignal::Ignore);
    assert!(matches!(claude_stream_frame("not json"), Err(Error::InvalidResponse)));
}
