use ai_gateway::client::SendData;
use ai_gateway::error::Error;
use ai_gateway::json::{parse_json, Json};
use ai_gateway::message::{Message, MessageRole};
use ai_gateway::ollama::{ollama_build_body, ollama_extract_chat_completions, ollama_stream_frame};
use ai_gateway::openai::{
    openai_build_body, openai_extract_chat_completions, openai_stream_frame,
};
use ai_gateway::qianwen::{
    qianwen_build_body, qianwen_extract_chat_completions, qianwen_stream_frame,
};
use ai_gateway::stream::StreamSignal;

fn s(text: &str) -> String {
    String::from(text)
}

fn chat(stream: bool) -> SendData {
    SendData {
        messages: vec![Message::user("Hi")],
        temperature: None,
        top_p: None,
        stream,
        functions: None,
    }
}

#[test]
fn openai_body_keeps_roles_inline() {
    let data = SendData {
        messages: vec![Message::system("Be kind."), Message::user("Hi")],
        temperature: Some(Json::Num(s("0.5"))),
        top_p: None,
        stream: true,
        functions: None,
    };
    let body = openai_build_body(data, s("gpt-4-turbo-preview"));
    assert_eq!(
        body.to_text(),
        "{\"model\":\"gpt-4-turbo-preview\",\"messages\":[{\"role\":\"system\",\
         \"content\":\"Be kind.\"},{\"role\":\"user\",\"content\":\"Hi\"}],\
         \"temperature\":0.5,\"stream\":true}"
    );
}

#[test]
fn openai_body_embeds_tool_results() {
    let data = SendData {
        messages: vec![Message::function_return(Some(s("t1")), "f", "42")],
        temperature: None,
        top_p: None,
        stream: false,
        functions: None,
    };
    let body = openai_build_body(data, s("m"));
    assert_eq!(
        body.to_text(),
        "{\"model\":\"m\",\"messages\":[{\"role\":\"function\",\"content\":\
         [{\"type\":\"tool_result\",\"tool_use_id\":\"t1\",\"content\":\"42\"}]}]}"
    );
}

#[test]
fn openai_tools_wrap_each_function() {
    let decl = ai_gateway::function::FunctionDeclaration {
        name: s("f"),
        description: s("does f"),
        parameters: ai_gateway::function::JsonSchema {
            type_value: s("object"),
            description: None,
            properties: None,
            enum_value: None,
            required: None,
        },
    };
    let data = SendData {
        messages: vec![Message::user("Hi")],
        temperature: None,
        top_p: None,
        stream: false,
        functions: Some(vec![decl]),
    };
    let body = openai_build_body(data, s("m"));
    assert_eq!(
        body.to_text(),
        "{\"model\":\"m\",\"messages\":[{\"role\":\"user\",\"content\":\"Hi\"}],\
         \"tools\":[{\"type\":\"function\",\"function\":{\"name\":\"f\",\
         \"description\":\"does f\",\"parameters\":{\"type\":\"object\"}}}]}"
    );
}

#[test]
fn openai_represents_requested_calls() {
    let call = ai_gateway::function_calling::FunctionCall {
        name: s("f"),
        arguments: Json::Obj(vec![(s("a"), Json::Int(1))]),
    };
    let data = SendData {
        messages: vec![Message::function_call(Some(s("c1")), &call)],
        temperature: None,
        top_p: None,
        stream: false,
        functions: None,
    };
    let body = openai_build_body(data, s("m"));
    assert_eq!(
        body.to_text(),
        "{\"model\":\"m\",\"messages\":[{\"role\":\"assistant\",\"content\":null,\
         \"tool_calls\":[{\"id\":\"c1\",\"type\":\"function\",\"function\":\
         {\"name\":\"f\",\"arguments\":\"{\\\"a\\\":1}\"}}]}]}"
    );
}

#[test]
fn openai_represents_parts_and_network_images() {
    let data = SendData {
        messages: vec![Message::PlainText {
            role: MessageRole::User,
            content: ai_gateway::message::MessageContent::Parts(vec![
                ai_gateway::message::ContentPart::Text { text: s("look") },
                ai_gateway::message::ContentPart::ImageUrl { url: s("https://a/1.png") },
            ]),
        }],
        temperature: None,
        top_p: None,
        stream: false,
        functions: None,
    };
    let body = openai_build_body(data, s("m"));
    assert_eq!(
        body.to_text(),
        "{\"model\":\"m\",\"messages\":[{\"role\":\"user\",\"content\":\
         [{\"type\":\"text\",\"text\":\"look\"},{\"type\":\"image_url\",\
         \"image_url\":{\"url\":\"https://a/1.png\"}}]}]}"
    );
}

#[test]
fn openai_represents_result_batches() {
    let call = ai_gateway::function::ToolCall::new(s("f"), Json::Null, Some(s("t1")));
    let result = ai_gateway::function::ToolCallResult::new(call, Json::Str(s("ok")));
    let data = SendData {
        messages: vec![Message::PlainText {
            role: MessageRole::Assistant,
            content: ai_gateway::message::MessageContent::ToolResults(vec![result], s("done")),
        }],
        temperature: None,
        top_p: None,
        stream: false,
        functions: None,
    };
    let body = openai_build_body(data, s("m"));
    assert_eq!(
        body.to_text(),
        "{\"model\":\"m\",\"messages\":[{\"role\":\"assistant\",\"content\":\"done\"},\
         {\"role\":\"assistant\",\"content\":[{\"type\":\"tool_result\",\
         \"tool_use_id\":\"t1\",\"content\":\"\\\"ok\\\"\"}]}]}"
    );
}

#[test]
fn openai_error_envelope_surfaces() {
    let data = parse_json("{\"error\":{\"message\":\"quota gone\"}}").unwrap();
    match openai_extract_chat_completions(&data) {
        Err(Error::UpstreamError { code, message }) => {
            assert_eq!(code, None);
            assert_eq!(message, "quota gone");
        },
        other => panic!("expected UpstreamError, got {:?}", other),
    }
}

#[test]
fn openai_content_and_calls_extract() {
    let data = parse_json(
        "{\"choices\":[{\"message\":{\"content\":\"sure\",\"tool_calls\":[{\"id\":\"c1\",\
         \"function\":{\"name\":\"f\",\"arguments\":\"{\\\"a\\\":1}\"}}]}}]}",
    )
    .unwrap();
    let out = openai_extract_chat_completions(&data).unwrap();
    assert_eq!(out.len(), 2);
    match &out[0] {
        Message::FunctionCall { id, role, function_call } => {
            assert_eq!(id.as_deref(), Some("c1"));
            assert_eq!(*role, MessageRole::Assistant);
            assert_eq!(function_call.name, "f");
            assert_eq!(function_call.arguments, Json::Obj(vec![(s("a"), Json::Int(1))]));
        },
        other => panic!("expected a requested call, got {:?}", other),
    }
    match &out[1] {
        Message::PlainText { role, content } => {
            assert_eq!(*role, MessageRole::Assistant);
            assert_eq!(
                *content,
                ai_gateway::message::MessageContent::Text(s("sure"))
            );
        },
        other => panic!("expected plain text, got {:?}", other),
    }
}

#[test]
fn openai_empty_choice_is_invalid() {
    let data = parse_json("{\"choices\":[{\"message\":{}}]}").unwrap();
    assert!(matches!(openai_extract_chat_completions(&data), Err(Error::InvalidResponse)));
}

#[test]
fn openai_stream_frames_classify() {
    assert_eq!(openai_stream_frame("[DONE]").unwrap(), StreamSignal::Done);
    let text = openai_stream_frame(
        "{\"choices\":[{\"delta\":{\"content\":\"Hi\"}}]}",
    )
    .unwrap();
    assert_eq!(text, StreamSignal::TextDelta(s("Hi")));
    assert_eq!(openai_stream_frame("{\"choices\":[]}").unwrap(), StreamSignal::Ignore);
    assert!(matches!(openai_stream_frame("garbage"), Err(Error::InvalidResponse)));
}

#[test]
fn qianwen_body_nests_input_and_parameters() {
    let body = qianwen_build_body(chat(true), s("qwen-max"));
    assert_eq!(
        body.to_text(),
        "{\"model\":\"qwen-max\",\"input\":{\"messages\":[{\"role\":\"user\",\
         \"content\":\"Hi\"}]},\"parameters\":{\"incremental_output\":true}}"
    );
}

#[test]
fn qianwen_renders_requested_calls_as_text() {
    let call = ai_gateway::function_calling::FunctionCall {
        name: s("f"),
        arguments: Json::Obj(vec![(s("a"), Json::Int(1))]),
    };
    let data = SendData {
        messages: vec![Message::function_call(None, &call)],
        temperature: None,
        top_p: None,
        stream: false,
        functions: None,
    };
    let body = qianwen_build_body(data, s("qwen-max"));
    assert_eq!(
        body.to_text(),
        "{\"model\":\"qwen-max\",\"input\":{\"messages\":[{\"role\":\"assistant\",\
         \"content\":\"Function call: f with arguments: {\\\"a\\\":1}\"}]},\
         \"parameters\":{}}"
    );
}

#[test]
fn qianwen_code_and_message_surface() {
    let data = parse_json("{\"code\":\"Throttling\",\"message\":\"too fast\"}").unwrap();
    match qianwen_extract_chat_completions(&data) {
        Err(Error::UpstreamError { code, message }) => {
            assert_eq!(code, Some(s("Throttling")));
            assert_eq!(message, "too fast");
        },
        other => panic!("expected UpstreamError, got {:?}", other),
    }
}

#[test]
fn qianwen_output_text_extracts() {
    let data = parse_json("{\"output\":{\"text\":\"hello\"}}").unwrap();
    let out = qianwen_extract_chat_completions(&data).unwrap();
    assert_eq!(out.len(), 1);
    assert_eq!(out[0], Message::assistant("hello"));
    let bad = parse_json("{\"output\":{}}").unwrap();
    assert!(matches!(qianwen_extract_chat_completions(&bad), Err(Error::InvalidResponse)));
}

#[test]
fn qianwen_stream_frames_classify() {
    let err = qianwen_stream_frame("{\"code\":\"X\",\"message\":\"boom\"}").unwrap();
    assert_eq!(err, StreamSignal::ErrorFrame(Some(s("X")), s("boom")));
    let text = qianwen_stream_frame("{\"output\":{\"text\":\"hey\"}}").unwrap();
    assert_eq!(text, StreamSignal::TextDelta(s("hey")));
    assert_eq!(qianwen_stream_frame("{}").unwrap(), StreamSignal::Ignore);
}

#[test]
fn ollama_body_always_writes_the_stream_flag() {
    let body = ollama_build_body(chat(false), s("llama3"));
    assert_eq!(
        body.to_text(),
        "{\"model\":\"llama3\",\"messages\":[{\"role\":\"user\",\"content\":\"Hi\"}],\
         \"stream\":false}"
    );
    let data = SendData {
        messages: vec![Message::user("Hi")],
        temperature: Some(Json::Num(s("0.2"))),
        top_p: None,
        stream: true,
        functions: None,
    };
    let with_options = ollama_build_body(data, s("llama3"));
    assert_eq!(
        with_options.to_text(),
        "{\"model\":\"llama3\",\"messages\":[{\"role\":\"user\",\"content\":\"Hi\"}],\
         \"stream\":true,\"options\":{\"temperature\":0.2}}"
    );
}

#[test]
fn ollama_tags_requested_calls() {
    let call = ai_gateway::function_calling::FunctionCall {
        name: s("f"),
        arguments: Json::Int(7),
    };
    let data = SendData {
        messages: vec![Message::function_call(Some(s("c1")), &call)],
        temperature: None,
        top_p: None,
        stream: false,
        functions: None,
    };
    let body = ollama_build_body(data, s("llama3"));
    assert_eq!(
        body.to_text(),
        "{\"model\":\"llama3\",\"messages\":[{\"role\":\"assistant\",\
         \"type\":\"function_call\",\"function_call\":{\"name\":\"f\",\
         \"arguments\":7}}],\"stream\":false}"
    );
}

#[test]
fn ollama_message_content_extracts() {
    let data = parse_json("{\"message\":{\"content\":\"hi there\"}}").unwrap();
    let out = ollama_extract_chat_completions(&data).unwrap();
    assert_eq!(out, vec![Message::assistant("hi there")]);
    let bad = parse_json("{\"message\":{}}").unwrap();
    assert!(matches!(ollama_extract_chat_completions(&bad), Err(Error::InvalidResponse)));
}

#[test]
fn ollama_chunks_need_the_done_flag() {
    let text = ollama_stream_frame(
        "{\"done\":false,\"message\":{\"content\":\"chunk\"}}",
    )
    .unwrap();
    assert_eq!(text, StreamSignal::TextDelta(s("chunk")));
    assert_eq!(ollama_stream_frame("{\"done\":true}").unwrap(), StreamSignal::Ignore);
    assert!(matches!(ollama_stream_frame("{\"x\":1}"), Err(Error::InvalidResponse)));
    assert!(matches!(ollama_stream_frame("junk"), Err(Error::InvalidResponse)));
}
