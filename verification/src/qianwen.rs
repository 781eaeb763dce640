//! The Qianwen (DashScope) adapter: messages nest under `input`, sampling
//! under `parameters`, and errors ride in-band as a code and a message.

use vstd::prelude::*;
use crate::client::{
    content_text, decls_jv, decls_to_json, jv_field, ExtraConfig, SendData, SendDataV,
};
use crate::error::Error;
use crate::function_calling::FunctionCallV;
use crate::json::{
    json_parse, jv_text, lemma_deep_elems, lemma_deep_entries, parse_json, Json, JsonV,
};
use crate::message::{Message, MessageContentV, MessageRole, MessageV};
use crate::model::{Model, ModelCapabilities, ModelV};
use crate::stream::{StreamSignal, StreamSignalV};

verus! {

/// How the Qianwen provider is configured.
#[derive(Debug, Clone)]
pub struct QianwenConfig {
    pub name: Option<String>,
    pub api_key: Option<String>,
    pub extra: Option<ExtraConfig>,
}

/// A Qianwen provider bound to one model.
#[derive(Debug)]
pub struct QianwenClient {
    pub config: QianwenConfig,
    pub model: Model,
}

/// The catalogue this provider hard-codes, under the given provider name.
pub open spec fn qianwen_models(cn: Seq<char>) -> Seq<ModelV> {
    seq![
        ModelV {
            client_name: cn,
            name: "qwen-max"@,
            capabilities: ModelCapabilities { text: true, vision: false },
            max_input_tokens: Some(6000usize),
            max_tokens: None,
            tokens_count_factors: (4usize, 14usize),
        },
        ModelV {
            client_name: cn,
            name: "qwen-max-longcontext"@,
            capabilities: ModelCapabilities { text: true, vision: false },
            max_input_tokens: Some(28000usize),
            max_tokens: None,
            tokens_count_factors: (4usize, 14usize),
        },
        ModelV {
            client_name: cn,
            name: "qwen-plus"@,
            capabilities: ModelCapabilities { text: true, vision: false },
            max_input_tokens: Some(30000usize),
            max_tokens: None,
            tokens_count_factors: (4usize, 14usize),
        },
        ModelV {
            client_name: cn,
            name: "qwen-turbo"@,
            capabilities: ModelCapabilities { text: true, vision: false },
            max_input_tokens: Some(6000usize),
            max_tokens: None,
            tokens_count_factors: (4usize, 14usize),
        },
    ]
}

/// One catalogue entry.
fn qianwen_model(cn: &str, name: &str, max_input: usize) -> (r: Model)
    ensures
        r.deep_view() == (ModelV {
            client_name: cn@,
            name: name@,
            capabilities: ModelCapabilities { text: true, vision: false },
            max_input_tokens: Some(max_input),
            max_tokens: None,
            tokens_count_factors: (4usize, 14usize),
        }),
{
    Model::new(cn, name).set_capabilities(ModelCapabilities { text: true, vision: false })
        .set_max_input_tokens(Some(max_input))
        .set_tokens_count_factors((4, 14))
}

impl QianwenClient {
    /// The models this provider offers, under its configured name.
    pub fn list_models(local_config: &QianwenConfig) -> (r: Vec<Model>)
        ensures
            r.deep_view() == qianwen_models(
                crate::openai::display_name(local_config.name.deep_view(), "qianwen"@),
            ),
    {
        let cn: &str = match &local_config.name {
            Some(n) => n.as_str(),
            None => "qianwen",
        };
        let mut out: Vec<Model> = Vec::new();
        out.push(qianwen_model(cn, "qwen-max", 6000));
        out.push(qianwen_model(cn, "qwen-max-longcontext", 28000));
        out.push(qianwen_model(cn, "qwen-plus", 30000));
        out.push(qianwen_model(cn, "qwen-turbo", 6000));
        proof {
            assert(out.deep_view() =~= qianwen_models(
                crate::openai::display_name(local_config.name.deep_view(), "qianwen"@),
            ));
        }
        out
    }
}

/// How a requested call reads as plain content text.
pub open spec fn call_desc(fc: FunctionCallV) -> Seq<char> {
    "Function call: "@ + fc.name + " with arguments: "@ + jv_text(fc.arguments)
}

/// The wire form of one message: role and content text; a requested call
/// becomes a line describing it.
pub open spec fn qianwen_msg_of(m: MessageV) -> JsonV {
    match m {
        MessageV::FunctionReturn { id: _, role, name: _, content } => JsonV::Obj(
            seq![("role"@, JsonV::Str(role.wire_name())), ("content"@, JsonV::Str(content))],
        ),
        MessageV::FunctionCall { id: _, role, function_call } => JsonV::Obj(
            seq![
                ("role"@, JsonV::Str(role.wire_name())),
                ("content"@, JsonV::Str(call_desc(function_call))),
            ],
        ),
        MessageV::PlainText { role, content } => JsonV::Obj(
            seq![
                ("role"@, JsonV::Str(role.wire_name())),
                ("content"@, JsonV::Str(content_text(content))),
            ],
        ),
    }
}

/// The wire messages of a whole conversation, one per message.
pub open spec fn qianwen_wire_msgs(ms: Seq<MessageV>) -> Seq<JsonV> {
    Seq::new(ms.len(), |i: int| qianwen_msg_of(ms[i]))
}

/// The request body for the Qianwen wire format.
pub open spec fn qianwen_body(d: SendDataV, model: Seq<char>) -> JsonV {
    JsonV::Obj(
        seq![
            ("model"@, JsonV::Str(model)),
            (
                "input"@,
                JsonV::Obj(seq![("messages"@, JsonV::Arr(qianwen_wire_msgs(d.messages)))]),
            ),
            (
                "parameters"@,
                JsonV::Obj(
                    (match d.temperature {
                        Some(t) => seq![("temperature"@, t)],
                        None => Seq::empty(),
                    }) + (if d.stream {
                        seq![("incremental_output"@, JsonV::Bool(true))]
                    } else {
                        Seq::empty()
                    }),
                ),
            ),
        ] + (match d.functions {
            Some(fs) => seq![("functions"@, JsonV::Arr(decls_jv(fs, "parameters"@)))],
            None => Seq::empty(),
        }),
    )
}

/// Builds the request body for the Qianwen wire format.
pub fn qianwen_build_body(data: SendData, model: String) -> (r: Json)
    ensures
        r.deep() == qianwen_body(data.deep_view(), model@),
{
    let ghost dv = data.deep_view();
    let SendData { messages, temperature, top_p: _, stream, functions } = data;
    let mut wire: Vec<Json> = Vec::new();
    let mut i: usize = 0;
    proof {
        assert(dv.messages.len() == messages@.len());
    }
    while i < messages.len()
        invariant
            i <= messages@.len(),
            wire@.len() == i,
            dv.messages == messages.deep_view(),
            dv.messages.len() == messages@.len(),
            forall|j: int|
                0 <= j < i ==> (#[trigger] wire@[j].deep()) == qianwen_msg_of(dv.messages[j]),
        decreases messages@.len() - i,
    {
        let content: String = match &messages[i] {
            Message::FunctionReturn { id: _, role: _, name: _, content } => content.clone(),
            Message::FunctionCall { id: _, role: _, function_call } => {
                let mut s = String::from_str("Function call: ");
                s.append(function_call.name.as_str());
                s.append(" with arguments: ");
                let args = function_call.arguments.to_text();
                s.append(args.as_str());
                s
            },
            Message::PlainText { role: _, content } => crate::client::content_text_exec(content),
        };
        let role: &MessageRole = match &messages[i] {
            Message::FunctionReturn { role, .. } => role,
            Message::FunctionCall { role, .. } => role,
            Message::PlainText { role, .. } => role,
        };
        let mut entries: Vec<(String, Json)> = Vec::new();
        entries.push((String::from_str("role"), Json::Str(role.as_text())));
        entries.push((String::from_str("content"), Json::Str(content)));
        let m = Json::Obj(entries);
        proof {
            lemma_deep_entries(m->Obj_0@);
            assert(m.deep()->Obj_0 =~= qianwen_msg_of(dv.messages[i as int])->Obj_0);
        }
        wire.push(m);
        i = i + 1;
    }
    proof {
        lemma_deep_elems(wire@);
        assert(Json::deep_elems(wire@) =~= qianwen_wire_msgs(dv.messages));
    }
    let mut input_entries: Vec<(String, Json)> = Vec::new();
    input_entries.push((String::from_str("messages"), Json::Arr(wire)));
    let input = Json::Obj(input_entries);
    proof {
        lemma_deep_entries(input->Obj_0@);
        assert(input.deep()->Obj_0 =~= qianwen_body(dv, model@)->Obj_0[1].1->Obj_0);
    }
    let mut param_entries: Vec<(String, Json)> = Vec::new();
    match temperature {
        Some(t) => {
            param_entries.push((String::from_str("temperature"), t));
        },
        None => {},
    }
    if stream {
        param_entries.push((String::from_str("incremental_output"), Json::Bool(true)));
    }
    let parameters = Json::Obj(param_entries);
    proof {
        lemma_deep_entries(parameters->Obj_0@);
        assert(parameters.deep()->Obj_0 =~= qianwen_body(dv, model@)->Obj_0[2].1->Obj_0);
    }
    let mut entries: Vec<(String, Json)> = Vec::new();
    entries.push((String::from_str("model"), Json::Str(model)));
    entries.push((String::from_str("input"), input));
    entries.push((String::from_str("parameters"), parameters));
    match functions {
        Some(fs) => {
            let funcs = decls_to_json(&fs, "parameters");
            entries.push((String::from_str("functions"), Json::Arr(funcs)));
        },
        None => {},
    }
    let body = Json::Obj(entries);
    proof {
        lemma_deep_entries(body->Obj_0@);
        assert(body.deep()->Obj_0 =~= qianwen_body(dv, model@)->Obj_0);
    }
    body
}

/// The in-band error of a response body: its code and message, when both
/// stand there as strings.
pub open spec fn qianwen_error(j: JsonV) -> Option<(Seq<char>, Seq<char>)> {
    if jv_field(j, "code"@) is Str && jv_field(j, "message"@) is Str {
        Some((jv_field(j, "code"@)->Str_0, jv_field(j, "message"@)->Str_0))
    } else {
        None
    }
}

/// What a unary response body yields: the in-band error when one stands
/// there; otherwise the text under `output.text` as one assistant
/// message; invalid when there is neither.
pub open spec fn qianwen_output(j: JsonV) -> Result<Seq<MessageV>, Option<(Seq<char>, Seq<char>)>> {
    match qianwen_error(j) {
        Some(cm) => Err(Some(cm)),
        None => match jv_field(jv_field(j, "output"@), "text"@) {
            JsonV::Str(t) => Ok(
                seq![
                    MessageV::PlainText {
                        role: MessageRole::Assistant,
                        content: MessageContentV::Text(t),
                    },
                ],
            ),
            _ => Err(None),
        },
    }
}

/// Reads a unary response body: an in-band error fails with
/// `UpstreamError`, a body without usable text is rejected as
/// `InvalidResponse`, and otherwise the text comes back as one assistant
/// message.
pub fn qianwen_extract_chat_completions(data: &Json) -> (r: Result<Vec<Message>, Error>)
    ensures
        match r {
            Ok(ms) => qianwen_output(data.deep()) == Ok::<
                Seq<MessageV>,
                Option<(Seq<char>, Seq<char>)>,
            >(ms.deep_view()),
            Err(Error::UpstreamError { code, message }) => code is Some && qianwen_output(
                data.deep(),
            ) == Err::<Seq<MessageV>, Option<(Seq<char>, Seq<char>)>>(
                Some((code.unwrap()@, message@)),
            ),
            Err(Error::InvalidResponse) => qianwen_output(data.deep()) == Err::<
                Seq<MessageV>,
                Option<(Seq<char>, Seq<char>)>,
            >(None),
            Err(_) => false,
        },
{
    let code: Option<&String> = match data.get("code") {
        Some(c) => c.as_str(),
        None => None,
    };
    let message: Option<&String> = match data.get("message") {
        Some(m) => m.as_str(),
        None => None,
    };
    match (code, message) {
        (Some(c), Some(m)) => {
            return Err(Error::UpstreamError { code: Some(c.clone()), message: m.clone() });
        },
        _ => {},
    }
    let text: Option<String> = match data.get("output") {
        Some(o) => match o.get("text") {
            Some(t) => match t.as_str() {
                Some(s) => Some(s.clone()),
                None => None,
            },
            None => None,
        },
        None => None,
    };
    match text {
        Some(t) => {
            let mut out: Vec<Message> = Vec::new();
            out.push(Message::new_text(MessageRole::Assistant, t.as_str()));
            proof {
                assert(out.deep_view() =~= seq![out@[0].deep_view()]);
            }
            Ok(out)
        },
        None => Err(Error::InvalidResponse),
    }
}

/// How one stream frame is classified: an in-band error fails the
/// stream; the text under `output.text` is answer text; anything else
/// says nothing.
pub open spec fn qianwen_signal(j: JsonV) -> StreamSignalV {
    match qianwen_error(j) {
        Some(cm) => StreamSignalV::ErrorFrame(Some(cm.0), cm.1),
        None => match jv_field(jv_field(j, "output"@), "text"@) {
            JsonV::Str(t) => StreamSignalV::TextDelta(t),
            _ => StreamSignalV::Ignore,
        },
    }
}

/// Classifies one raw stream frame: the frame must read as JSON; one
/// that does not is rejected as `InvalidResponse`.
pub fn qianwen_stream_frame(text: &str) -> (r: Result<StreamSignal, Error>)
    ensures
        match r {
            Ok(sig) => json_parse(text@) is Some && sig.deep_view() == qianwen_signal(
                json_parse(text@).unwrap(),
            ),
            Err(e) => e == Error::InvalidResponse && json_parse(text@) is None,
        },
{
    match parse_json(text) {
        Some(j) => {
            let code: Option<String> = match j.get("code") {
                Some(c) => match c.as_str() {
                    Some(s) => Some(s.clone()),
                    None => None,
                },
                None => None,
            };
            let message: Option<String> = match j.get("message") {
                Some(m) => match m.as_str() {
                    Some(s) => Some(s.clone()),
                    None => None,
                },
                None => None,
            };
            match (code, message) {
                (Some(c), Some(m)) => Ok(StreamSignal::ErrorFrame(Some(c), m)),
                _ => {
                    let t: Option<String> = match j.get("output") {
                        Some(o) => match o.get("text") {
                            Some(x) => match x.as_str() {
                                Some(s) => Some(s.clone()),
                                None => None,
                            },
                            None => None,
                        },
                        None => None,
                    };
                    match t {
                        Some(s) => Ok(StreamSignal::TextDelta(s)),
                        None => Ok(StreamSignal::Ignore),
                    }
                },
            }
        },
        None => Err(Error::InvalidResponse),
    }
}

} // verus!
