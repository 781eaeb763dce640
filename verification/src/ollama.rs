//! The Ollama adapter: configured models, tagged message kinds on the
//! wire, and a chunk stream that ends with the transport.

use vstd::prelude::*;
use crate::client::{content_text, jv_field, ExtraConfig, SendData, SendDataV};
use crate::error::Error;
use crate::json::{
    json_parse, lemma_deep_elems, lemma_deep_entries, parse_json, Json, JsonV,
};
use crate::message::{Message, MessageContentV, MessageRole, MessageV};
use crate::model::{declared_models, list_declared_models, Model, ModelConfig};
use crate::stream::{StreamSignal, StreamSignalV};

verus! {

/// How the Ollama provider is configured: where it listens and which
/// models it declares.
#[derive(Debug, Clone)]
pub struct OllamaConfig {
    pub name: Option<String>,
    pub api_base: String,
    pub api_key: Option<String>,
    pub chat_endpoint: Option<String>,
    pub models: Vec<ModelConfig>,
    pub extra: Option<ExtraConfig>,
}

/// An Ollama provider bound to one model.
#[derive(Debug)]
pub struct OllamaClient {
    pub config: OllamaConfig,
    pub model: Model,
}

impl OllamaClient {
    /// The models this provider declares, under its configured name.
    pub fn list_models(local_config: &OllamaConfig) -> (r: Vec<Model>)
        ensures
            r.deep_view() == declared_models(
                crate::openai::display_name(local_config.name.deep_view(), "ollama"@),
                local_config.models.deep_view(),
                (5usize, 2usize),
            ),
    {
        let cn: &str = match &local_config.name {
            Some(n) => n.as_str(),
            None => "ollama",
        };
        list_declared_models(cn, &local_config.models, (5, 2))
    }
}

/// The wire form of one message: each kind keeps its role and carries a
/// tag naming the kind; a requested call carries its name and arguments.
pub open spec fn ollama_msg_of(m: MessageV) -> JsonV {
    match m {
        MessageV::FunctionReturn { id: _, role, name, content } => JsonV::Obj(
            seq![
                ("role"@, JsonV::Str(role.wire_name())),
                ("type"@, JsonV::Str("function_return"@)),
                ("name"@, JsonV::Str(name)),
                ("content"@, JsonV::Str(content)),
            ],
        ),
        MessageV::FunctionCall { id: _, role, function_call } => JsonV::Obj(
            seq![
                ("role"@, JsonV::Str(role.wire_name())),
                ("type"@, JsonV::Str("function_call"@)),
                (
                    "function_call"@,
                    JsonV::Obj(
                        seq![
                            ("name"@, JsonV::Str(function_call.name)),
                            ("arguments"@, function_call.arguments),
                        ],
                    ),
                ),
            ],
        ),
        MessageV::PlainText { role, content } => JsonV::Obj(
            seq![
                ("role"@, JsonV::Str(role.wire_name())),
                ("content"@, JsonV::Str(content_text(content))),
            ],
        ),
    }
}

/// The wire messages of a whole conversation, one per message.
pub open spec fn ollama_wire_msgs(ms: Seq<MessageV>) -> Seq<JsonV> {
    Seq::new(ms.len(), |i: int| ollama_msg_of(ms[i]))
}

/// The request body for the Ollama wire format: the streaming flag is
/// always written, and the temperature rides under `options`.
pub open spec fn ollama_body(d: SendDataV, model: Seq<char>) -> JsonV {
    JsonV::Obj(
        seq![
            ("model"@, JsonV::Str(model)),
            ("messages"@, JsonV::Arr(ollama_wire_msgs(d.messages))),
            ("stream"@, JsonV::Bool(d.stream)),
        ] + (match d.temperature {
            Some(t) => seq![("options"@, JsonV::Obj(seq![("temperature"@, t)]))],
            None => Seq::empty(),
        }),
    )
}

/// Builds the request body for the Ollama wire format.
pub fn ollama_build_body(data: SendData, model: String) -> (r: Json)
    ensures
        r.deep() == ollama_body(data.deep_view(), model@),
{
    let ghost dv = data.deep_view();
    let SendData { messages, temperature, top_p: _, stream, functions: _ } = data;
    let mut wire: Vec<Json> = Vec::new();
    let mut i: usize = 0;
    proof {
        assert(dv.messages.len() == messages@.len());
    }
    while i < messages.len()
        invariant
            i <= messages@.len(),
            wire@.len() == i,
            dv.messages == messages.deep_view(),
            dv.messages.len() == messages@.len(),
            forall|j: int|
                0 <= j < i ==> (#[trigger] wire@[j].deep()) == ollama_msg_of(dv.messages[j]),
        decreases messages@.len() - i,
    {
        let m: Json = match &messages[i] {
            Message::FunctionReturn { id: _, role, name, content } => {
                let mut entries: Vec<(String, Json)> = Vec::new();
                entries.push((String::from_str("role"), Json::Str(role.as_text())));
                entries.push((
                    String::from_str("type"),
                    Json::Str(String::from_str("function_return")),
                ));
                entries.push((String::from_str("name"), Json::Str(name.clone())));
                entries.push((String::from_str("content"), Json::Str(content.clone())));
                let m = Json::Obj(entries);
                proof {
                    lemma_deep_entries(m->Obj_0@);
                    assert(m.deep()->Obj_0 =~= ollama_msg_of(dv.messages[i as int])->Obj_0);
                }
                m
            },
            Message::FunctionCall { id: _, role, function_call } => {
                let mut inner: Vec<(String, Json)> = Vec::new();
                inner.push((String::from_str("name"), Json::Str(function_call.name.clone())));
                inner.push((String::from_str("arguments"), function_call.arguments.clone()));
                let innerj = Json::Obj(inner);
                let mut entries: Vec<(String, Json)> = Vec::new();
                entries.push((String::from_str("role"), Json::Str(role.as_text())));
                entries.push((
                    String::from_str("type"),
                    Json::Str(String::from_str("function_call")),
                ));
                entries.push((String::from_str("function_call"), innerj));
                let m = Json::Obj(entries);
                proof {
                    lemma_deep_entries(m->Obj_0@[2].1->Obj_0@);
                    assert(m->Obj_0@[2].1.deep()->Obj_0 =~= ollama_msg_of(
                        dv.messages[i as int],
                    )->Obj_0[2].1->Obj_0);
                    lemma_deep_entries(m->Obj_0@);
                    assert(m.deep()->Obj_0 =~= ollama_msg_of(dv.messages[i as int])->Obj_0);
                }
                m
            },
            Message::PlainText { role, content } => {
                let text = crate::client::content_text_exec(content);
                let mut entries: Vec<(String, Json)> = Vec::new();
                entries.push((String::from_str("role"), Json::Str(role.as_text())));
                entries.push((String::from_str("content"), Json::Str(text)));
                let m = Json::Obj(entries);
                proof {
                    lemma_deep_entries(m->Obj_0@);
                    assert(m.deep()->Obj_0 =~= ollama_msg_of(dv.messages[i as int])->Obj_0);
                }
                m
            },
        };
        wire.push(m);
        i = i + 1;
    }
    proof {
        lemma_deep_elems(wire@);
        assert(Json::deep_elems(wire@) =~= ollama_wire_msgs(dv.messages));
    }
    let mut entries: Vec<(String, Json)> = Vec::new();
    entries.push((String::from_str("model"), Json::Str(model)));
    entries.push((String::from_str("messages"), Json::Arr(wire)));
    entries.push((String::from_str("stream"), Json::Bool(stream)));
    match temperature {
        Some(t) => {
            let mut opts: Vec<(String, Json)> = Vec::new();
            opts.push((String::from_str("temperature"), t));
            let optsj = Json::Obj(opts);
            proof {
                lemma_deep_entries(optsj->Obj_0@);
                assert(optsj.deep()->Obj_0 =~= ollama_body(dv, model@)->Obj_0[3].1->Obj_0);
            }
            entries.push((String::from_str("options"), optsj));
        },
        None => {},
    }
    let body = Json::Obj(entries);
    proof {
        lemma_deep_entries(body->Obj_0@);
        assert(body.deep()->Obj_0 =~= ollama_body(dv, model@)->Obj_0);
    }
    body
}

/// What a unary response body yields: the text under `message.content`
/// as one assistant message; invalid when there is none.
pub open spec fn ollama_output(j: JsonV) -> Result<Seq<MessageV>, ()> {
    match jv_field(jv_field(j, "message"@), "content"@) {
        JsonV::Str(t) => Ok(
            seq![
                MessageV::PlainText {
                    role: MessageRole::Assistant,
                    content: MessageContentV::Text(t),
                },
            ],
        ),
        _ => Err(()),
    }
}

/// Reads a unary response body: the text under `message.content` comes
/// back as one assistant message; a body without it is rejected as
/// `InvalidResponse`.
pub fn ollama_extract_chat_completions(data: &Json) -> (r: Result<Vec<Message>, Error>)
    ensures
        match r {
            Ok(ms) => ollama_output(data.deep()) == Ok::<Seq<MessageV>, ()>(ms.deep_view()),
            Err(e) => e == Error::InvalidResponse && ollama_output(data.deep()) is Err,
        },
{
    let text: Option<String> = match data.get("message") {
        Some(m) => match m.get("content") {
            Some(c) => match c.as_str() {
                Some(s) => Some(s.clone()),
                None => None,
            },
            None => None,
        },
        None => None,
    };
    match text {
        Some(t) => {
            let mut out: Vec<Message> = Vec::new();
            out.push(Message::new_text(MessageRole::Assistant, t.as_str()));
            proof {
                assert(out.deep_view() =~= seq![out@[0].deep_view()]);
            }
            Ok(out)
        },
        None => Err(Error::InvalidResponse),
    }
}

/// How one stream chunk is classified: a chunk carrying the boolean
/// `done` flag contributes its `message.content` text, or nothing when
/// there is none; a chunk without the flag is not of this protocol.
pub open spec fn ollama_signal(j: JsonV) -> Result<StreamSignalV, ()> {
    if jv_field(j, "done"@) is Bool {
        match jv_field(jv_field(j, "message"@), "content"@) {
            JsonV::Str(t) => Ok(StreamSignalV::TextDelta(t)),
            _ => Ok(StreamSignalV::Ignore),
        }
    } else {
        Err(())
    }
}

/// Classifies one raw stream chunk: the chunk must read as JSON and
/// carry the boolean `done` flag; anything else is rejected as
/// `InvalidResponse`.
pub fn ollama_stream_frame(text: &str) -> (r: Result<StreamSignal, Error>)
    ensures
        match r {
            Ok(sig) => json_parse(text@) is Some && ollama_signal(json_parse(text@).unwrap())
                == Ok::<StreamSignalV, ()>(sig.deep_view()),
            Err(e) => e == Error::InvalidResponse && (json_parse(text@) is None || ollama_signal(
                json_parse(text@).unwrap(),
            ) is Err),
        },
{
    match parse_json(text) {
        Some(j) => {
            let has_done: bool = match j.get("done") {
                Some(d) => d.as_bool().is_some(),
                None => false,
            };
            if !has_done {
                return Err(Error::InvalidResponse);
            }
            let t: Option<String> = match j.get("message") {
                Some(m) => match m.get("content") {
                    Some(c) => match c.as_str() {
                        Some(s) => Some(s.clone()),
                        None => None,
                    },
                    None => None,
                },
                None => None,
            };
            match t {
                Some(s) => Ok(StreamSignal::TextDelta(s)),
                None => Ok(StreamSignal::Ignore),
            }
        },
        None => Err(Error::InvalidResponse),
    }
}

} // verus!
