//! The OpenAI-style adapter: an inline system role, tool results as
//! embedded content blocks, and a sentinel-terminated event stream.

use vstd::prelude::*;
use crate::client::{jv_field, jv_index, ExtraConfig, SendData, SendDataV};
use crate::error::Error;
use crate::function::FunctionDeclarationV;
use crate::function_calling::FunctionCall;
use crate::function::{ToolCallResult, ToolCallResultV};
use crate::json::{
    json_parse, jv_text, lemma_deep_elems, lemma_deep_elems_concat, lemma_deep_entries,
    parse_json, Json, JsonV,
};
use crate::message::{
    ContentPart, ContentPartV, Message, MessageContent, MessageContentV, MessageRole, MessageV,
};
use crate::model::{Model, ModelCapabilities, ModelV};
use crate::stream::{StreamSignal, StreamSignalV};

verus! {

/// How the OpenAI-style provider is configured.
#[derive(Debug, Clone)]
pub struct OpenAIConfig {
    pub name: Option<String>,
    pub api_key: Option<String>,
    pub api_base: Option<String>,
    pub organization_id: Option<String>,
    pub extra: Option<ExtraConfig>,
}

/// An OpenAI-style provider bound to one model.
#[derive(Debug)]
pub struct OpenAIClient {
    pub config: OpenAIConfig,
    pub model: Model,
}

/// The catalogue this provider hard-codes, under the given provider name.
pub open spec fn openai_models(cn: Seq<char>) -> Seq<ModelV> {
    seq![
        ModelV {
            client_name: cn,
            name: "gpt-4-turbo-preview"@,
            capabilities: ModelCapabilities { text: true, vision: false },
            max_input_tokens: Some(128000usize),
            max_tokens: None,
            tokens_count_factors: (5usize, 2usize),
        },
        ModelV {
            client_name: cn,
            name: "gpt-4-vision-preview"@,
            capabilities: ModelCapabilities { text: true, vision: true },
            max_input_tokens: Some(128000usize),
            max_tokens: None,
            tokens_count_factors: (5usize, 2usize),
        },
        ModelV {
            client_name: cn,
            name: "gpt-4-1106-preview"@,
            capabilities: ModelCapabilities { text: true, vision: false },
            max_input_tokens: Some(128000usize),
            max_tokens: None,
            tokens_count_factors: (5usize, 2usize),
        },
        ModelV {
            client_name: cn,
            name: "gpt-3.5-turbo"@,
            capabilities: ModelCapabilities { text: true, vision: false },
            max_input_tokens: Some(16385usize),
            max_tokens: None,
            tokens_count_factors: (5usize, 2usize),
        },
        ModelV {
            client_name: cn,
            name: "gpt-3.5-turbo-1106"@,
            capabilities: ModelCapabilities { text: true, vision: false },
            max_input_tokens: Some(16385usize),
            max_tokens: None,
            tokens_count_factors: (5usize, 2usize),
        },
    ]
}

/// The provider name of a configuration: its `name`, or the default.
pub open spec fn display_name(name: Option<Seq<char>>, default: Seq<char>) -> Seq<char> {
    match name {
        Some(n) => n,
        None => default,
    }
}

/// One catalogue entry.
fn openai_model(cn: &str, name: &str, vision: bool, max_input: usize) -> (r: Model)
    ensures
        r.deep_view() == (ModelV {
            client_name: cn@,
            name: name@,
            capabilities: ModelCapabilities { text: true, vision },
            max_input_tokens: Some(max_input),
            max_tokens: None,
            tokens_count_factors: (5usize, 2usize),
        }),
{
    Model::new(cn, name).set_capabilities(ModelCapabilities { text: true, vision })
        .set_max_input_tokens(Some(max_input))
        .set_tokens_count_factors((5, 2))
}

impl OpenAIClient {
    /// The models this provider offers, under its configured name.
    pub fn list_models(local_config: &OpenAIConfig) -> (r: Vec<Model>)
        ensures
            r.deep_view() == openai_models(
                display_name(local_config.name.deep_view(), "openai"@),
            ),
    {
        let cn: &str = match &local_config.name {
            Some(n) => n.as_str(),
            None => "openai",
        };
        let mut out: Vec<Model> = Vec::new();
        out.push(openai_model(cn, "gpt-4-turbo-preview", false, 128000));
        out.push(openai_model(cn, "gpt-4-vision-preview", true, 128000));
        out.push(openai_model(cn, "gpt-4-1106-preview", false, 128000));
        out.push(openai_model(cn, "gpt-3.5-turbo", false, 16385));
        out.push(openai_model(cn, "gpt-3.5-turbo-1106", false, 16385));
        proof {
            assert(out.deep_view() =~= openai_models(
                display_name(local_config.name.deep_view(), "openai"@),
            ));
        }
        out
    }
}

/// An optional id as it rides on this wire: the id, or an empty string.
pub open spec fn optid_str(id: Option<Seq<char>>) -> Seq<char> {
    match id {
        Some(s) => s,
        None => Seq::empty(),
    }
}

/// The wire form of one content part: text, or an image by URL — this
/// vendor takes network images.
pub open spec fn openai_part(p: ContentPartV) -> JsonV {
    match p {
        ContentPartV::Text(t) => JsonV::Obj(
            seq![("type"@, JsonV::Str("text"@)), ("text"@, JsonV::Str(t))],
        ),
        ContentPartV::ImageUrl(u) => JsonV::Obj(
            seq![
                ("type"@, JsonV::Str("image_url"@)),
                ("image_url"@, JsonV::Obj(seq![("url"@, JsonV::Str(u))])),
            ],
        ),
    }
}

/// The wire forms of a list of parts, in order.
pub open spec fn openai_parts(ps: Seq<ContentPartV>) -> Seq<JsonV> {
    Seq::new(ps.len(), |i: int| openai_part(ps[i]))
}

/// The wire message of one tool-call result: an embedded tool-result
/// block, its output as JSON text.
pub open spec fn openai_result_msg(role: Seq<char>, r: ToolCallResultV) -> JsonV {
    JsonV::Obj(
        seq![
            ("role"@, JsonV::Str(role)),
            (
                "content"@,
                JsonV::Arr(
                    seq![
                        JsonV::Obj(
                            seq![
                                ("type"@, JsonV::Str("tool_result"@)),
                                ("tool_use_id"@, JsonV::Str(optid_str(r.call.id))),
                                ("content"@, JsonV::Str(jv_text(r.output))),
                            ],
                        ),
                    ],
                ),
            ),
        ],
    )
}

/// The wire messages of a result batch, one per result, in order.
pub open spec fn openai_result_msgs(role: Seq<char>, rs: Seq<ToolCallResultV>) -> Seq<JsonV> {
    Seq::new(rs.len(), |i: int| openai_result_msg(role, rs[i]))
}

/// The wire form of one message. Every kind is representable here: a
/// returned result becomes an embedded tool-result block under its role;
/// plain text keeps its role; a part list keeps its role with text and
/// image-URL blocks; a result batch becomes its text, when any, then one
/// tool-result message per result; a requested call rides under
/// `tool_calls` with its arguments as JSON text.
pub open spec fn openai_msg_of(m: MessageV) -> Seq<JsonV> {
    match m {
        MessageV::FunctionReturn { id, role, name: _, content } => seq![
            JsonV::Obj(
                seq![
                    ("role"@, JsonV::Str(role.wire_name())),
                    (
                        "content"@,
                        JsonV::Arr(
                            seq![
                                JsonV::Obj(
                                    seq![
                                        ("type"@, JsonV::Str("tool_result"@)),
                                        ("tool_use_id"@, JsonV::Str(optid_str(id))),
                                        ("content"@, JsonV::Str(content)),
                                    ],
                                ),
                            ],
                        ),
                    ),
                ],
            ),
        ],
        MessageV::FunctionCall { id, role, function_call } => seq![
            JsonV::Obj(
                seq![
                    ("role"@, JsonV::Str(role.wire_name())),
                    ("content"@, JsonV::Null),
                    (
                        "tool_calls"@,
                        JsonV::Arr(
                            seq![
                                JsonV::Obj(
                                    seq![
                                        ("id"@, JsonV::Str(optid_str(id))),
                                        ("type"@, JsonV::Str("function"@)),
                                        (
                                            "function"@,
                                            JsonV::Obj(
                                                seq![
                                                    ("name"@, JsonV::Str(function_call.name)),
                                                    (
                                                        "arguments"@,
                                                        JsonV::Str(
                                                            jv_text(function_call.arguments),
                                                        ),
                                                    ),
                                                ],
                                            ),
                                        ),
                                    ],
                                ),
                            ],
                        ),
                    ),
                ],
            ),
        ],
        MessageV::PlainText { role, content } => match content {
            MessageContentV::Text(t) => seq![
                JsonV::Obj(
                    seq![("role"@, JsonV::Str(role.wire_name())), ("content"@, JsonV::Str(t))],
                ),
            ],
            MessageContentV::Parts(ps) => seq![
                JsonV::Obj(
                    seq![
                        ("role"@, JsonV::Str(role.wire_name())),
                        ("content"@, JsonV::Arr(openai_parts(ps))),
                    ],
                ),
            ],
            MessageContentV::ToolResults(rs, t) => (if t.len() > 0 {
                seq![
                    JsonV::Obj(
                        seq![
                            ("role"@, JsonV::Str(role.wire_name())),
                            ("content"@, JsonV::Str(t)),
                        ],
                    ),
                ]
            } else {
                Seq::empty()
            }) + openai_result_msgs(role.wire_name(), rs),
        },
    }
}

/// The wire messages of a whole conversation, in order.
pub open spec fn openai_wire_msgs(ms: Seq<MessageV>) -> Seq<JsonV>
    decreases ms,
{
    if ms.len() == 0 {
        Seq::empty()
    } else {
        openai_msg_of(ms[0]) + openai_wire_msgs(ms.drop_first())
    }
}

/// The wire forms of the declared functions, each wrapped as a tool of
/// type `function` with its schema under `parameters`.
pub open spec fn openai_tools_jv(fs: Seq<FunctionDeclarationV>) -> Seq<JsonV> {
    Seq::new(
        fs.len(),
        |i: int|
            JsonV::Obj(
                seq![
                    ("type"@, JsonV::Str("function"@)),
                    (
                        "function"@,
                        JsonV::Obj(
                            seq![
                                ("name"@, JsonV::Str(fs[i].name)),
                                ("description"@, JsonV::Str(fs[i].description)),
                                ("parameters"@, crate::function::schema_jv(fs[i].parameters)),
                            ],
                        ),
                    ),
                ],
            ),
    )
}

/// The request body for the OpenAI-style wire format.
pub open spec fn openai_body(d: SendDataV, model: Seq<char>) -> JsonV {
    JsonV::Obj(
        seq![
            ("model"@, JsonV::Str(model)),
            ("messages"@, JsonV::Arr(openai_wire_msgs(d.messages))),
        ] + (match d.functions {
            Some(fs) => seq![("tools"@, JsonV::Arr(openai_tools_jv(fs)))],
            None => Seq::empty(),
        }) + (match d.temperature {
            Some(t) => seq![("temperature"@, t)],
            None => Seq::empty(),
        }) + (if d.stream {
            seq![("stream"@, JsonV::Bool(true))]
        } else {
            Seq::empty()
        }),
    )
}

/// An optional id as it rides on this wire.
fn optid_string(id: &Option<String>) -> (r: String)
    ensures
        r@ == optid_str(id.deep_view()),
{
    match id {
        Some(s) => s.clone(),
        None => String::new(),
    }
}

/// The wire forms of a list of parts.
fn build_openai_parts(parts: &Vec<ContentPart>) -> (r: Vec<Json>)
    ensures
        Json::deep_elems(r@) == openai_parts(parts.deep_view()),
{
    let ghost dv = parts.deep_view();
    let mut out: Vec<Json> = Vec::new();
    let mut i: usize = 0;
    proof {
        assert(dv.len() == parts@.len());
    }
    while i < parts.len()
        invariant
            i <= parts@.len(),
            dv == parts.deep_view(),
            dv.len() == parts@.len(),
            out@.len() == i,
            forall|j: int| 0 <= j < i ==> (#[trigger] out@[j].deep()) == openai_part(dv[j]),
        decreases parts@.len() - i,
    {
        let one: Json = match &parts[i] {
            ContentPart::Text { text } => {
                let mut entries: Vec<(String, Json)> = Vec::new();
                entries.push((String::from_str("type"), Json::Str(String::from_str("text"))));
                entries.push((String::from_str("text"), Json::Str(text.clone())));
                let one = Json::Obj(entries);
                proof {
                    lemma_deep_entries(one->Obj_0@);
                    assert(one.deep()->Obj_0 =~= openai_part(dv[i as int])->Obj_0);
                }
                one
            },
            ContentPart::ImageUrl { url } => {
                let mut inner: Vec<(String, Json)> = Vec::new();
                inner.push((String::from_str("url"), Json::Str(url.clone())));
                let innerj = Json::Obj(inner);
                let mut entries: Vec<(String, Json)> = Vec::new();
                entries.push((
                    String::from_str("type"),
                    Json::Str(String::from_str("image_url")),
                ));
                entries.push((String::from_str("image_url"), innerj));
                let one = Json::Obj(entries);
                proof {
                    lemma_deep_entries(one->Obj_0@[1].1->Obj_0@);
                    assert(one->Obj_0@[1].1.deep()->Obj_0 =~= openai_part(
                        dv[i as int],
                    )->Obj_0[1].1->Obj_0);
                    lemma_deep_entries(one->Obj_0@);
                    assert(one.deep()->Obj_0 =~= openai_part(dv[i as int])->Obj_0);
                }
                one
            },
        };
        out.push(one);
        i = i + 1;
    }
    proof {
        lemma_deep_elems(out@);
        assert(Json::deep_elems(out@) =~= openai_parts(dv));
    }
    out
}

/// The wire message of one tool-call result.
fn build_openai_result_msg(role_text: String, result: &ToolCallResult) -> (r: Json)
    ensures
        r.deep() == openai_result_msg(role_text@, result.deep_view()),
{
    let mut block: Vec<(String, Json)> = Vec::new();
    block.push((String::from_str("type"), Json::Str(String::from_str("tool_result"))));
    block.push((String::from_str("tool_use_id"), Json::Str(optid_string(&result.call.id))));
    block.push((String::from_str("content"), Json::Str(result.output.to_text())));
    let blockj = Json::Obj(block);
    proof {
        lemma_deep_entries(blockj->Obj_0@);
        assert(blockj.deep()->Obj_0 =~= openai_result_msg(
            role_text@,
            result.deep_view(),
        )->Obj_0[1].1->Arr_0[0]->Obj_0);
    }
    let mut arr: Vec<Json> = Vec::new();
    arr.push(blockj);
    proof {
        lemma_deep_elems(arr@);
        assert(Json::deep_elems(arr@) =~= openai_result_msg(
            role_text@,
            result.deep_view(),
        )->Obj_0[1].1->Arr_0);
    }
    let mut entries: Vec<(String, Json)> = Vec::new();
    entries.push((String::from_str("role"), Json::Str(role_text)));
    entries.push((String::from_str("content"), Json::Arr(arr)));
    let r = Json::Obj(entries);
    proof {
        lemma_deep_entries(r->Obj_0@);
        assert(r.deep()->Obj_0 =~= openai_result_msg(role_text@, result.deep_view())->Obj_0);
    }
    r
}

/// The wire messages one message becomes.
fn openai_wire_of(m: &Message) -> (r: Vec<Json>)
    ensures
        Json::deep_elems(r@) == openai_msg_of(m.deep_view()),
{
    let ghost mv = m.deep_view();
    let mut out: Vec<Json> = Vec::new();
    match m {
        Message::FunctionReturn { id, role, name: _, content } => {
            let mut block: Vec<(String, Json)> = Vec::new();
            block.push((String::from_str("type"), Json::Str(String::from_str("tool_result"))));
            block.push((String::from_str("tool_use_id"), Json::Str(optid_string(id))));
            block.push((String::from_str("content"), Json::Str(content.clone())));
            let blockj = Json::Obj(block);
            proof {
                lemma_deep_entries(blockj->Obj_0@);
                assert(blockj.deep()->Obj_0 =~= openai_msg_of(
                    mv,
                )[0]->Obj_0[1].1->Arr_0[0]->Obj_0);
            }
            let mut arr: Vec<Json> = Vec::new();
            arr.push(blockj);
            proof {
                lemma_deep_elems(arr@);
                assert(Json::deep_elems(arr@) =~= openai_msg_of(mv)[0]->Obj_0[1].1->Arr_0);
            }
            let mut entries: Vec<(String, Json)> = Vec::new();
            entries.push((String::from_str("role"), Json::Str(role.as_text())));
            entries.push((String::from_str("content"), Json::Arr(arr)));
            let one = Json::Obj(entries);
            proof {
                lemma_deep_entries(one->Obj_0@);
                assert(one.deep()->Obj_0 =~= openai_msg_of(mv)[0]->Obj_0);
            }
            out.push(one);
            proof {
                lemma_deep_elems(out@);
                assert(Json::deep_elems(out@) =~= openai_msg_of(mv));
            }
        },
        Message::FunctionCall { id, role, function_call } => {
            let mut func: Vec<(String, Json)> = Vec::new();
            func.push((String::from_str("name"), Json::Str(function_call.name.clone())));
            func.push((
                String::from_str("arguments"),
                Json::Str(function_call.arguments.to_text()),
            ));
            let funcj = Json::Obj(func);
            proof {
                lemma_deep_entries(funcj->Obj_0@);
                assert(funcj.deep()->Obj_0 =~= openai_msg_of(
                    mv,
                )[0]->Obj_0[2].1->Arr_0[0]->Obj_0[2].1->Obj_0);
            }
            let mut call: Vec<(String, Json)> = Vec::new();
            call.push((String::from_str("id"), Json::Str(optid_string(id))));
            call.push((String::from_str("type"), Json::Str(String::from_str("function"))));
            call.push((String::from_str("function"), funcj));
            let callj = Json::Obj(call);
            proof {
                lemma_deep_entries(callj->Obj_0@);
                assert(callj.deep()->Obj_0 =~= openai_msg_of(mv)[0]->Obj_0[2].1->Arr_0[0]->Obj_0);
            }
            let mut arr: Vec<Json> = Vec::new();
            arr.push(callj);
            proof {
                lemma_deep_elems(arr@);
                assert(Json::deep_elems(arr@) =~= openai_msg_of(mv)[0]->Obj_0[2].1->Arr_0);
            }
            let mut entries: Vec<(String, Json)> = Vec::new();
            entries.push((String::from_str("role"), Json::Str(role.as_text())));
            entries.push((String::from_str("content"), Json::Null));
            entries.push((String::from_str("tool_calls"), Json::Arr(arr)));
            let one = Json::Obj(entries);
            proof {
                lemma_deep_entries(one->Obj_0@);
                assert(one.deep()->Obj_0 =~= openai_msg_of(mv)[0]->Obj_0);
            }
            out.push(one);
            proof {
                lemma_deep_elems(out@);
                assert(Json::deep_elems(out@) =~= openai_msg_of(mv));
            }
        },
        Message::PlainText { role, content } => {
            match content {
                MessageContent::Text(t) => {
                    let mut entries: Vec<(String, Json)> = Vec::new();
                    entries.push((String::from_str("role"), Json::Str(role.as_text())));
                    entries.push((String::from_str("content"), Json::Str(t.clone())));
                    let one = Json::Obj(entries);
                    proof {
                        lemma_deep_entries(one->Obj_0@);
                        assert(one.deep()->Obj_0 =~= openai_msg_of(mv)[0]->Obj_0);
                    }
                    out.push(one);
                    proof {
                        lemma_deep_elems(out@);
                        assert(Json::deep_elems(out@) =~= openai_msg_of(mv));
                    }
                },
                MessageContent::Parts(ps) => {
                    let partsj = build_openai_parts(ps);
                    let mut entries: Vec<(String, Json)> = Vec::new();
                    entries.push((String::from_str("role"), Json::Str(role.as_text())));
                    entries.push((String::from_str("content"), Json::Arr(partsj)));
                    let one = Json::Obj(entries);
                    proof {
                        lemma_deep_entries(one->Obj_0@);
                        assert(one.deep()->Obj_0 =~= openai_msg_of(mv)[0]->Obj_0);
                    }
                    out.push(one);
                    proof {
                        lemma_deep_elems(out@);
                        assert(Json::deep_elems(out@) =~= openai_msg_of(mv));
                    }
                },
                MessageContent::ToolResults(results, text) => {
                    let off: usize = if !text.as_str().is_empty() {
                        let mut entries: Vec<(String, Json)> = Vec::new();
                        entries.push((String::from_str("role"), Json::Str(role.as_text())));
                        entries.push((String::from_str("content"), Json::Str(text.clone())));
                        let one = Json::Obj(entries);
                        proof {
                            lemma_deep_entries(one->Obj_0@);
                            assert(one.deep()->Obj_0 =~= openai_msg_of(mv)[0]->Obj_0);
                        }
                        out.push(one);
                        1
                    } else {
                        0
                    };
                    let mut k: usize = 0;
                    while k < results.len()
                        invariant
                            k <= results@.len(),
                            mv is PlainText,
                            mv->PlainText_role == *role,
                            mv->PlainText_content is ToolResults,
                            mv->PlainText_content->ToolResults_0 == results.deep_view(),
                            mv->PlainText_content->ToolResults_1 == text@,
                            out@.len() == off + k,
                            off == if text@.len() > 0 { 1int } else { 0int },
                            off == 1 ==> out@[0].deep() == openai_msg_of(mv)[0],
                            forall|j: int|
                                off <= j < off + k ==> (#[trigger] out@[j].deep())
                                    == openai_result_msg(
                                    mv->PlainText_role.wire_name(),
                                    results.deep_view()[j - off],
                                ),
                        decreases results@.len() - k,
                    {
                        let one = build_openai_result_msg(role.as_text(), &results[k]);
                        out.push(one);
                        proof {
                            assert(results.deep_view()[k as int] == results@[k as int].deep_view());
                            assert(out@[off + k].deep() == openai_result_msg(
                                mv->PlainText_role.wire_name(),
                                results.deep_view()[k as int],
                            ));
                        }
                        k = k + 1;
                    }
                    proof {
                        lemma_deep_elems(out@);
                        assert(Json::deep_elems(out@) =~= openai_msg_of(mv));
                    }
                },
            }
        },
    }
    out
}

/// Moves every element of `batch` onto the end of `out`.
fn append_all(out: &mut Vec<Json>, batch: Vec<Json>)
    ensures
        final(out)@ == old(out)@ + batch@,
{
    let ghost batchv = batch@;
    let mut rest = batch;
    while rest.len() > 0
        invariant
            out@ + rest@ == old(out)@ + batchv,
        decreases rest@.len(),
    {
        let ghost pre = rest@;
        let x = rest.remove(0);
        proof {
            assert(pre.drop_first() =~= rest@);
        }
        out.push(x);
        proof {
            assert(out@ + rest@ =~= old(out)@ + batchv);
        }
    }
    proof {
        assert(out@ + rest@ =~= out@);
    }
}

/// Appends the wire messages from position `i` on.
fn build_openai_msgs(msgs: &Vec<Message>, i: usize, out: &mut Vec<Json>)
    requires
        i <= msgs.len(),
    ensures
        Json::deep_elems(final(out)@) == Json::deep_elems(old(out)@) + openai_wire_msgs(
            msgs.deep_view().skip(i as int),
        ),
    decreases msgs@.len() - i,
{
    let ghost dv = msgs.deep_view();
    proof {
        assert(dv.len() == msgs@.len());
    }
    if i == msgs.len() {
        proof {
            assert(openai_wire_msgs(dv.skip(i as int)) =~= Seq::<JsonV>::empty());
            assert(Json::deep_elems(out@) + Seq::<JsonV>::empty() =~= Json::deep_elems(out@));
        }
    } else {
        proof {
            assert(dv.skip(i as int)[0] == dv[i as int]);
            assert(dv.skip(i as int).drop_first() =~= dv.skip(i + 1 as int));
        }
        let ghost outpre = out@;
        let batch = openai_wire_of(&msgs[i]);
        let ghost batchv = batch@;
        append_all(out, batch);
        proof {
            lemma_deep_elems_concat(outpre, batchv);
            assert(Json::deep_elems(out@) =~= Json::deep_elems(outpre) + openai_msg_of(
                dv[i as int],
            ));
        }
        build_openai_msgs(msgs, i + 1, out);
        proof {
            assert(Json::deep_elems(out@) =~= Json::deep_elems(outpre) + openai_wire_msgs(
                dv.skip(i as int),
            ));
        }
    }
}

/// Builds the request body for the OpenAI-style wire format. Every
/// message kind has a form on this wire; nothing is dropped.
pub fn openai_build_body(data: SendData, model: String) -> (r: Json)
    ensures
        r.deep() == openai_body(data.deep_view(), model@),
{
    let ghost dv = data.deep_view();
    let SendData { messages, temperature, top_p: _, stream, functions } = data;
    let mut wire: Vec<Json> = Vec::new();
    proof {
        assert(messages.deep_view().skip(0) =~= messages.deep_view());
        assert(Json::deep_elems(Seq::<Json>::empty()) =~= Seq::<JsonV>::empty());
        assert(Seq::<JsonV>::empty() + openai_wire_msgs(dv.messages) =~= openai_wire_msgs(
            dv.messages,
        ));
    }
    build_openai_msgs(&messages, 0, &mut wire);
    let mut entries: Vec<(String, Json)> = Vec::new();
    entries.push((String::from_str("model"), Json::Str(model)));
    entries.push((String::from_str("messages"), Json::Arr(wire)));
    match functions {
        Some(fs) => {
            let mut tools: Vec<Json> = Vec::new();
            let mut k: usize = 0;
            while k < fs.len()
                invariant
                    k <= fs@.len(),
                    tools@.len() == k,
                    forall|j: int|
                        0 <= j < k ==> (#[trigger] tools@[j].deep()) == openai_tools_jv(
                            fs.deep_view(),
                        )[j],
                decreases fs@.len() - k,
            {
                let mut inner: Vec<(String, Json)> = Vec::new();
                inner.push((String::from_str("name"), Json::Str(fs[k].name.clone())));
                inner.push((
                    String::from_str("description"),
                    Json::Str(fs[k].description.clone()),
                ));
                inner.push((
                    String::from_str("parameters"),
                    crate::function::schema_to_json(&fs[k].parameters),
                ));
                let innerj = Json::Obj(inner);
                proof {
                    lemma_deep_entries(innerj->Obj_0@);
                }
                let mut entry: Vec<(String, Json)> = Vec::new();
                entry.push((String::from_str("type"), Json::Str(String::from_str("function"))));
                entry.push((String::from_str("function"), innerj));
                let one = Json::Obj(entry);
                proof {
                    lemma_deep_entries(one->Obj_0@);
                    assert(one.deep()->Obj_0[1].1->Obj_0 =~= openai_tools_jv(
                        fs.deep_view(),
                    )[k as int]->Obj_0[1].1->Obj_0);
                    assert(one.deep()->Obj_0 =~= openai_tools_jv(
                        fs.deep_view(),
                    )[k as int]->Obj_0);
                }
                tools.push(one);
                k = k + 1;
            }
            proof {
                lemma_deep_elems(tools@);
                assert(Json::deep_elems(tools@) =~= openai_tools_jv(fs.deep_view()));
            }
            entries.push((String::from_str("tools"), Json::Arr(tools)));
        },
        None => {},
    }
    match temperature {
        Some(t) => {
            entries.push((String::from_str("temperature"), t));
        },
        None => {},
    }
    if stream {
        entries.push((String::from_str("stream"), Json::Bool(true)));
    }
    let body = Json::Obj(entries);
    proof {
        lemma_deep_entries(body->Obj_0@);
        assert(body.deep()->Obj_0 =~= openai_body(dv, model@)->Obj_0);
    }
    body
}

/// The vendor error message of a response body, when it carries one.
pub open spec fn openai_error(j: JsonV) -> Option<Seq<char>> {
    match jv_field(jv_field(j, "error"@), "message"@) {
        JsonV::Str(m) => Some(m),
        _ => None,
    }
}

/// The messages the tool-call entries decode to: one requested call per
/// entry, with the call's id when present, its name or an empty one, and
/// its arguments read as JSON — or kept as raw text when they do not
/// read as JSON.
pub open spec fn openai_call_msgs(tcs: Seq<JsonV>) -> Seq<MessageV>
    decreases tcs,
{
    if tcs.len() == 0 {
        Seq::empty()
    } else {
        seq![
            MessageV::FunctionCall {
                id: jv_field(tcs[0], "id"@).as_str(),
                role: MessageRole::Assistant,
                function_call: crate::function_calling::FunctionCallV {
                    name: match jv_field(jv_field(tcs[0], "function"@), "name"@) {
                        JsonV::Str(n) => n,
                        _ => Seq::empty(),
                    },
                    arguments: match jv_field(jv_field(tcs[0], "function"@), "arguments"@) {
                        JsonV::Str(a) => match json_parse(a) {
                            Some(v) => v,
                            None => JsonV::Str(a),
                        },
                        _ => match json_parse(Seq::<char>::empty()) {
                            Some(v) => v,
                            None => JsonV::Str(Seq::<char>::empty()),
                        },
                    },
                },
            },
        ] + openai_call_msgs(tcs.drop_first())
    }
}

/// What a unary response body yields: the vendor's error message when it
/// carries an error envelope; otherwise the requested calls and the
/// assistant text of the first choice; invalid when there is neither.
pub open spec fn openai_messages(j: JsonV) -> Result<Seq<MessageV>, Option<Seq<char>>> {
    match openai_error(j) {
        Some(m) => Err(Some(m)),
        None => {
            let msg = jv_field(jv_index(jv_field(j, "choices"@), 0), "message"@);
            let calls = if jv_field(msg, "tool_calls"@) is Arr {
                openai_call_msgs(jv_field(msg, "tool_calls"@)->Arr_0)
            } else {
                Seq::empty()
            };
            let texts: Seq<MessageV> = match jv_field(msg, "content"@) {
                JsonV::Str(c) => seq![
                    MessageV::PlainText {
                        role: MessageRole::Assistant,
                        content: MessageContentV::Text(c),
                    },
                ],
                _ => Seq::empty(),
            };
            if calls.len() + texts.len() == 0 {
                Err(None)
            } else {
                Ok(calls + texts)
            }
        },
    }
}

/// Appends the decoded requested calls from position `i` on.
fn extract_openai_calls(tcs: &Vec<Json>, i: usize, out: &mut Vec<Message>)
    requires
        i <= tcs.len(),
    ensures
        final(out).deep_view() == old(out).deep_view() + openai_call_msgs(
            Json::deep_elems(tcs@).skip(i as int),
        ),
    decreases tcs@.len() - i,
{
    proof {
        lemma_deep_elems(tcs@);
    }
    let ghost dv = Json::deep_elems(tcs@);
    if i == tcs.len() {
        proof {
            assert(openai_call_msgs(dv.skip(i as int)) =~= Seq::<MessageV>::empty());
            assert(out.deep_view() + Seq::<MessageV>::empty() =~= out.deep_view());
        }
    } else {
        proof {
            assert(dv.skip(i as int)[0] == dv[i as int]);
            assert(dv.skip(i as int).drop_first() =~= dv.skip(i + 1 as int));
        }
        let ghost pre = out.deep_view();
        let tc = &tcs[i];
        let id: Option<String> = match tc.get("id") {
            Some(v) => match v.as_str() {
                Some(s) => Some(s.clone()),
                None => None,
            },
            None => None,
        };
        let name: String = match tc.get("function") {
            Some(f) => match f.get("name") {
                Some(n) => match n.as_str() {
                    Some(s) => s.clone(),
                    None => String::new(),
                },
                None => String::new(),
            },
            None => String::new(),
        };
        let raw: String = match tc.get("function") {
            Some(f) => match f.get("arguments") {
                Some(a) => match a.as_str() {
                    Some(s) => s.clone(),
                    None => String::new(),
                },
                None => String::new(),
            },
            None => String::new(),
        };
        let arguments: Json = match parse_json(raw.as_str()) {
            Some(v) => v,
            None => Json::Str(raw),
        };
        out.push(
            Message::FunctionCall {
                id,
                role: MessageRole::Assistant,
                function_call: FunctionCall { name, arguments },
            },
        );
        proof {
            assert(out.deep_view() =~= pre + seq![out@.last().deep_view()]);
        }
        extract_openai_calls(tcs, i + 1, out);
        proof {
            assert(out.deep_view() =~= pre + openai_call_msgs(dv.skip(i as int)));
        }
    }
}

/// Reads a unary response body: the vendor's error envelope fails with
/// `UpstreamError`; otherwise the first choice's requested calls and
/// assistant text come back as messages, and a body with neither is
/// rejected as `InvalidResponse`.
pub fn openai_extract_chat_completions(data: &Json) -> (r: Result<Vec<Message>, Error>)
    ensures
        match r {
            Ok(ms) => openai_messages(data.deep()) == Ok::<Seq<MessageV>, Option<Seq<char>>>(
                ms.deep_view(),
            ),
            Err(Error::UpstreamError { code, message }) => code is None && openai_messages(
                data.deep(),
            ) == Err::<Seq<MessageV>, Option<Seq<char>>>(Some(message@)),
            Err(Error::InvalidResponse) => openai_messages(data.deep()) == Err::<
                Seq<MessageV>,
                Option<Seq<char>>,
            >(None),
            Err(_) => false,
        },
{
    match data.get("error") {
        Some(e) => match e.get("message") {
            Some(m) => match m.as_str() {
                Some(s) => {
                    return Err(Error::UpstreamError { code: None, message: s.clone() });
                },
                None => {},
            },
            None => {},
        },
        None => {},
    }
    let mut out: Vec<Message> = Vec::new();
    let msg: Option<&Json> = match data.get("choices") {
        Some(cs) => match cs.as_array() {
            Some(es) => if es.len() > 0 {
                proof {
                    lemma_deep_elems(es@);
                }
                es[0].get("message")
            } else {
                None
            },
            None => None,
        },
        None => None,
    };
    match msg {
        Some(m) => {
            match m.get("tool_calls") {
                Some(tc) => match tc.as_array() {
                    Some(tcs) => {
                        proof {
                            assert(Json::deep_elems(tcs@).skip(0) =~= Json::deep_elems(tcs@));
                            assert(out.deep_view() =~= Seq::<MessageV>::empty());
                            assert(Seq::<MessageV>::empty() + openai_call_msgs(
                                Json::deep_elems(tcs@),
                            ) =~= openai_call_msgs(Json::deep_elems(tcs@)));
                        }
                        extract_openai_calls(tcs, 0, &mut out);
                    },
                    None => {},
                },
                None => {},
            }
            let ghost precontent = out.deep_view();
            match m.get("content") {
                Some(c) => match c.as_str() {
                    Some(s) => {
                        out.push(Message::new_text(MessageRole::Assistant, s.as_str()));
                        proof {
                            assert(out.deep_view() =~= precontent + seq![
                                out@.last().deep_view(),
                            ]);
                        }
                    },
                    None => {},
                },
                None => {},
            }
        },
        None => {},
    }
    proof {
        assert(out.deep_view().len() == out@.len());
        if out@.len() > 0 {
            assert(openai_messages(data.deep()) == Ok::<Seq<MessageV>, Option<Seq<char>>>(
                out.deep_view(),
            ));
        }
    }
    if out.len() == 0 {
        return Err(Error::InvalidResponse);
    }
    Ok(out)
}

/// How one stream frame is classified: the first choice's delta text is
/// answer text; every other frame says nothing.
pub open spec fn openai_signal(j: JsonV) -> StreamSignalV {
    match jv_field(jv_field(jv_index(jv_field(j, "choices"@), 0), "delta"@), "content"@) {
        JsonV::Str(t) => StreamSignalV::TextDelta(t),
        _ => StreamSignalV::Ignore,
    }
}

/// Classifies one raw stream frame: the sentinel ends the stream; any
/// other frame must read as JSON, and one that does not is rejected as
/// `InvalidResponse`.
pub fn openai_stream_frame(text: &str) -> (r: Result<StreamSignal, Error>)
    ensures
        match r {
            Ok(sig) => if text@ == "[DONE]"@ {
                sig.deep_view() is Done
            } else {
                json_parse(text@) is Some && sig.deep_view() == openai_signal(
                    json_parse(text@).unwrap(),
                )
            },
            Err(e) => e == Error::InvalidResponse && text@ != "[DONE]"@ && json_parse(
                text@,
            ) is None,
        },
{
    if crate::text::str_eq(text, "[DONE]") {
        return Ok(StreamSignal::Done);
    }
    match parse_json(text) {
        Some(j) => {
            let t: Option<String> = match j.get("choices") {
                Some(cs) => match cs.as_array() {
                    Some(es) => if es.len() > 0 {
                        proof {
                            lemma_deep_elems(es@);
                        }
                        match es[0].get("delta") {
                            Some(d) => match d.get("content") {
                                Some(c) => match c.as_str() {
                                    Some(s) => Some(s.clone()),
                                    None => None,
                                },
                                None => None,
                            },
                            None => None,
                        }
                    } else {
                        None
                    },
                    None => None,
                },
                None => None,
            };
            match t {
                Some(s) => Ok(StreamSignal::TextDelta(s)),
                None => Ok(StreamSignal::Ignore),
            }
        },
        None => Err(Error::InvalidResponse),
    }
}

} // verus!
