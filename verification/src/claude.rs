//! The Anthropic-style adapter: system messages move to a top-level
//! field, tool results become a paired tool-use/tool-result exchange, and
//! images must be inline base64 data.

use vstd::prelude::*;
use crate::client::{
    content_text, decls_jv, decls_to_json, jv_field, jv_index, opt_str_jv, NeutralOutput,
    NeutralOutputV, SendData, SendDataV, ExtraConfig,
};
use crate::error::Error;
use crate::function::{ToolCall, ToolCallV, ToolCallResultV};
use crate::json::{
    jv_lookup, jv_text, lemma_deep_elems, lemma_deep_elems_concat, lemma_deep_entries, Json, JsonV,
};
use crate::message::{ContentPart, ContentPartV, Message, MessageContent, MessageContentV, MessageRole, MessageV};
use crate::model::{Model, ModelConfig, ModelV};
use crate::text::{
    chars_to_string, find_from, first_match_from, starts_with, starts_with_exec, str_chars,
    sub_chars,
};

verus! {

/// How the Anthropic-style provider is configured. It answers to the
/// provider name `anthropic` unless the configuration names it otherwise.
#[derive(Debug, Clone)]
pub struct ClaudeConfig {
    pub name: Option<String>,
    pub api_key: Option<String>,
    pub models: Vec<ModelConfig>,
    pub extra: Option<ExtraConfig>,
}

/// An Anthropic-style provider bound to one model.
#[derive(Debug)]
pub struct ClaudeClient {
    pub config: ClaudeConfig,
    pub model: Model,
}

impl ClaudeClient {
    /// The models this provider declares, under its configured name.
    pub fn list_models(local_config: &ClaudeConfig) -> (r: Vec<Model>)
        ensures
            r.deep_view() == crate::model::declared_models(
                crate::openai::display_name(local_config.name.deep_view(), "anthropic"@),
                local_config.models.deep_view(),
                (5usize, 2usize),
            ),
    {
        let cn: &str = match &local_config.name {
            Some(n) => n.as_str(),
            None => "anthropic",
        };
        crate::model::list_declared_models(cn, &local_config.models, (5, 2))
    }
}

/// The media type and payload of an inline-data URL: what stands between
/// `data:` and the first `;base64,`, and what follows it. Nothing when
/// the URL is not of that form — then it names a network resource.
pub open spec fn data_url_split(u: Seq<char>) -> Option<(Seq<char>, Seq<char>)> {
    if starts_with(u, "data:"@) {
        let rest = u.skip("data:"@.len() as int);
        match first_match_from(rest, ";base64,"@, 0) {
            Some(k) => Some((rest.take(k), rest.skip(k + ";base64,"@.len()))),
            None => None,
        }
    } else {
        None
    }
}

/// Splits an inline-data URL into media type and payload, or nothing for
/// a network URL.
pub fn parse_data_url(url: &str) -> (r: Option<(String, String)>)
    ensures
        match r {
            Some(p) => data_url_split(url@) == Some((p.0@, p.1@)),
            None => data_url_split(url@) is None,
        },
{
    let cs = str_chars(url);
    let pref = str_chars("data:");
    if !starts_with_exec(&cs, &pref) {
        return None;
    }
    let rest = sub_chars(&cs, pref.len(), cs.len());
    proof {
        assert(rest@ =~= url@.skip("data:"@.len() as int));
    }
    let marker = str_chars(";base64,");
    match find_from(&rest, &marker, 0) {
        Some(k) => {
            proof {
                crate::text::lemma_first_match_from(rest@, marker@, 0);
            }
            let mime = chars_to_string(&sub_chars(&rest, 0, k));
            let data = chars_to_string(&sub_chars(&rest, k + marker.len(), rest.len()));
            proof {
                assert(rest@.subrange(0, k as int) =~= rest@.take(k as int));
                assert(rest@.subrange(k + marker@.len(), rest@.len() as int) =~= rest@.skip(
                    k + ";base64,"@.len(),
                ));
            }
            Some((mime, data))
        },
        None => None,
    }
}

/// The wire form of one content part. An image appears as inline base64
/// data when its URL carries it; a network URL keeps only the URL, and
/// the request is rejected elsewhere.
pub open spec fn wire_part(p: ContentPartV) -> JsonV {
    match p {
        ContentPartV::Text(t) => JsonV::Obj(
            seq![("type"@, JsonV::Str("text"@)), ("text"@, JsonV::Str(t))],
        ),
        ContentPartV::ImageUrl(u) => match data_url_split(u) {
            Some(md) => JsonV::Obj(
                seq![
                    ("type"@, JsonV::Str("image"@)),
                    (
                        "source"@,
                        JsonV::Obj(
                            seq![
                                ("type"@, JsonV::Str("base64"@)),
                                ("media_type"@, JsonV::Str(md.0)),
                                ("data"@, JsonV::Str(md.1)),
                            ],
                        ),
                    ),
                ],
            ),
            None => JsonV::Obj(seq![("url"@, JsonV::Str(u))]),
        },
    }
}

/// The wire forms of a list of parts, in order.
pub open spec fn wire_parts(ps: Seq<ContentPartV>) -> Seq<JsonV> {
    Seq::new(ps.len(), |i: int| wire_part(ps[i]))
}

/// The network image URLs among `ps`, in order: every image URL that does
/// not carry inline data.
pub open spec fn part_bad_urls(ps: Seq<ContentPartV>) -> Seq<Seq<char>>
    decreases ps,
{
    if ps.len() == 0 {
        Seq::empty()
    } else {
        (match ps[0] {
            ContentPartV::ImageUrl(u) => if data_url_split(u) is None {
                seq![u]
            } else {
                Seq::empty()
            },
            ContentPartV::Text(_) => Seq::empty(),
        }) + part_bad_urls(ps.drop_first())
    }
}

/// Appends the wire forms of the parts from position `i` on, and the
/// network image URLs among them.
fn build_parts(parts: &Vec<ContentPart>, i: usize, out: &mut Vec<Json>, bad: &mut Vec<String>)
    requires
        i <= parts.len(),
    ensures
        Json::deep_elems(final(out)@) == Json::deep_elems(old(out)@) + wire_parts(
            parts.deep_view().skip(i as int),
        ),
        final(bad).deep_view() == old(bad).deep_view() + part_bad_urls(
            parts.deep_view().skip(i as int),
        ),
    decreases parts@.len() - i,
{
    let ghost dv = parts.deep_view();
    proof {
        assert(dv.len() == parts@.len());
    }
    if i == parts.len() {
        proof {
            assert(wire_parts(dv.skip(i as int)) =~= Seq::<JsonV>::empty());
            assert(part_bad_urls(dv.skip(i as int)) =~= Seq::<Seq<char>>::empty());
            assert(Json::deep_elems(out@) + Seq::<JsonV>::empty() =~= Json::deep_elems(out@));
            assert(bad.deep_view() + Seq::<Seq<char>>::empty() =~= bad.deep_view());
        }
    } else {
        proof {
            assert(dv.skip(i as int)[0] == dv[i as int]);
            assert(dv.skip(i as int).drop_first() =~= dv.skip(i + 1 as int));
        }
        let ghost outpre = out@;
        let ghost badpre = bad.deep_view();
        match &parts[i] {
            ContentPart::Text { text } => {
                let mut entries: Vec<(String, Json)> = Vec::new();
                entries.push((String::from_str("type"), Json::Str(String::from_str("text"))));
                entries.push((String::from_str("text"), Json::Str(text.clone())));
                let one = Json::Obj(entries);
                proof {
                    lemma_deep_entries(one->Obj_0@);
                    assert(one.deep()->Obj_0 =~= wire_part(dv[i as int])->Obj_0);
                }
                out.push(one);
            },
            ContentPart::ImageUrl { url } => {
                match parse_data_url(url.as_str()) {
                    Some(md) => {
                        let mut source: Vec<(String, Json)> = Vec::new();
                        source.push((
                            String::from_str("type"),
                            Json::Str(String::from_str("base64")),
                        ));
                        source.push((String::from_str("media_type"), Json::Str(md.0)));
                        source.push((String::from_str("data"), Json::Str(md.1)));
                        let src = Json::Obj(source);
                        let mut entries: Vec<(String, Json)> = Vec::new();
                        entries.push((
                            String::from_str("type"),
                            Json::Str(String::from_str("image")),
                        ));
                        entries.push((String::from_str("source"), src));
                        let one = Json::Obj(entries);
                        proof {
                            lemma_deep_entries(one->Obj_0@);
                            let srcv = wire_part(dv[i as int])->Obj_0[1].1;
                            lemma_deep_entries(one->Obj_0@[1].1->Obj_0@);
                            assert(one->Obj_0@[1].1.deep()->Obj_0 =~= srcv->Obj_0);
                            assert(one.deep()->Obj_0 =~= wire_part(dv[i as int])->Obj_0);
                        }
                        out.push(one);
                    },
                    None => {
                        let mut entries: Vec<(String, Json)> = Vec::new();
                        entries.push((String::from_str("url"), Json::Str(url.clone())));
                        let one = Json::Obj(entries);
                        proof {
                            lemma_deep_entries(one->Obj_0@);
                            assert(one.deep()->Obj_0 =~= wire_part(dv[i as int])->Obj_0);
                        }
                        out.push(one);
                        bad.push(url.clone());
                        proof {
                            assert(bad.deep_view() =~= badpre + seq![url@]);
                        }
                    },
                }
            },
        }
        let ghost outmid = out@;
        let ghost badmid = bad.deep_view();
        build_parts(parts, i + 1, out, bad);
        proof {
            assert(outmid =~= outpre + outmid.skip(outpre.len() as int));
            lemma_deep_elems_concat(outpre, outmid.skip(outpre.len() as int));
            lemma_deep_elems(outmid.skip(outpre.len() as int));
            assert(Json::deep_elems(outmid.skip(outpre.len() as int)) =~= seq![
                outmid.last().deep(),
            ]);
            assert(Json::deep_elems(out@) =~= Json::deep_elems(outpre) + wire_parts(
                dv.skip(i as int),
            ));
            assert(bad.deep_view() =~= badpre + part_bad_urls(dv.skip(i as int)));
        }
    }
}

/// A text content block.
pub open spec fn text_block_jv(t: Seq<char>) -> JsonV {
    JsonV::Obj(seq![("type"@, JsonV::Str("text"@)), ("text"@, JsonV::Str(t))])
}

/// The tool-use block of one result's call.
pub open spec fn tool_use_jv(r: ToolCallResultV) -> JsonV {
    JsonV::Obj(
        seq![
            ("type"@, JsonV::Str("tool_use"@)),
            ("id"@, opt_str_jv(r.call.id)),
            ("name"@, JsonV::Str(r.call.name)),
            ("input"@, r.call.arguments),
        ],
    )
}

/// The tool-result block of one result: its output as JSON text.
pub open spec fn tool_result_jv(r: ToolCallResultV) -> JsonV {
    JsonV::Obj(
        seq![
            ("type"@, JsonV::Str("tool_result"@)),
            ("tool_use_id"@, opt_str_jv(r.call.id)),
            ("content"@, JsonV::Str(jv_text(r.output))),
        ],
    )
}

/// The assistant-side blocks of a result batch: the text when there is
/// any, then one tool-use block per result.
pub open spec fn tool_use_blocks(rs: Seq<ToolCallResultV>, t: Seq<char>) -> Seq<JsonV> {
    (if t.len() > 0 {
        seq![text_block_jv(t)]
    } else {
        Seq::empty()
    }) + Seq::new(rs.len(), |i: int| tool_use_jv(rs[i]))
}

/// The user-side blocks of a result batch: one tool-result block each.
pub open spec fn tool_result_blocks(rs: Seq<ToolCallResultV>) -> Seq<JsonV> {
    Seq::new(rs.len(), |i: int| tool_result_jv(rs[i]))
}

/// A wire message: a role and a content value.
pub open spec fn msg_jv(role: Seq<char>, content: JsonV) -> JsonV {
    JsonV::Obj(seq![("role"@, JsonV::Str(role)), ("content"@, content)])
}

/// The wire messages one neutral message becomes: plain text keeps its
/// role; parts go under their role; a result batch becomes an assistant
/// tool-use message paired with a user tool-result message; a requested
/// call becomes an assistant tool-use message; a returned result becomes
/// a user tool-result message.
pub open spec fn claude_msgs_of(m: MessageV) -> Seq<JsonV> {
    match m {
        MessageV::PlainText { role, content } => match content {
            MessageContentV::Text(t) => seq![msg_jv(role.wire_name(), JsonV::Str(t))],
            MessageContentV::Parts(ps) => seq![
                msg_jv(role.wire_name(), JsonV::Arr(wire_parts(ps))),
            ],
            MessageContentV::ToolResults(rs, t) => seq![
                msg_jv("assistant"@, JsonV::Arr(tool_use_blocks(rs, t))),
                msg_jv("user"@, JsonV::Arr(tool_result_blocks(rs))),
            ],
        },
        MessageV::FunctionCall { id, role: _, function_call } => seq![
            msg_jv(
                "assistant"@,
                JsonV::Arr(
                    seq![
                        JsonV::Obj(
                            seq![
                                ("type"@, JsonV::Str("tool_use"@)),
                                ("id"@, opt_str_jv(id)),
                                ("name"@, JsonV::Str(function_call.name)),
                                ("input"@, function_call.arguments),
                            ],
                        ),
                    ],
                ),
            ),
        ],
        MessageV::FunctionReturn { id, role: _, name: _, content } => seq![
            msg_jv(
                "user"@,
                JsonV::Arr(
                    seq![
                        JsonV::Obj(
                            seq![
                                ("type"@, JsonV::Str("tool_result"@)),
                                ("tool_use_id"@, opt_str_jv(id)),
                                ("content"@, JsonV::Str(content)),
                            ],
                        ),
                    ],
                ),
            ),
        ],
    }
}

/// The network image URLs one message carries.
pub open spec fn msg_bad_urls(m: MessageV) -> Seq<Seq<char>> {
    match m {
        MessageV::PlainText { role: _, content: MessageContentV::Parts(ps) } => part_bad_urls(ps),
        _ => Seq::empty(),
    }
}

/// The wire messages of a whole conversation, in order.
pub open spec fn claude_wire_msgs(ms: Seq<MessageV>) -> Seq<JsonV>
    decreases ms,
{
    if ms.len() == 0 {
        Seq::empty()
    } else {
        claude_msgs_of(ms[0]) + claude_wire_msgs(ms.drop_first())
    }
}

/// The network image URLs of a whole conversation, in order.
pub open spec fn claude_bad_urls(ms: Seq<MessageV>) -> Seq<Seq<char>>
    decreases ms,
{
    if ms.len() == 0 {
        Seq::empty()
    } else {
        msg_bad_urls(ms[0]) + claude_bad_urls(ms.drop_first())
    }
}

/// The texts of the plain system messages, in order.
pub open spec fn system_texts(ms: Seq<MessageV>) -> Seq<Seq<char>>
    decreases ms,
{
    if ms.len() == 0 {
        Seq::empty()
    } else {
        (match ms[0] {
            MessageV::PlainText { role: MessageRole::System, content } => seq![
                content_text(content),
            ],
            _ => Seq::empty(),
        }) + system_texts(ms.drop_first())
    }
}

/// The messages that stay on the wire: everything but the plain system
/// messages, in their original order.
pub open spec fn non_system(ms: Seq<MessageV>) -> Seq<MessageV>
    decreases ms,
{
    if ms.len() == 0 {
        Seq::empty()
    } else {
        (match ms[0] {
            MessageV::PlainText { role: MessageRole::System, content: _ } => Seq::empty(),
            _ => seq![ms[0]],
        }) + non_system(ms.drop_first())
    }
}

/// System texts joined into one, a blank line between them.
pub open spec fn joined_system(ts: Seq<Seq<char>>) -> Seq<char>
    decreases ts.len(),
{
    if ts.len() == 0 {
        Seq::empty()
    } else if ts.len() == 1 {
        ts[0]
    } else {
        joined_system(ts.drop_last()) + "\n\n"@ + ts.last()
    }
}

/// The extracted system text and the remaining messages: every plain
/// system message moves out of the list, its text joined into the
/// dedicated top-level value; the rest keep their order.
pub open spec fn extract_system(ms: Seq<MessageV>) -> (Option<Seq<char>>, Seq<MessageV>) {
    (
        if system_texts(ms).len() == 0 {
            None
        } else {
            Some(joined_system(system_texts(ms)))
        },
        non_system(ms),
    )
}

/// The request body, or the offending network image URLs, in order, when
/// the request cannot be represented.
pub open spec fn claude_body(d: SendDataV, m: ModelV) -> Result<JsonV, Seq<Seq<char>>> {
    let sys = extract_system(d.messages).0;
    let msgs = extract_system(d.messages).1;
    let bad = claude_bad_urls(msgs);
    if bad.len() > 0 {
        Err(bad)
    } else {
        Ok(
            JsonV::Obj(
                seq![
                    ("model"@, JsonV::Str(m.name)),
                    ("messages"@, JsonV::Arr(claude_wire_msgs(msgs))),
                ] + (match sys {
                    Some(s) => seq![("system"@, JsonV::Str(s))],
                    None => Seq::empty(),
                }) + (match m.max_tokens {
                    Some(mt) => seq![("max_tokens"@, JsonV::Int(mt as int))],
                    None => Seq::empty(),
                }) + (match d.temperature {
                    Some(t) => seq![("temperature"@, t)],
                    None => Seq::empty(),
                }) + (match d.top_p {
                    Some(t) => seq![("top_p"@, t)],
                    None => Seq::empty(),
                }) + (if d.stream {
                    seq![("stream"@, JsonV::Bool(true))]
                } else {
                    Seq::empty()
                }) + (match d.functions {
                    Some(fs) => seq![("tools"@, JsonV::Arr(decls_jv(fs, "input_schema"@)))],
                    None => Seq::empty(),
                }),
            ),
        )
    }
}

/// An optional string as a JSON value.
fn opt_str_to_json(o: &Option<String>) -> (r: Json)
    ensures
        r.deep() == opt_str_jv(o.deep_view()),
{
    match o {
        Some(s) => Json::Str(s.clone()),
        None => Json::Null,
    }
}

/// The assistant-side blocks of a result batch.
fn build_tool_use_blocks(results: &Vec<crate::function::ToolCallResult>, text: &String) -> (r: Vec<
    Json,
>)
    ensures
        Json::deep_elems(r@) == tool_use_blocks(results.deep_view(), text@),
{
    let mut out: Vec<Json> = Vec::new();
    let off: usize = if !text.as_str().is_empty() {
        let mut entries: Vec<(String, Json)> = Vec::new();
        entries.push((String::from_str("type"), Json::Str(String::from_str("text"))));
        entries.push((String::from_str("text"), Json::Str(text.clone())));
        let one = Json::Obj(entries);
        proof {
            lemma_deep_entries(one->Obj_0@);
            assert(one.deep()->Obj_0 =~= text_block_jv(text@)->Obj_0);
        }
        out.push(one);
        1
    } else {
        0
    };
    let mut i: usize = 0;
    while i < results.len()
        invariant
            i <= results@.len(),
            out@.len() == off + i,
            off == if text@.len() > 0 { 1int } else { 0int },
            off == 1 ==> out@[0].deep() == text_block_jv(text@),
            forall|k: int|
                off <= k < off + i ==> (#[trigger] out@[k].deep()) == tool_use_jv(
                    results.deep_view()[k - off],
                ),
        decreases results@.len() - i,
    {
        let one = build_tool_use_block(
            &results[i].call.id,
            &results[i].call.name,
            &results[i].call.arguments,
        );
        proof {
            assert(one.deep()->Obj_0 =~= tool_use_jv(results.deep_view()[i as int])->Obj_0);
        }
        out.push(one);
        i = i + 1;
    }
    proof {
        lemma_deep_elems(out@);
        assert(Json::deep_elems(out@) =~= tool_use_blocks(results.deep_view(), text@));
    }
    out
}

/// The user-side blocks of a result batch.
fn build_tool_result_blocks(results: &Vec<crate::function::ToolCallResult>) -> (r: Vec<Json>)
    ensures
        Json::deep_elems(r@) == tool_result_blocks(results.deep_view()),
{
    let mut out: Vec<Json> = Vec::new();
    let mut i: usize = 0;
    while i < results.len()
        invariant
            i <= results@.len(),
            out@.len() == i,
            forall|k: int|
                0 <= k < i ==> (#[trigger] out@[k].deep()) == tool_result_jv(
                    results.deep_view()[k],
                ),
        decreases results@.len() - i,
    {
        let one = build_tool_result_block(&results[i].call.id, Json::Str(results[i].output.to_text()));
        proof {
            assert(one.deep()->Obj_0 =~= tool_result_jv(results.deep_view()[i as int])->Obj_0);
        }
        out.push(one);
        i = i + 1;
    }
    proof {
        lemma_deep_elems(out@);
        assert(Json::deep_elems(out@) =~= tool_result_blocks(results.deep_view()));
    }
    out
}

/// A single tool-use block.
fn build_tool_use_block(id: &Option<String>, name: &String, args: &Json) -> (r: Json)
    ensures
        r.deep() == JsonV::Obj(
            seq![
                ("type"@, JsonV::Str("tool_use"@)),
                ("id"@, opt_str_jv(id.deep_view())),
                ("name"@, JsonV::Str(name@)),
                ("input"@, args.deep()),
            ],
        ),
{
    let mut entries: Vec<(String, Json)> = Vec::new();
    entries.push((String::from_str("type"), Json::Str(String::from_str("tool_use"))));
    entries.push((String::from_str("id"), opt_str_to_json(id)));
    entries.push((String::from_str("name"), Json::Str(name.clone())));
    entries.push((String::from_str("input"), args.clone()));
    let r = Json::Obj(entries);
    proof {
        lemma_deep_entries(r->Obj_0@);
        assert(r.deep()->Obj_0 =~= seq![
            ("type"@, JsonV::Str("tool_use"@)),
            ("id"@, opt_str_jv(id.deep_view())),
            ("name"@, JsonV::Str(name@)),
            ("input"@, args.deep()),
        ]);
    }
    r
}

/// A single tool-result block with the given content value.
fn build_tool_result_block(id: &Option<String>, content: Json) -> (r: Json)
    ensures
        r.deep() == JsonV::Obj(
            seq![
                ("type"@, JsonV::Str("tool_result"@)),
                ("tool_use_id"@, opt_str_jv(id.deep_view())),
                ("content"@, content.deep()),
            ],
        ),
{
    let ghost cv = content.deep();
    let mut entries: Vec<(String, Json)> = Vec::new();
    entries.push((String::from_str("type"), Json::Str(String::from_str("tool_result"))));
    entries.push((String::from_str("tool_use_id"), opt_str_to_json(id)));
    entries.push((String::from_str("content"), content));
    let r = Json::Obj(entries);
    proof {
        lemma_deep_entries(r->Obj_0@);
        assert(r.deep()->Obj_0 =~= seq![
            ("type"@, JsonV::Str("tool_result"@)),
            ("tool_use_id"@, opt_str_jv(id.deep_view())),
            ("content"@, cv),
        ]);
    }
    r
}

/// A one-element JSON array.
fn single_arr(block: Json) -> (r: Json)
    ensures
        r.deep() == JsonV::Arr(seq![block.deep()]),
{
    let ghost bv = block.deep();
    let mut v: Vec<Json> = Vec::new();
    v.push(block);
    let r = Json::Arr(v);
    proof {
        lemma_deep_elems(r->Arr_0@);
        assert(Json::deep_elems(r->Arr_0@) =~= seq![bv]);
    }
    r
}

/// A wire message from a role and a content value.
fn build_msg(role: String, content: Json) -> (r: Json)
    ensures
        r.deep() == msg_jv(role@, content.deep()),
{
    let mut entries: Vec<(String, Json)> = Vec::new();
    entries.push((String::from_str("role"), Json::Str(role)));
    entries.push((String::from_str("content"), content));
    let r = Json::Obj(entries);
    proof {
        lemma_deep_entries(r->Obj_0@);
        assert(r.deep()->Obj_0 =~= msg_jv(role@, content.deep())->Obj_0);
    }
    r
}

/// Appends the wire messages from position `i` on, and the network image
/// URLs among them.
fn build_wire_msgs(msgs: &Vec<Message>, i: usize, out: &mut Vec<Json>, bad: &mut Vec<String>)
    requires
        i <= msgs.len(),
    ensures
        Json::deep_elems(final(out)@) == Json::deep_elems(old(out)@) + claude_wire_msgs(
            msgs.deep_view().skip(i as int),
        ),
        final(bad).deep_view() == old(bad).deep_view() + claude_bad_urls(
            msgs.deep_view().skip(i as int),
        ),
    decreases msgs@.len() - i,
{
    let ghost dv = msgs.deep_view();
    proof {
        assert(dv.len() == msgs@.len());
    }
    if i == msgs.len() {
        proof {
            assert(claude_wire_msgs(dv.skip(i as int)) =~= Seq::<JsonV>::empty());
            assert(claude_bad_urls(dv.skip(i as int)) =~= Seq::<Seq<char>>::empty());
            assert(Json::deep_elems(out@) + Seq::<JsonV>::empty() =~= Json::deep_elems(out@));
            assert(bad.deep_view() + Seq::<Seq<char>>::empty() =~= bad.deep_view());
        }
    } else {
        proof {
            assert(dv.skip(i as int)[0] == dv[i as int]);
            assert(dv.skip(i as int).drop_first() =~= dv.skip(i + 1 as int));
        }
        let ghost outpre = out@;
        let ghost badpre = bad.deep_view();
        match &msgs[i] {
            Message::PlainText { role, content } => {
                match content {
                    MessageContent::Text(t) => {
                        let m = build_msg(role.as_text(), Json::Str(t.clone()));
                        out.push(m);
                    },
                    MessageContent::Parts(ps) => {
                        let mut pj: Vec<Json> = Vec::new();
                        proof {
                            assert(ps.deep_view().skip(0) =~= ps.deep_view());
                            assert(Json::deep_elems(Seq::<Json>::empty())
                                =~= Seq::<JsonV>::empty());
                        }
                        build_parts(ps, 0, &mut pj, bad);
                        proof {
                            assert(Seq::<JsonV>::empty() + wire_parts(ps.deep_view())
                                =~= wire_parts(ps.deep_view()));
                            assert(badpre + part_bad_urls(ps.deep_view()) =~= badpre
                                + msg_bad_urls(dv[i as int]));
                        }
                        let m = build_msg(role.as_text(), Json::Arr(pj));
                        out.push(m);
                    },
                    MessageContent::ToolResults(results, text) => {
                        let blocks = build_tool_use_blocks(results, text);
                        let m1 = build_msg(String::from_str("assistant"), Json::Arr(blocks));
                        out.push(m1);
                        let rblocks = build_tool_result_blocks(results);
                        let m2 = build_msg(String::from_str("user"), Json::Arr(rblocks));
                        out.push(m2);
                    },
                }
            },
            Message::FunctionCall { id, role: _, function_call } => {
                let block = build_tool_use_block(id, &function_call.name, &function_call.arguments);
                let m = build_msg(String::from_str("assistant"), single_arr(block));
                proof {
                    assert(m.deep()->Obj_0 =~= claude_msgs_of(dv[i as int])[0]->Obj_0);
                }
                out.push(m);
            },
            Message::FunctionReturn { id, role: _, name: _, content } => {
                let block = build_tool_result_block(id, Json::Str(content.clone()));
                let m = build_msg(String::from_str("user"), single_arr(block));
                proof {
                    assert(m.deep()->Obj_0 =~= claude_msgs_of(dv[i as int])[0]->Obj_0);
                }
                out.push(m);
            },
        }
        proof {
            lemma_deep_elems(outpre);
            lemma_deep_elems(out@);
            assert(Json::deep_elems(out@) =~= Json::deep_elems(outpre) + claude_msgs_of(
                dv[i as int],
            ));
            assert(bad.deep_view() =~= badpre + msg_bad_urls(dv[i as int]));
        }
        let ghost outmid = Json::deep_elems(out@);
        let ghost badmid = bad.deep_view();
        build_wire_msgs(msgs, i + 1, out, bad);
        proof {
            lemma_deep_elems(out@);
            assert(Json::deep_elems(out@) =~= Json::deep_elems(outpre) + claude_wire_msgs(
                dv.skip(i as int),
            ));
            assert(bad.deep_view() =~= badpre + claude_bad_urls(dv.skip(i as int)));
        }
    }
}

/// Builds the request body for the Anthropic-style wire format, or
/// rejects the request with `MalformedInput` listing every network image
/// URL, in order, when any remaining message carries one. System
/// messages are extracted first, keeping only their text: their parts,
/// images included, never reach the wire or the image check.
#[verifier::rlimit(100)]
pub fn claude_build_chat_completions_body(data: SendData, model: &Model) -> (r: Result<Json, Error>)
    ensures
        match r {
            Ok(j) => claude_body(data.deep_view(), model.deep_view()) == Ok::<
                JsonV,
                Seq<Seq<char>>,
            >(j.deep()),
            Err(e) => {
                &&& claude_body(data.deep_view(), model.deep_view()) is Err
                &&& e matches Error::MalformedInput { urls } && urls.deep_view() == claude_body(
                    data.deep_view(),
                    model.deep_view(),
                )->Err_0
            },
        },
{
    let ghost dv = data.deep_view();
    let SendData { messages, temperature, top_p, stream, functions } = data;
    let mut pending = messages;
    let mut msgs: Vec<Message> = Vec::new();
    let mut system: Option<String> = None;
    let ghost mut stexts: Seq<Seq<char>> = Seq::empty();
    proof {
        assert(stexts + system_texts(pending.deep_view()) =~= system_texts(dv.messages));
        assert(msgs.deep_view() + non_system(pending.deep_view()) =~= non_system(dv.messages));
    }
    while pending.len() > 0
        invariant
            dv == data.deep_view(),
            stexts + system_texts(pending.deep_view()) == system_texts(dv.messages),
            msgs.deep_view() + non_system(pending.deep_view()) == non_system(dv.messages),
            match system {
                Some(ref acc) => stexts.len() > 0 && acc@ == joined_system(stexts),
                None => stexts.len() == 0,
            },
        decreases pending@.len(),
    {
        let ghost pre = pending.deep_view();
        let ghost msgspre = msgs.deep_view();
        let m = pending.remove(0);
        proof {
            assert(pending.deep_view() =~= pre.drop_first());
            assert(m.deep_view() == pre[0]);
        }
        let is_sys: bool = match &m {
            Message::PlainText { role, content: _ } => role.is_system(),
            _ => false,
        };
        if is_sys {
            match m {
                Message::PlainText { role: _, content } => {
                    let t = crate::client::content_text_exec(&content);
                    let ghost tview = t@;
                    system = match system {
                        None => Some(t),
                        Some(acc) => {
                            let mut joined = acc;
                            joined.append("\n\n");
                            joined.append(t.as_str());
                            Some(joined)
                        },
                    };
                    proof {
                        assert(system_texts(pre) =~= seq![tview] + system_texts(
                            pre.drop_first(),
                        ));
                        assert(non_system(pre) =~= non_system(pre.drop_first()));
                        let grown = stexts + seq![tview];
                        assert(grown.drop_last() =~= stexts);
                        assert(grown.last() == tview);
                        stexts = grown;
                        assert(stexts + system_texts(pending.deep_view()) =~= system_texts(
                            dv.messages,
                        ));
                    }
                },
                _ => {
                    proof {
                        assert(false);
                    }
                },
            }
        } else {
            msgs.push(m);
            proof {
                assert(system_texts(pre) =~= system_texts(pre.drop_first()));
                assert(non_system(pre) =~= seq![pre[0]] + non_system(pre.drop_first()));
                assert(msgs.deep_view() =~= msgspre + seq![pre[0]]);
                assert(msgs.deep_view() + non_system(pending.deep_view()) =~= non_system(
                    dv.messages,
                ));
            }
        }
    }
    let ghost ex = extract_system(dv.messages);
    proof {
        assert(pending.deep_view() =~= Seq::<MessageV>::empty());
        assert(stexts + Seq::<Seq<char>>::empty() =~= stexts);
        assert(msgs.deep_view() + Seq::<MessageV>::empty() =~= msgs.deep_view());
        assert(system.deep_view() == ex.0);
        assert(msgs.deep_view() == ex.1);
    }
    let mut wire: Vec<Json> = Vec::new();
    let mut bad: Vec<String> = Vec::new();
    proof {
        assert(msgs.deep_view().skip(0) =~= msgs.deep_view());
        assert(Json::deep_elems(Seq::<Json>::empty()) =~= Seq::<JsonV>::empty());
        assert(Seq::<JsonV>::empty() + claude_wire_msgs(ex.1) =~= claude_wire_msgs(ex.1));
        assert(Seq::<Seq<char>>::empty() + claude_bad_urls(ex.1) =~= claude_bad_urls(ex.1));
    }
    build_wire_msgs(&msgs, 0, &mut wire, &mut bad);
    if bad.len() > 0 {
        proof {
            assert(bad.deep_view().len() == bad@.len());
        }
        return Err(Error::MalformedInput { urls: bad });
    }
    proof {
        assert(bad.deep_view().len() == bad@.len());
        assert(claude_bad_urls(ex.1).len() == 0);
    }
    let mut entries: Vec<(String, Json)> = Vec::new();
    entries.push((String::from_str("model"), Json::Str(model.name.clone())));
    entries.push((String::from_str("messages"), Json::Arr(wire)));
    match system {
        Some(s) => {
            entries.push((String::from_str("system"), Json::Str(s)));
        },
        None => {},
    }
    match model.max_tokens_param() {
        Some(mt) => {
            entries.push((String::from_str("max_tokens"), Json::UInt(mt as u64)));
        },
        None => {},
    }
    match temperature {
        Some(t) => {
            entries.push((String::from_str("temperature"), t));
        },
        None => {},
    }
    match top_p {
        Some(t) => {
            entries.push((String::from_str("top_p"), t));
        },
        None => {},
    }
    if stream {
        entries.push((String::from_str("stream"), Json::Bool(true)));
    }
    match functions {
        Some(fs) => {
            let tools = decls_to_json(&fs, "input_schema");
            entries.push((String::from_str("tools"), Json::Arr(tools)));
        },
        None => {},
    }
    let body = Json::Obj(entries);
    proof {
        lemma_deep_entries(body->Obj_0@);
        let expect = claude_body(dv, model.deep_view())->Ok_0;
        assert(body.deep()->Obj_0 =~= expect->Obj_0);
    }
    Ok(body)
}

/// Whether some message among `ms` carries a network image: an image URL
/// that does not hold inline base64 data.
pub open spec fn has_network_image(ms: Seq<MessageV>) -> bool {
    exists|i: int, p: int|
        {
            &&& 0 <= i < ms.len()
            &&& ms[i] is PlainText
            &&& ms[i]->PlainText_content is Parts
            &&& 0 <= p < ms[i]->PlainText_content->Parts_0.len()
            &&& (#[trigger] ms[i]->PlainText_content->Parts_0[p]) is ImageUrl
            &&& data_url_split(ms[i]->PlainText_content->Parts_0[p]->ImageUrl_0) is None
        }
}

/// Law: the body builder rejects a request exactly when a message carries
/// a network image URL — one that does not hold inline base64 data — and
/// then lists exactly the offending URLs, in order; a request whose image
/// URLs all carry inline data is never rejected.
pub proof fn lemma_claude_rejects_network_images(d: SendDataV, m: ModelV)
    ensures
        claude_body(d, m) is Err <==> has_network_image(extract_system(d.messages).1),
        claude_body(d, m) is Err ==> claude_body(d, m)->Err_0 == claude_bad_urls(
            extract_system(d.messages).1,
        ),
{
    let ms = extract_system(d.messages).1;
    lemma_bad_urls_found(ms);
}

/// A conversation yields offending URLs exactly when some message's parts
/// hold a network image URL.
proof fn lemma_bad_urls_found(ms: Seq<MessageV>)
    ensures
        claude_bad_urls(ms).len() > 0 <==> has_network_image(ms),
    decreases ms,
{
    if ms.len() == 0 {
    } else {
        lemma_bad_urls_found(ms.drop_first());
        if ms[0] is PlainText && ms[0]->PlainText_content is Parts {
            lemma_part_bad_urls_found(ms[0]->PlainText_content->Parts_0);
        }
        let head_bad = msg_bad_urls(ms[0]);
        if claude_bad_urls(ms).len() > 0 {
            if head_bad.len() > 0 {
                let p = choose|p: int|
                    {
                        &&& 0 <= p < ms[0]->PlainText_content->Parts_0.len()
                        &&& (#[trigger] ms[0]->PlainText_content->Parts_0[p]) is ImageUrl
                        &&& data_url_split(
                            ms[0]->PlainText_content->Parts_0[p]->ImageUrl_0,
                        ) is None
                    };
                assert(ms[0] is PlainText && ms[0]->PlainText_content is Parts);
                assert({
                    let ps = ms[0]->PlainText_content->Parts_0;
                    &&& 0 <= p < ps.len()
                    &&& ps[p] is ImageUrl
                    &&& data_url_split(ps[p]->ImageUrl_0) is None
                });
            } else {
                let (i, p) = choose|i: int, p: int|
                    {
                        &&& 0 <= i < ms.drop_first().len()
                        &&& ms.drop_first()[i] is PlainText
                        &&& ms.drop_first()[i]->PlainText_content is Parts
                        &&& 0 <= p < ms.drop_first()[i]->PlainText_content->Parts_0.len()
                        &&& (#[trigger] ms.drop_first()[i]->PlainText_content->Parts_0[p])
                            is ImageUrl
                        &&& data_url_split(
                            ms.drop_first()[i]->PlainText_content->Parts_0[p]->ImageUrl_0,
                        ) is None
                    };
                assert(ms[i + 1] == ms.drop_first()[i]);
            }
        }
        if has_network_image(ms) {
            let (i, p) = choose|i: int, p: int|
                {
                    &&& 0 <= i < ms.len()
                    &&& ms[i] is PlainText
                    &&& ms[i]->PlainText_content is Parts
                    &&& 0 <= p < ms[i]->PlainText_content->Parts_0.len()
                    &&& (#[trigger] ms[i]->PlainText_content->Parts_0[p]) is ImageUrl
                    &&& data_url_split(ms[i]->PlainText_content->Parts_0[p]->ImageUrl_0) is None
                };
            if i == 0 {
            } else {
                assert(ms.drop_first()[i - 1] == ms[i]);
            }
        }
    }
}

/// A part list yields offending URLs exactly when it holds a network
/// image URL.
proof fn lemma_part_bad_urls_found(ps: Seq<ContentPartV>)
    ensures
        part_bad_urls(ps).len() > 0 <==> exists|p: int|
            {
                &&& 0 <= p < ps.len()
                &&& (#[trigger] ps[p]) is ImageUrl
                &&& data_url_split(ps[p]->ImageUrl_0) is None
            },
    decreases ps,
{
    if ps.len() > 0 {
        lemma_part_bad_urls_found(ps.drop_first());
        if part_bad_urls(ps.drop_first()).len() > 0 {
            let p = choose|p: int|
                {
                    &&& 0 <= p < ps.drop_first().len()
                    &&& (#[trigger] ps.drop_first()[p]) is ImageUrl
                    &&& data_url_split(ps.drop_first()[p]->ImageUrl_0) is None
                };
            assert(ps[p + 1] == ps.drop_first()[p]);
        }
        if exists|p: int|
            {
                &&& 0 <= p < ps.len()
                &&& (#[trigger] ps[p]) is ImageUrl
                &&& data_url_split(ps[p]->ImageUrl_0) is None
            } {
            let p = choose|p: int|
                {
                    &&& 0 <= p < ps.len()
                    &&& (#[trigger] ps[p]) is ImageUrl
                    &&& data_url_split(ps[p]->ImageUrl_0) is None
                };
            if p > 0 {
                assert(ps.drop_first()[p - 1] == ps[p]);
            }
        }
    }
}

/// The answer text of a response body: the `text` of the first content
/// block, empty when there is none.
pub open spec fn claude_text(j: JsonV) -> Seq<char> {
    match jv_field(jv_index(jv_field(j, "content"@), 0), "text"@) {
        JsonV::Str(t) => t,
        _ => Seq::empty(),
    }
}

/// The tool calls among content blocks: every block of type `tool_use`
/// with a string name, an input, and a string id, in order.
pub open spec fn claude_calls(es: Seq<JsonV>) -> Seq<ToolCallV>
    decreases es,
{
    if es.len() == 0 {
        Seq::empty()
    } else {
        (if jv_field(es[0], "type"@) == JsonV::Str("tool_use"@) && jv_field(es[0], "name"@) is Str
            && es[0].get("input"@) is Some && jv_field(es[0], "id"@) is Str {
            seq![
                ToolCallV {
                    name: jv_field(es[0], "name"@)->Str_0,
                    arguments: es[0].get("input"@).unwrap(),
                    id: Some(jv_field(es[0], "id"@)->Str_0),
                },
            ]
        } else {
            Seq::empty()
        }) + claude_calls(es.drop_first())
    }
}

/// The vendor's error envelope, when the body carries one: the nested
/// message, with the nested error type as the code when it is a string.
pub open spec fn claude_error(j: JsonV) -> Option<(Option<Seq<char>>, Seq<char>)> {
    match jv_field(jv_field(j, "error"@), "message"@) {
        JsonV::Str(msg) => Some(
            (
                match jv_field(jv_field(j, "error"@), "type"@) {
                    JsonV::Str(t) => Some(t),
                    _ => None,
                },
                msg,
            ),
        ),
        _ => None,
    }
}

/// What a unary response body yields: the vendor's error envelope when
/// it carries one; otherwise its text and tool calls, with the response
/// id and token usage when present; invalid when it holds neither text
/// nor a tool call.
pub open spec fn claude_output(j: JsonV) -> Result<
    NeutralOutputV,
    Option<(Option<Seq<char>>, Seq<char>)>,
> {
    let text = claude_text(j);
    let calls = if jv_field(j, "content"@) is Arr {
        claude_calls(jv_field(j, "content"@)->Arr_0)
    } else {
        Seq::empty()
    };
    if claude_error(j) is Some {
        Err(claude_error(j))
    } else if text.len() == 0 && calls.len() == 0 {
        Err(None)
    } else {
        Ok(
            NeutralOutputV {
                text,
                tool_calls: calls,
                id: match jv_field(j, "id"@) {
                    JsonV::Str(s) => Some(s),
                    _ => None,
                },
                input_tokens: jv_field(jv_field(j, "usage"@), "input_tokens"@).as_u64(),
                output_tokens: jv_field(jv_field(j, "usage"@), "output_tokens"@).as_u64(),
            },
        )
    }
}

/// Appends the tool calls among the content blocks from position `i` on.
fn extract_calls(es: &Vec<Json>, i: usize, out: &mut Vec<ToolCall>)
    requires
        i <= es.len(),
    ensures
        final(out).deep_view() == old(out).deep_view() + claude_calls(
            Json::deep_elems(es@).skip(i as int),
        ),
    decreases es@.len() - i,
{
    proof {
        lemma_deep_elems(es@);
    }
    let ghost dv = Json::deep_elems(es@);
    if i == es.len() {
        proof {
            assert(claude_calls(dv.skip(i as int)) =~= Seq::<ToolCallV>::empty());
            assert(out.deep_view() + Seq::<ToolCallV>::empty() =~= out.deep_view());
        }
    } else {
        proof {
            assert(dv.skip(i as int)[0] == dv[i as int]);
            assert(dv.skip(i as int).drop_first() =~= dv.skip(i + 1 as int));
        }
        let ghost pre = out.deep_view();
        let h = &es[i];
        let is_use: bool = match h.get("type") {
            Some(t) => match t.as_str() {
                Some(s) => crate::text::str_eq(s.as_str(), "tool_use"),
                None => false,
            },
            None => false,
        };
        if is_use {
            let nameo: Option<String> = match h.get("name") {
                Some(n) => match n.as_str() {
                    Some(s) => Some(s.clone()),
                    None => None,
                },
                None => None,
            };
            let inputo: Option<Json> = match h.get("input") {
                Some(x) => Some(x.clone()),
                None => None,
            };
            let ido: Option<String> = match h.get("id") {
                Some(d) => match d.as_str() {
                    Some(s) => Some(s.clone()),
                    None => None,
                },
                None => None,
            };
            match (nameo, inputo, ido) {
                (Some(n), Some(x), Some(d)) => {
                    out.push(ToolCall { name: n, arguments: x, id: Some(d) });
                    proof {
                        assert(out.deep_view() =~= pre + seq![out@.last().deep_view()]);
                    }
                },
                _ => {},
            }
        }
        let ghost mid = out.deep_view();
        extract_calls(es, i + 1, out);
        proof {
            assert(out.deep_view() =~= pre + claude_calls(dv.skip(i as int)));
        }
    }
}

/// Reads a unary response body: a vendor error envelope fails with
/// `UpstreamError`; otherwise the text and the tool calls come back,
/// with the response id and token usage when present, and a body with
/// neither is rejected as `InvalidResponse`.
pub fn claude_extract_chat_completions(data: &Json) -> (r: Result<NeutralOutput, Error>)
    ensures
        match r {
            Ok(o) => claude_output(data.deep()) == Ok::<
                NeutralOutputV,
                Option<(Option<Seq<char>>, Seq<char>)>,
            >(o.deep_view()),
            Err(Error::UpstreamError { code, message }) => claude_output(data.deep()) == Err::<
                NeutralOutputV,
                Option<(Option<Seq<char>>, Seq<char>)>,
            >(Some((code.deep_view(), message@))),
            Err(Error::InvalidResponse) => claude_output(data.deep()) == Err::<
                NeutralOutputV,
                Option<(Option<Seq<char>>, Seq<char>)>,
            >(None),
            Err(_) => false,
        },
{
    match data.get("error") {
        Some(e) => {
            let message: Option<&String> = match e.get("message") {
                Some(m) => m.as_str(),
                None => None,
            };
            match message {
                Some(msg) => {
                    let code: Option<String> = match e.get("type") {
                        Some(t) => match t.as_str() {
                            Some(c) => Some(c.clone()),
                            None => None,
                        },
                        None => None,
                    };
                    return Err(Error::UpstreamError { code, message: msg.clone() });
                },
                None => {},
            }
        },
        None => {},
    }
    let mut text: String = String::new();
    let mut calls: Vec<ToolCall> = Vec::new();
    match data.get("content") {
        Some(c) => match c.as_array() {
            Some(es) => {
                proof {
                    lemma_deep_elems(es@);
                }
                if es.len() > 0 {
                    match es[0].get("text") {
                        Some(t) => match t.as_str() {
                            Some(s) => {
                                text = s.clone();
                            },
                            None => {},
                        },
                        None => {},
                    }
                }
                proof {
                    assert(Json::deep_elems(es@).skip(0) =~= Json::deep_elems(es@));
                    assert(calls.deep_view() =~= Seq::<ToolCallV>::empty());
                    assert(Seq::<ToolCallV>::empty() + claude_calls(Json::deep_elems(es@))
                        =~= claude_calls(Json::deep_elems(es@)));
                }
                extract_calls(es, 0, &mut calls);
            },
            None => {},
        },
        None => {},
    }
    let id: Option<String> = match data.get("id") {
        Some(v) => match v.as_str() {
            Some(s) => Some(s.clone()),
            None => None,
        },
        None => None,
    };
    let input_tokens: Option<u64> = match data.get("usage") {
        Some(u) => match u.get("input_tokens") {
            Some(v) => v.as_u64(),
            None => None,
        },
        None => None,
    };
    let output_tokens: Option<u64> = match data.get("usage") {
        Some(u) => match u.get("output_tokens") {
            Some(v) => v.as_u64(),
            None => None,
        },
        None => None,
    };
    proof {
        assert(calls.deep_view().len() == calls@.len());
    }
    if text.as_str().is_empty() && calls.len() == 0 {
        return Err(Error::InvalidResponse);
    }
    Ok(NeutralOutput { text, tool_calls: calls, id, input_tokens, output_tokens })
}

/// Law: the system text survives the round trip. Building a body from a
/// request that holds system messages puts their joined text in the
/// body's `system` field; parsing the vendor's unary response shape that
/// echoes the field back as its only text block yields exactly that text
/// as the answer, with no tool calls. (An empty system text is left out:
/// a response that echoes it holds neither text nor calls and is
/// rejected as invalid.)
pub proof fn lemma_claude_system_round_trip(d: SendDataV, m: ModelV)
    requires
        system_texts(d.messages).len() > 0,
        joined_system(system_texts(d.messages)).len() > 0,
        claude_body(d, m) is Ok,
    ensures
        ({
            let sys = joined_system(system_texts(d.messages));
            let echo = JsonV::Obj(seq![("content"@, JsonV::Arr(seq![text_block_jv(sys)]))]);
            &&& jv_lookup(claude_body(d, m)->Ok_0->Obj_0, "system"@) == Some(JsonV::Str(sys))
            &&& claude_output(echo) == Ok::<
                NeutralOutputV,
                Option<(Option<Seq<char>>, Seq<char>)>,
            >(
                NeutralOutputV {
                    text: sys,
                    tool_calls: Seq::empty(),
                    id: None,
                    input_tokens: None,
                    output_tokens: None,
                },
            )
        }),
{
    reveal_strlit("model");
    reveal_strlit("messages");
    reveal_strlit("system");
    reveal_strlit("content");
    reveal_strlit("type");
    reveal_strlit("text");
    reveal_strlit("tool_use");
    reveal_strlit("id");
    reveal_strlit("usage");
    reveal_strlit("error");
    let sys = joined_system(system_texts(d.messages));
    let body = claude_body(d, m)->Ok_0;
    let entries = body->Obj_0;
    assert(extract_system(d.messages).0 == Some(sys));
    assert(entries[0] == ("model"@, JsonV::Str(m.name)));
    assert(entries[2] == ("system"@, JsonV::Str(sys)));
    assert("model"@ != "system"@) by {
        assert("model"@.len() == 5 && "system"@.len() == 6);
    }
    assert("messages"@ != "system"@) by {
        assert("messages"@.len() == 8);
    }
    assert(jv_lookup(entries, "system"@) == jv_lookup(entries.drop_first(), "system"@));
    assert(jv_lookup(entries.drop_first(), "system"@) == jv_lookup(
        entries.drop_first().drop_first(),
        "system"@,
    ));
    assert(entries.drop_first().drop_first()[0] == ("system"@, JsonV::Str(sys)));
    let echo = JsonV::Obj(seq![("content"@, JsonV::Arr(seq![text_block_jv(sys)]))]);
    let block = text_block_jv(sys);
    assert(jv_field(echo, "content"@) == JsonV::Arr(seq![block]));
    assert(jv_index(jv_field(echo, "content"@), 0) == block);
    assert("type"@ != "text"@) by {
        assert("type"@[1] == 'y' && "text"@[1] == 'e');
    }
    assert(jv_field(block, "text"@) == JsonV::Str(sys)) by {
        assert(jv_lookup(block->Obj_0, "text"@) == jv_lookup(block->Obj_0.drop_first(), "text"@));
        assert(block->Obj_0.drop_first()[0] == ("text"@, JsonV::Str(sys)));
    }
    assert(claude_text(echo) == sys);
    assert(jv_field(block, "type"@) == JsonV::Str("text"@));
    assert(JsonV::Str("text"@) != JsonV::Str("tool_use"@)) by {
        assert("text"@.len() == 4 && "tool_use"@.len() == 8);
    }
    assert(claude_calls(seq![block]) =~= claude_calls(seq![block].drop_first()));
    assert(claude_calls(seq![block].drop_first()) =~= Seq::<ToolCallV>::empty()) by {
        assert(seq![block].drop_first().len() == 0);
    }
    assert("content"@ != "id"@) by {
        assert("id"@.len() == 2);
    }
    assert("content"@ != "usage"@) by {
        assert("usage"@.len() == 5);
    }
    assert(jv_field(echo, "id"@) == JsonV::Null) by {
        assert(jv_lookup(echo->Obj_0, "id"@) == jv_lookup(echo->Obj_0.drop_first(), "id"@));
        assert(echo->Obj_0.drop_first().len() == 0);
    }
    assert(jv_field(echo, "usage"@) == JsonV::Null) by {
        assert(jv_lookup(echo->Obj_0, "usage"@) == jv_lookup(echo->Obj_0.drop_first(), "usage"@));
        assert(echo->Obj_0.drop_first().len() == 0);
    }
    assert(jv_field(echo, "error"@) == JsonV::Null) by {
        assert("content"@ != "error"@) by {
            assert("error"@.len() == 5 && "content"@.len() == 7);
        }
        assert(jv_lookup(echo->Obj_0, "error"@) == jv_lookup(echo->Obj_0.drop_first(), "error"@));
        assert(echo->Obj_0.drop_first().len() == 0);
    }
    assert(claude_error(echo) is None);
}

/// How one stream frame is classified: a content-block start of type
/// `tool_use` opens a call with its name and id; a delta carries either
/// answer text or an argument fragment; a stop closes the open call;
/// every other frame type says nothing.
pub open spec fn claude_signal(j: JsonV) -> crate::stream::StreamSignalV {
    if jv_field(j, "type"@) == JsonV::Str("content_block_start"@) {
        if jv_field(jv_field(j, "content_block"@), "type"@) == JsonV::Str("tool_use"@) && jv_field(
            jv_field(j, "content_block"@),
            "name"@,
        ) is Str && jv_field(jv_field(j, "content_block"@), "id"@) is Str {
            crate::stream::StreamSignalV::ToolCallStart(
                jv_field(jv_field(j, "content_block"@), "name"@)->Str_0,
                jv_field(jv_field(j, "content_block"@), "id"@)->Str_0,
            )
        } else {
            crate::stream::StreamSignalV::Ignore
        }
    } else if jv_field(j, "type"@) == JsonV::Str("content_block_delta"@) {
        if jv_field(jv_field(j, "delta"@), "text"@) is Str {
            crate::stream::StreamSignalV::TextDelta(jv_field(jv_field(j, "delta"@), "text"@)->Str_0)
        } else if jv_field(jv_field(j, "delta"@), "partial_json"@) is Str {
            crate::stream::StreamSignalV::ToolCallFragment(
                jv_field(jv_field(j, "delta"@), "partial_json"@)->Str_0,
            )
        } else {
            crate::stream::StreamSignalV::Ignore
        }
    } else if jv_field(j, "type"@) == JsonV::Str("content_block_stop"@) {
        crate::stream::StreamSignalV::ToolCallClosed
    } else {
        crate::stream::StreamSignalV::Ignore
    }
}

/// Classifies one decoded stream frame.
pub fn claude_parse_stream_frame(data: &Json) -> (r: crate::stream::StreamSignal)
    ensures
        r.deep_view() == claude_signal(data.deep()),
{
    let typ: Option<&String> = match data.get("type") {
        Some(t) => t.as_str(),
        None => None,
    };
    match typ {
        Some(t) => {
            if crate::text::str_eq(t.as_str(), "content_block_start") {
                let block = data.get("content_block");
                let is_use: bool = match block {
                    Some(b) => match b.get("type") {
                        Some(bt) => match bt.as_str() {
                            Some(s) => crate::text::str_eq(s.as_str(), "tool_use"),
                            None => false,
                        },
                        None => false,
                    },
                    None => false,
                };
                if is_use {
                    let nameo: Option<String> = match block {
                        Some(b) => match b.get("name") {
                            Some(n) => match n.as_str() {
                                Some(s) => Some(s.clone()),
                                None => None,
                            },
                            None => None,
                        },
                        None => None,
                    };
                    let ido: Option<String> = match block {
                        Some(b) => match b.get("id") {
                            Some(n) => match n.as_str() {
                                Some(s) => Some(s.clone()),
                                None => None,
                            },
                            None => None,
                        },
                        None => None,
                    };
                    match (nameo, ido) {
                        (Some(n), Some(d)) => crate::stream::StreamSignal::ToolCallStart(n, d),
                        _ => crate::stream::StreamSignal::Ignore,
                    }
                } else {
                    crate::stream::StreamSignal::Ignore
                }
            } else if crate::text::str_eq(t.as_str(), "content_block_delta") {
                let delta = data.get("delta");
                let texto: Option<String> = match delta {
                    Some(d) => match d.get("text") {
                        Some(x) => match x.as_str() {
                            Some(s) => Some(s.clone()),
                            None => None,
                        },
                        None => None,
                    },
                    None => None,
                };
                match texto {
                    Some(tx) => crate::stream::StreamSignal::TextDelta(tx),
                    None => {
                        let frago: Option<String> = match delta {
                            Some(d) => match d.get("partial_json") {
                                Some(x) => match x.as_str() {
                                    Some(s) => Some(s.clone()),
                                    None => None,
                                },
                                None => None,
                            },
                            None => None,
                        };
                        match frago {
                            Some(f) => crate::stream::StreamSignal::ToolCallFragment(f),
                            None => crate::stream::StreamSignal::Ignore,
                        }
                    },
                }
            } else if crate::text::str_eq(t.as_str(), "content_block_stop") {
                crate::stream::StreamSignal::ToolCallClosed
            } else {
                crate::stream::StreamSignal::Ignore
            }
        },
        None => crate::stream::StreamSignal::Ignore,
    }
}

/// Classifies one raw stream frame: the frame must read as JSON; one
/// that does not is rejected as `InvalidResponse`.
pub fn claude_stream_frame(text: &str) -> (r: Result<crate::stream::StreamSignal, Error>)
    ensures
        match r {
            Ok(sig) => crate::json::json_parse(text@) is Some && sig.deep_view() == claude_signal(
                crate::json::json_parse(text@).unwrap(),
            ),
            Err(e) => e == Error::InvalidResponse && crate::json::json_parse(text@) is None,
        },
{
    match crate::json::parse_json(text) {
        Some(j) => Ok(claude_parse_stream_frame(&j)),
        None => Err(Error::InvalidResponse),
    }
}

} // verus!
