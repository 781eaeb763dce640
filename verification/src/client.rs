//! What every adapter shares: the neutral request, per-provider extras,
//! and helpers for putting values on the wire.

use vstd::prelude::*;
use crate::function::{FunctionDeclaration, FunctionDeclarationV, schema_jv};
use crate::json::{Json, JsonV};
use crate::message::{ContentPart, ContentPartV, Message, MessageContent, MessageContentV, MessageV};

verus! {

/// Settings that apply to any provider.
#[derive(Debug, Clone)]
pub struct ExtraConfig {
    pub proxy: Option<String>,
    pub connect_timeout: Option<u64>,
}

/// A ghost mirror of a neutral request.
pub struct SendDataV {
    pub messages: Seq<MessageV>,
    pub temperature: Option<JsonV>,
    pub top_p: Option<JsonV>,
    pub stream: bool,
    pub functions: Option<Seq<FunctionDeclarationV>>,
}

/// A neutral request: the conversation, sampling parameters carried as
/// JSON numbers, the streaming flag, and optional function declarations.
#[derive(Debug)]
pub struct SendData {
    pub messages: Vec<Message>,
    pub temperature: Option<Json>,
    pub top_p: Option<Json>,
    pub stream: bool,
    pub functions: Option<Vec<FunctionDeclaration>>,
}

impl DeepView for SendData {
    type V = SendDataV;

    open spec fn deep_view(&self) -> SendDataV {
        SendDataV {
            messages: self.messages.deep_view(),
            temperature: match self.temperature {
                Some(ref t) => Some(t.deep()),
                None => None,
            },
            top_p: match self.top_p {
                Some(ref t) => Some(t.deep()),
                None => None,
            },
            stream: self.stream,
            functions: self.functions.deep_view(),
        }
    }
}

/// A ghost mirror of a neutral output.
pub struct NeutralOutputV {
    pub text: Seq<char>,
    pub tool_calls: Seq<crate::function::ToolCallV>,
    pub id: Option<Seq<char>>,
    pub input_tokens: Option<u64>,
    pub output_tokens: Option<u64>,
}

/// What one completed call comes back as: the answer text, the tool calls
/// the model asked for, and the response id and token usage when the
/// vendor reports them. A valid output holds text or at least one call.
#[derive(Debug)]
pub struct NeutralOutput {
    pub text: String,
    pub tool_calls: Vec<crate::function::ToolCall>,
    pub id: Option<String>,
    pub input_tokens: Option<u64>,
    pub output_tokens: Option<u64>,
}

impl DeepView for NeutralOutput {
    type V = NeutralOutputV;

    open spec fn deep_view(&self) -> NeutralOutputV {
        NeutralOutputV {
            text: self.text@,
            tool_calls: self.tool_calls.deep_view(),
            id: self.id.deep_view(),
            input_tokens: self.input_tokens,
            output_tokens: self.output_tokens,
        }
    }
}

/// The field of an object, JSON null when absent or not an object.
pub open spec fn jv_field(j: JsonV, key: Seq<char>) -> JsonV {
    match j.get(key) {
        Some(v) => v,
        None => JsonV::Null,
    }
}

/// The element of an array, JSON null when out of range or not an array.
pub open spec fn jv_index(j: JsonV, i: int) -> JsonV {
    if j is Arr && 0 <= i < j->Arr_0.len() {
        j->Arr_0[i]
    } else {
        JsonV::Null
    }
}

/// An optional string as a JSON value: the string, or null.
pub open spec fn opt_str_jv(o: Option<Seq<char>>) -> JsonV {
    match o {
        Some(s) => JsonV::Str(s),
        None => JsonV::Null,
    }
}

/// The text of a list of parts: its text parts, joined.
pub open spec fn parts_text(ps: Seq<ContentPartV>) -> Seq<char>
    decreases ps,
{
    if ps.len() == 0 {
        Seq::empty()
    } else {
        (match ps[0] {
            ContentPartV::Text(t) => t,
            ContentPartV::ImageUrl(_) => Seq::empty(),
        }) + parts_text(ps.drop_first())
    }
}

/// The text of a message content: the text itself, the text parts joined,
/// or the text beside a batch of tool results.
pub open spec fn content_text(c: MessageContentV) -> Seq<char> {
    match c {
        MessageContentV::Text(t) => t,
        MessageContentV::Parts(ps) => parts_text(ps),
        MessageContentV::ToolResults(_, t) => t,
    }
}

/// Appends the text parts of `parts` from position `i` on.
fn parts_text_into(parts: &Vec<ContentPart>, i: usize, out: &mut String)
    requires
        i <= parts.len(),
    ensures
        final(out)@ == old(out)@ + parts_text(parts.deep_view().skip(i as int)),
    decreases parts@.len() - i,
{
    proof {
        assert(parts.deep_view().len() == parts@.len());
    }
    if i < parts.len() {
        proof {
            let dv = parts.deep_view();
            assert(dv.skip(i as int)[0] == dv[i as int]);
            assert(dv.skip(i as int).drop_first() =~= dv.skip(i + 1 as int));
        }
        match &parts[i] {
            ContentPart::Text { text } => {
                out.append(text.as_str());
            },
            ContentPart::ImageUrl { .. } => {},
        }
        parts_text_into(parts, i + 1, out);
    } else {
        proof {
            assert(parts_text(parts.deep_view().skip(i as int)) =~= Seq::<char>::empty());
        }
    }
}

/// The text of a message content.
pub fn content_text_exec(c: &MessageContent) -> (r: String)
    ensures
        r@ == content_text(c.deep_view()),
{
    match c {
        MessageContent::Text(t) => t.clone(),
        MessageContent::Parts(ps) => {
            let mut out = String::new();
            proof {
                assert(ps.deep_view().skip(0) =~= ps.deep_view());
            }
            parts_text_into(ps, 0, &mut out);
            out
        },
        MessageContent::ToolResults(_, t) => t.clone(),
    }
}

/// The wire forms of the declared functions, each under the vendor's
/// field names: `name`, `description`, and the schema under `schema_key`.
pub open spec fn decls_jv(fs: Seq<FunctionDeclarationV>, schema_key: Seq<char>) -> Seq<JsonV> {
    Seq::new(
        fs.len(),
        |i: int|
            JsonV::Obj(
                seq![
                    ("name"@, JsonV::Str(fs[i].name)),
                    ("description"@, JsonV::Str(fs[i].description)),
                    (schema_key, schema_jv(fs[i].parameters)),
                ],
            ),
    )
}

/// Serialises the declared functions for the wire, the schema under
/// `schema_key`.
pub fn decls_to_json(fs: &Vec<FunctionDeclaration>, schema_key: &str) -> (r: Vec<Json>)
    ensures
        Json::deep_elems(r@) == decls_jv(fs.deep_view(), schema_key@),
{
    let mut out: Vec<Json> = Vec::new();
    let mut i: usize = 0;
    while i < fs.len()
        invariant
            i <= fs@.len(),
            out@.len() == i,
            forall|j: int|
                0 <= j < i ==> (#[trigger] out@[j].deep()) == decls_jv(
                    fs.deep_view(),
                    schema_key@,
                )[j],
        decreases fs@.len() - i,
    {
        let mut entries: Vec<(String, Json)> = Vec::new();
        entries.push((String::from_str("name"), Json::Str(fs[i].name.clone())));
        entries.push((String::from_str("description"), Json::Str(fs[i].description.clone())));
        entries.push((schema_key.to_owned(), crate::function::schema_to_json(&fs[i].parameters)));
        let one = Json::Obj(entries);
        proof {
            crate::json::lemma_deep_entries(one->Obj_0@);
            assert(one.deep()->Obj_0 =~= decls_jv(fs.deep_view(), schema_key@)[i as int]->Obj_0);
        }
        out.push(one);
        i = i + 1;
    }
    proof {
        crate::json::lemma_deep_elems(out@);
        assert(Json::deep_elems(out@) =~= decls_jv(fs.deep_view(), schema_key@));
    }
    out
}

/// One configured provider, tagged by kind, or one of a kind this
/// gateway does not know.
#[derive(Debug, Clone)]
pub enum ClientConfig {
    OpenAIConfig(crate::openai::OpenAIConfig),
    ClaudeConfig(crate::claude::ClaudeConfig),
    OllamaConfig(crate::ollama::OllamaConfig),
    QianwenConfig(crate::qianwen::QianwenConfig),
    Unknown,
}

/// The provider name a configuration answers to: its `name`, or its
/// kind's default.
pub open spec fn config_display_name(c: ClientConfig) -> Seq<char> {
    match c {
        ClientConfig::OpenAIConfig(cfg) => crate::openai::display_name(
            cfg.name.deep_view(),
            "openai"@,
        ),
        ClientConfig::ClaudeConfig(cfg) => crate::openai::display_name(
            cfg.name.deep_view(),
            "anthropic"@,
        ),
        ClientConfig::OllamaConfig(cfg) => crate::openai::display_name(
            cfg.name.deep_view(),
            "ollama"@,
        ),
        ClientConfig::QianwenConfig(cfg) => crate::openai::display_name(
            cfg.name.deep_view(),
            "qianwen"@,
        ),
        ClientConfig::Unknown => Seq::empty(),
    }
}

/// The models one configured provider offers.
pub open spec fn config_models(c: ClientConfig) -> Seq<crate::model::ModelV> {
    match c {
        ClientConfig::OpenAIConfig(cfg) => crate::openai::openai_models(
            crate::openai::display_name(cfg.name.deep_view(), "openai"@),
        ),
        ClientConfig::ClaudeConfig(cfg) => crate::model::declared_models(
            crate::openai::display_name(cfg.name.deep_view(), "anthropic"@),
            cfg.models.deep_view(),
            (5usize, 2usize),
        ),
        ClientConfig::OllamaConfig(cfg) => crate::model::declared_models(
            crate::openai::display_name(cfg.name.deep_view(), "ollama"@),
            cfg.models.deep_view(),
            (5usize, 2usize),
        ),
        ClientConfig::QianwenConfig(cfg) => crate::qianwen::qianwen_models(
            crate::openai::display_name(cfg.name.deep_view(), "qianwen"@),
        ),
        ClientConfig::Unknown => Seq::empty(),
    }
}

/// The models of every configured provider, flattened: provider
/// declaration order first, catalogue order within each provider.
pub open spec fn all_models(cs: Seq<ClientConfig>) -> Seq<crate::model::ModelV>
    decreases cs,
{
    if cs.len() == 0 {
        Seq::empty()
    } else {
        config_models(cs[0]) + all_models(cs.drop_first())
    }
}

/// Every configured provider's models in one list: provider declaration
/// order first, catalogue order within each provider.
pub fn list_models(clients: &Vec<ClientConfig>) -> (r: Vec<crate::model::Model>)
    ensures
        r.deep_view() == all_models(clients@),
{
    let mut out: Vec<crate::model::Model> = Vec::new();
    let mut i: usize = 0;
    while i < clients.len()
        invariant
            i <= clients@.len(),
            out.deep_view() == all_models(clients@.take(i as int)),
        decreases clients@.len() - i,
    {
        let ghost pre = out.deep_view();
        let mut batch: Vec<crate::model::Model> = match &clients[i] {
            ClientConfig::OpenAIConfig(cfg) => crate::openai::OpenAIClient::list_models(cfg),
            ClientConfig::ClaudeConfig(cfg) => crate::claude::ClaudeClient::list_models(cfg),
            ClientConfig::OllamaConfig(cfg) => crate::ollama::OllamaClient::list_models(cfg),
            ClientConfig::QianwenConfig(cfg) => crate::qianwen::QianwenClient::list_models(cfg),
            ClientConfig::Unknown => Vec::new(),
        };
        let ghost batchv = batch.deep_view();
        proof {
            assert(batchv =~= config_models(clients@[i as int]));
        }
        let mut k: usize = 0;
        let blen = batch.len();
        while k < blen
            invariant
                k <= blen,
                blen == batch@.len(),
                batch.deep_view() == batchv,
                out.deep_view() =~= pre + batchv.take(k as int),
            decreases blen - k,
        {
            let ghost outpre2 = out.deep_view();
            let m = batch[k].clone();
            out.push(m);
            proof {
                assert(out.deep_view() =~= outpre2 + seq![batch@[k as int].deep_view()]);
                assert(batchv.take(k + 1 as int) =~= batchv.take(k as int) + seq![
                    batchv[k as int],
                ]);
                assert(out.deep_view() =~= pre + batchv.take(k + 1 as int));
            }
            k = k + 1;
        }
        proof {
            assert(batchv.take(batchv.len() as int) =~= batchv);
            lemma_all_models_take(clients@, i as int);
            assert(out.deep_view() =~= all_models(clients@.take(i + 1 as int)));
        }
        i = i + 1;
    }
    proof {
        assert(clients@.take(clients@.len() as int) =~= clients@);
    }
    out
}

/// Flattening one more provider appends its models.
proof fn lemma_all_models_take(cs: Seq<ClientConfig>, i: int)
    requires
        0 <= i < cs.len(),
    ensures
        all_models(cs.take(i + 1)) == all_models(cs.take(i)) + config_models(cs[i]),
    decreases i,
{
    if i == 0 {
        assert(cs.take(1)[0] == cs[0]);
        assert(cs.take(1).drop_first() =~= cs.take(0));
        assert(all_models(cs.take(0)) =~= Seq::<crate::model::ModelV>::empty());
        assert(all_models(cs.take(1)) =~= Seq::<crate::model::ModelV>::empty() + config_models(
            cs[0],
        ));
        assert(config_models(cs[0]) =~= Seq::<crate::model::ModelV>::empty() + config_models(
            cs[0],
        ));
    } else {
        lemma_all_models_take(cs.drop_first(), i - 1);
        assert(cs.take(i + 1)[0] == cs[0]);
        assert(cs.take(i + 1).drop_first() =~= cs.drop_first().take(i));
        assert(cs.take(i)[0] == cs[0]);
        assert(cs.take(i).drop_first() =~= cs.drop_first().take(i - 1));
        assert(cs.drop_first()[i - 1] == cs[i]);
        assert(all_models(cs.take(i + 1)) =~= config_models(cs[0]) + all_models(
            cs.drop_first().take(i),
        ));
        assert(all_models(cs.take(i)) + config_models(cs[i]) =~= config_models(cs[0]) + (
        all_models(cs.drop_first().take(i - 1)) + config_models(cs[i])));
    }
}

/// When the current model lacks a required capability, the first model
/// of the given list that has it takes its place; with none, the call
/// fails with `CapabilityUnavailable`. The list never crosses providers:
/// callers pass one provider's catalogue.
pub fn ensure_model_capabilities(
    current: &crate::model::Model,
    models: &Vec<crate::model::Model>,
    needed: crate::model::ModelCapabilities,
) -> (r: Result<crate::model::Model, crate::error::Error>)
    ensures
        match r {
            Ok(m) => if current.capabilities.spec_contains(needed) {
                m.deep_view() == current.deep_view()
            } else {
                exists|i: int|
                    {
                        &&& 0 <= i < models@.len()
                        &&& m.deep_view() == models@[i].deep_view()
                        &&& (#[trigger] models@[i].capabilities).spec_contains(needed)
                        &&& forall|j: int|
                            0 <= j < i ==> !(#[trigger] models@[j].capabilities).spec_contains(
                                needed,
                            )
                    }
            },
            Err(e) => {
                &&& e == crate::error::Error::CapabilityUnavailable
                &&& !current.capabilities.spec_contains(needed)
                &&& forall|i: int|
                    0 <= i < models@.len() ==> !(#[trigger] models@[i].capabilities).spec_contains(
                        needed,
                    )
            },
        },
{
    if current.capabilities.contains(needed) {
        return Ok(current.clone());
    }
    let mut i: usize = 0;
    while i < models.len()
        invariant
            i <= models@.len(),
            !current.capabilities.spec_contains(needed),
            forall|j: int|
                0 <= j < i ==> !(#[trigger] models@[j].capabilities).spec_contains(needed),
        decreases models@.len() - i,
    {
        if models[i].capabilities.contains(needed) {
            return Ok(models[i].clone());
        }
        i = i + 1;
    }
    Err(crate::error::Error::CapabilityUnavailable)
}

/// Whether a configured provider answers to `name`: it is of a known
/// kind and carries that provider name.
pub open spec fn config_matches(c: ClientConfig, name: Seq<char>) -> bool {
    !(c is Unknown) && config_display_name(c) == name
}

/// The first configured provider that answers to `client_name`, or
/// nothing: adapters are keyed by provider name.
pub fn find_client_config<'a>(clients: &'a Vec<ClientConfig>, client_name: &str) -> (r: Option<
    &'a ClientConfig,
>)
    ensures
        match r {
            Some(c) => exists|i: int|
                {
                    &&& 0 <= i < clients@.len()
                    &&& *c == clients@[i]
                    &&& config_matches(#[trigger] clients@[i], client_name@)
                    &&& forall|j: int|
                        0 <= j < i ==> !config_matches(#[trigger] clients@[j], client_name@)
                },
            None => forall|i: int|
                0 <= i < clients@.len() ==> !config_matches(#[trigger] clients@[i], client_name@),
        },
{
    let mut i: usize = 0;
    while i < clients.len()
        invariant
            i <= clients@.len(),
            forall|j: int|
                0 <= j < i ==> !config_matches(#[trigger] clients@[j], client_name@),
        decreases clients@.len() - i,
    {
        let name: &str = match &clients[i] {
            ClientConfig::OpenAIConfig(cfg) => match &cfg.name {
                Some(n) => n.as_str(),
                None => "openai",
            },
            ClientConfig::ClaudeConfig(cfg) => match &cfg.name {
                Some(n) => n.as_str(),
                None => "anthropic",
            },
            ClientConfig::OllamaConfig(cfg) => match &cfg.name {
                Some(n) => n.as_str(),
                None => "ollama",
            },
            ClientConfig::QianwenConfig(cfg) => match &cfg.name {
                Some(n) => n.as_str(),
                None => "qianwen",
            },
            ClientConfig::Unknown => "",
        };
        let hit: bool = match &clients[i] {
            ClientConfig::Unknown => false,
            _ => crate::text::str_eq(name, client_name),
        };
        if hit {
            return Some(&clients[i]);
        }
        i = i + 1;
    }
    None
}

/// The first configured provider that answers to `client_name`; an
/// unknown name fails with `UnknownProvider`, at resolution time.
pub fn resolve_provider<'a>(clients: &'a Vec<ClientConfig>, client_name: &str) -> (r: Result<
    &'a ClientConfig,
    crate::error::Error,
>)
    ensures
        match r {
            Ok(c) => exists|i: int|
                {
                    &&& 0 <= i < clients@.len()
                    &&& *c == clients@[i]
                    &&& config_matches(#[trigger] clients@[i], client_name@)
                    &&& forall|j: int|
                        0 <= j < i ==> !config_matches(#[trigger] clients@[j], client_name@)
                },
            Err(e) => {
                &&& e matches crate::error::Error::UnknownProvider { name } && name@
                    == client_name@
                &&& forall|i: int|
                    0 <= i < clients@.len() ==> !config_matches(
                        #[trigger] clients@[i],
                        client_name@,
                    )
            },
        },
{
    match find_client_config(clients, client_name) {
        Some(c) => Ok(c),
        None => Err(crate::error::Error::UnknownProvider { name: client_name.to_owned() }),
    }
}

} // verus!
