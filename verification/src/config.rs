//! The configured gateway: its providers, its selected model, and how a
//! neutral request is prepared from an input.

use vstd::prelude::*;
use crate::client::{all_models, list_models, ClientConfig, SendData};
use crate::error::Error;
use crate::input::{Input, InputV};
use crate::json::{jv_text, Json, JsonV};
use crate::message::{Message, MessageContentV, MessageRole, MessageV};
use crate::model::{model_matches, Model};
use crate::utils::token_count;

verus! {

/// The gateway's configuration: the providers, the model in use, the
/// sampling temperature carried as a JSON number, and the session
/// compression threshold.
#[derive(Debug)]
pub struct AIGatewayConfig {
    pub model_id: Option<String>,
    pub temperature: Option<Json>,
    pub save_session: Option<bool>,
    pub compress_threshold: usize,
    pub clients: Vec<ClientConfig>,
    pub model: Model,
}

impl Default for AIGatewayConfig {
    /// One unnamed OpenAI-style provider, a threshold of 2000, and no
    /// model selected yet.
    fn default() -> (r: Self)
        ensures
            r.model_id is None,
            r.temperature is None,
            r.save_session is None,
            r.compress_threshold == 2000,
            r.clients@.len() == 1 && r.clients@[0] is OpenAIConfig,
    {
        AIGatewayConfig {
            model_id: None,
            temperature: None,
            save_session: None,
            compress_threshold: 2000,
            clients: vec![
                ClientConfig::OpenAIConfig(
                    crate::openai::OpenAIConfig {
                        name: None,
                        api_key: None,
                        api_base: None,
                        organization_id: None,
                        extra: None,
                    },
                ),
            ],
            model: Model::new("", ""),
        }
    }
}

/// The messages a request is built from: the input's own text as a user
/// message when there is any, then the history; an input with neither
/// text nor history builds nothing.
pub open spec fn built_messages(inp: InputV) -> Result<Seq<MessageV>, ()> {
    if inp.text is None && inp.history is None {
        Err(())
    } else {
        let own: Seq<MessageV> = match inp.text {
            Some(t) => if t.len() > 0 {
                seq![
                    MessageV::PlainText {
                        role: MessageRole::User,
                        content: MessageContentV::Text(t),
                    },
                ]
            } else {
                Seq::empty()
            },
            None => Seq::empty(),
        };
        let hist: Seq<MessageV> = match inp.history {
            Some(h) => h,
            None => Seq::empty(),
        };
        Ok(own + hist)
    }
}

/// The text of a message that the token estimate counts: its content,
/// or a requested call's name and arguments as JSON text.
pub open spec fn counted_text(m: MessageV) -> Seq<char> {
    match m {
        MessageV::PlainText { role: _, content } => crate::client::content_text(content),
        MessageV::FunctionReturn { id: _, role: _, name: _, content } => content,
        MessageV::FunctionCall { id: _, role: _, function_call } => jv_text(
            JsonV::Obj(
                seq![
                    ("name"@, JsonV::Str(function_call.name)),
                    ("arguments"@, function_call.arguments),
                ],
            ),
        ),
    }
}

/// The tokens the messages count up to, text by text.
pub open spec fn tokens_sum(ms: Seq<MessageV>) -> int
    decreases ms,
{
    if ms.len() == 0 {
        0
    } else {
        token_count(counted_text(ms[0])) + tokens_sum(ms.drop_first())
    }
}

/// The token estimate of a conversation: its texts' tokens, a
/// per-message charge, and a fixed bias.
pub open spec fn estimated_tokens(ms: Seq<MessageV>, factors: (usize, usize)) -> int {
    tokens_sum(ms) + factors.0 * ms.len() + factors.1
}

/// Counting one more message adds its text's tokens.
proof fn lemma_tokens_sum_take(ms: Seq<MessageV>, i: int)
    requires
        0 <= i < ms.len(),
    ensures
        tokens_sum(ms.take(i + 1)) == tokens_sum(ms.take(i)) + token_count(counted_text(ms[i])),
    decreases i,
{
    if i == 0 {
        assert(ms.take(1)[0] == ms[0]);
        assert(ms.take(1).drop_first() =~= ms.take(0));
        assert(tokens_sum(ms.take(0)) == 0);
    } else {
        lemma_tokens_sum_take(ms.drop_first(), i - 1);
        assert(ms.take(i + 1)[0] == ms[0]);
        assert(ms.take(i + 1).drop_first() =~= ms.drop_first().take(i));
        assert(ms.take(i)[0] == ms[0]);
        assert(ms.take(i).drop_first() =~= ms.drop_first().take(i - 1));
        assert(ms.drop_first()[i - 1] == ms[i]);
    }
}

/// A prefix never counts more tokens than the whole.
proof fn lemma_tokens_sum_prefix(ms: Seq<MessageV>, i: int)
    requires
        0 <= i <= ms.len(),
    ensures
        tokens_sum(ms.take(i)) <= tokens_sum(ms),
    decreases ms.len() - i,
{
    if i == ms.len() {
        assert(ms.take(i) =~= ms);
    } else {
        lemma_tokens_sum_take(ms, i);
        lemma_tokens_sum_prefix(ms, i + 1);
    }
}

/// The token text of one message.
fn counted_text_exec(m: &Message) -> (r: String)
    ensures
        r@ == counted_text(m.deep_view()),
{
    match m {
        Message::PlainText { role: _, content } => crate::client::content_text_exec(content),
        Message::FunctionReturn { id: _, role: _, name: _, content } => content.clone(),
        Message::FunctionCall { id: _, role: _, function_call } => {
            let mut entries: Vec<(String, Json)> = Vec::new();
            entries.push((String::from_str("name"), Json::Str(function_call.name.clone())));
            entries.push((String::from_str("arguments"), function_call.arguments.clone()));
            let j = Json::Obj(entries);
            proof {
                crate::json::lemma_deep_entries(j->Obj_0@);
                assert(j.deep()->Obj_0 =~= seq![
                    ("name"@, JsonV::Str(function_call.name@)),
                    ("arguments"@, function_call.arguments.deep()),
                ]);
            }
            j.to_text()
        },
    }
}

/// Whether the token estimate of `msgs` under `factors` exceeds `limit`.
fn exceeds_token_limit(msgs: &Vec<Message>, factors: (usize, usize), limit: usize) -> (r: bool)
    ensures
        r == (estimated_tokens(msgs.deep_view(), factors) > limit),
{
    let ghost dv = msgs.deep_view();
    proof {
        assert(dv.len() == msgs@.len());
    }
    let mut acc: u128 = 0;
    let mut i: usize = 0;
    while i < msgs.len()
        invariant
            i <= msgs@.len(),
            dv == msgs.deep_view(),
            dv.len() == msgs@.len(),
            acc as int == tokens_sum(dv.take(i as int)),
            acc <= limit + u64::MAX,
            limit + u64::MAX < u128::MAX,
        decreases msgs@.len() - i,
    {
        if acc > limit as u128 {
            proof {
                lemma_tokens_sum_prefix(dv, i as int);
                assert(tokens_sum(dv) > limit);
                assert(factors.0 * dv.len() >= 0) by (nonlinear_arith);
                assert(estimated_tokens(dv, factors) > limit);
            }
            return true;
        }
        let text = counted_text_exec(&msgs[i]);
        let c: usize = crate::utils::count_tokens(text.as_str());
        proof {
            lemma_tokens_sum_take(dv, i as int);
        }
        acc = acc + (c as u128);
        i = i + 1;
    }
    proof {
        assert(dv.take(dv.len() as int) =~= dv);
    }
    if acc > limit as u128 {
        proof {
            assert(factors.0 * dv.len() >= 0) by (nonlinear_arith);
        }
        return true;
    }
    proof {
        assert((factors.0 as u128) * (msgs@.len() as u128) <= (u64::MAX as u128) * (u64::MAX
            as u128)) by (nonlinear_arith)
            requires
                factors.0 <= u64::MAX,
                msgs@.len() <= u64::MAX,
        ;
    }
    let per: u128 = (factors.0 as u128) * (msgs.len() as u128);
    proof {
        assert(per as int == factors.0 * dv.len()) by (nonlinear_arith)
            requires
                per as int == (factors.0 as int) * (msgs@.len() as int),
                dv.len() == msgs@.len(),
        ;
    }
    let total: u128 = acc + per;
    if total > limit as u128 {
        return true;
    }
    let with_bias: u128 = total + (factors.1 as u128);
    with_bias > limit as u128
}

impl AIGatewayConfig {
    /// Builds the outgoing messages: the input's own non-empty text as a
    /// user message, then the history. An input with neither text nor
    /// history is rejected as malformed.
    pub fn build_messages(&self, input: &Input) -> (r: Result<Vec<Message>, Error>)
        ensures
            match r {
                Ok(ms) => built_messages(input.deep_view()) == Ok::<Seq<MessageV>, ()>(
                    ms.deep_view(),
                ),
                Err(e) => {
                    &&& e matches Error::MalformedInput { urls } && urls@.len() == 0
                    &&& built_messages(input.deep_view()) is Err
                },
            },
    {
        if input.is_empty() && !input.history_exists() {
            return Err(Error::MalformedInput { urls: Vec::new() });
        }
        let mut out: Vec<Message> = Vec::new();
        if !input.is_empty() {
            let t = input.to_message();
            if !t.as_str().is_empty() {
                out.push(Message::new_text(MessageRole::User, t.as_str()));
            }
        }
        proof {
            let inpv = input.deep_view();
            let spec_own: Seq<MessageV> = match inpv.text {
                Some(t) => if t.len() > 0 {
                    seq![
                        MessageV::PlainText {
                            role: MessageRole::User,
                            content: MessageContentV::Text(t),
                        },
                    ]
                } else {
                    Seq::empty()
                },
                None => Seq::empty(),
            };
            assert(out.deep_view() =~= spec_own);
        }
        let ghost own = out.deep_view();
        match input.get_history() {
            Some(h) => {
                let ghost histv = h.deep_view();
                let mut rest = h;
                while rest.len() > 0
                    invariant
                        out.deep_view() + rest.deep_view() == own + histv,
                    decreases rest@.len(),
                {
                    let ghost restpre = rest.deep_view();
                    let ghost outpre = out.deep_view();
                    let m = rest.remove(0);
                    proof {
                        assert(rest.deep_view() =~= restpre.drop_first());
                        assert(m.deep_view() == restpre[0]);
                    }
                    out.push(m);
                    proof {
                        assert(out.deep_view() =~= outpre + seq![restpre[0]]);
                        assert(out.deep_view() + rest.deep_view() =~= own + histv);
                    }
                }
                proof {
                    assert(rest.deep_view() =~= Seq::<MessageV>::empty());
                    assert(out.deep_view() =~= own + histv);
                }
            },
            None => {
                proof {
                    assert(out.deep_view() =~= own + Seq::<MessageV>::empty());
                }
            },
        }
        proof {
            assert(out.deep_view() =~= built_messages(input.deep_view())->Ok_0);
        }
        Ok(out)
    }

    /// Prepares the neutral request: the built messages, the configured
    /// temperature, the streaming flag, and the input's functions. A
    /// conversation whose token estimate exceeds the selected model's
    /// input ceiling is rejected as too long.
    pub fn prepare_send_data(&self, input: &Input, stream: bool) -> (r: Result<SendData, Error>)
        ensures
            match r {
                Ok(sd) => {
                    &&& built_messages(input.deep_view()) matches Ok(ms) && sd.deep_view().messages
                        == ms
                    &&& match self.model.max_input_tokens {
                        Some(limit) => estimated_tokens(
                            sd.deep_view().messages,
                            self.model.tokens_count_factors,
                        ) <= limit,
                        None => true,
                    }
                    &&& sd.deep_view().temperature == match self.temperature {
                        Some(ref t) => Some(t.deep()),
                        None => None::<JsonV>,
                    }
                    &&& sd.deep_view().top_p is None
                    &&& sd.deep_view().stream == stream
                    &&& sd.deep_view().functions == input.deep_view().functions
                },
                Err(Error::MalformedInput { urls }) => urls@.len() == 0 && built_messages(
                    input.deep_view(),
                ) is Err,
                Err(Error::InputTooLong { limit }) => {
                    &&& built_messages(input.deep_view()) matches Ok(ms)
                    &&& self.model.max_input_tokens == Some(limit)
                    &&& estimated_tokens(ms, self.model.tokens_count_factors) > limit
                },
                Err(_) => false,
            },
    {
        let messages = match self.build_messages(input) {
            Ok(ms) => ms,
            Err(e) => {
                return Err(e);
            },
        };
        match self.model.max_input_tokens {
            Some(limit) => {
                if exceeds_token_limit(&messages, self.model.tokens_count_factors, limit) {
                    return Err(Error::InputTooLong { limit });
                }
            },
            None => {},
        }
        let temperature: Option<Json> = match &self.temperature {
            Some(t) => Some(t.clone()),
            None => None,
        };
        Ok(
            SendData {
                messages,
                temperature,
                top_p: None,
                stream,
                functions: input.function_calls(),
            },
        )
    }

    /// Selects the first configured model that `value` picks out, by
    /// full id or bare name; an unknown value leaves the selection as it
    /// was and fails with `UnknownModel`.
    pub fn set_model(&mut self, value: &str) -> (r: Result<(), Error>)
        ensures
            final(self).model_id == old(self).model_id,
            final(self).temperature == old(self).temperature,
            final(self).save_session == old(self).save_session,
            final(self).compress_threshold == old(self).compress_threshold,
            final(self).clients == old(self).clients,
            match r {
                Ok(()) => exists|i: int|
                    {
                        &&& 0 <= i < all_models(old(self).clients@).len()
                        &&& final(self).model.deep_view() == all_models(old(self).clients@)[i]
                        &&& model_matches(#[trigger] all_models(old(self).clients@)[i], value@)
                        &&& forall|j: int|
                            0 <= j < i ==> !model_matches(
                                #[trigger] all_models(old(self).clients@)[j],
                                value@,
                            )
                    },
                Err(e) => {
                    &&& e matches Error::UnknownModel { id } && id@ == value@
                    &&& final(self).model == old(self).model
                    &&& forall|i: int|
                        0 <= i < all_models(old(self).clients@).len() ==> !model_matches(
                            #[trigger] all_models(old(self).clients@)[i],
                            value@,
                        )
                },
            },
    {
        let models = list_models(&self.clients);
        proof {
            assert(models.deep_view().len() == models@.len());
            assert forall|i: int| 0 <= i < models@.len() implies #[trigger] models@[i].deep_view()
                == all_models(self.clients@)[i] by {
                assert(models.deep_view()[i] == models@[i].deep_view());
            }
        }
        match Model::find(&models, value) {
            Some(m) => {
                self.model = m;
                Ok(())
            },
            None => Err(Error::UnknownModel { id: value.to_owned() }),
        }
    }

    /// Selects the configured model: the one `model_id` picks out, or
    /// the first configured model when none is set. A gateway without
    /// models, or with an id no model answers to, fails with
    /// `UnknownModel`.
    pub fn setup_model(&mut self) -> (r: Result<(), Error>)
        ensures
            final(self).model_id == old(self).model_id,
            final(self).temperature == old(self).temperature,
            final(self).save_session == old(self).save_session,
            final(self).compress_threshold == old(self).compress_threshold,
            final(self).clients == old(self).clients,
            match r {
                Ok(()) => {
                    let target = match old(self).model_id {
                        Some(ref v) => v@,
                        None => all_models(old(self).clients@)[0].id(),
                    };
                    &&& all_models(old(self).clients@).len() > 0
                    &&& exists|i: int|
                        {
                            &&& 0 <= i < all_models(old(self).clients@).len()
                            &&& final(self).model.deep_view() == all_models(old(self).clients@)[i]
                            &&& model_matches(#[trigger] all_models(old(self).clients@)[i], target)
                            &&& forall|j: int|
                                0 <= j < i ==> !model_matches(
                                    #[trigger] all_models(old(self).clients@)[j],
                                    target,
                                )
                        }
                },
                Err(e) => e is UnknownModel && final(self).model == old(self).model,
            },
    {
        let target: String = match &self.model_id {
            Some(v) => v.clone(),
            None => {
                let models = list_models(&self.clients);
                if models.len() == 0 {
                    return Err(Error::UnknownModel { id: String::new() });
                }
                proof {
                    assert(models.deep_view().len() == models@.len());
                    assert(models.deep_view()[0] == models@[0].deep_view());
                }
                models[0].id()
            },
        };
        match self.set_model(target.as_str()) {
            Ok(()) => Ok(()),
            Err(e) => Err(e),
        }
    }
}

} // verus!
