//! Models: name, provider, capabilities, and token accounting.

use vstd::prelude::*;

verus! {

/// What a model can take as input.
#[derive(Debug, Clone, Copy, PartialEq, Eq, Structural)]
pub struct ModelCapabilities {
    pub text: bool,
    pub vision: bool,
}

impl ModelCapabilities {
    /// Text only.
    pub fn text_only() -> (r: Self)
        ensures
            r == (ModelCapabilities { text: true, vision: false }),
    {
        ModelCapabilities { text: true, vision: false }
    }

    /// Text and vision.
    pub fn text_and_vision() -> (r: Self)
        ensures
            r == (ModelCapabilities { text: true, vision: true }),
    {
        ModelCapabilities { text: true, vision: true }
    }

    /// Whether every capability asked for in `needed` is present here.
    pub fn contains(&self, needed: ModelCapabilities) -> (r: bool)
        ensures
            r == self.spec_contains(needed),
    {
        (!needed.text || self.text) && (!needed.vision || self.vision)
    }

    /// Whether every capability asked for in `needed` is present here.
    pub open spec fn spec_contains(self, needed: ModelCapabilities) -> bool {
        (needed.text ==> self.text) && (needed.vision ==> self.vision)
    }
}

/// Per-message and fixed token accounting factors of a model.
pub type TokensCountFactors = (usize, usize);

/// One model declared in a provider's configuration.
#[derive(Debug, Clone)]
pub struct ModelConfig {
    pub name: String,
    pub max_input_tokens: Option<usize>,
    pub capabilities: ModelCapabilities,
}

/// A ghost mirror of a model.
pub struct ModelV {
    pub client_name: Seq<char>,
    pub name: Seq<char>,
    pub capabilities: ModelCapabilities,
    pub max_input_tokens: Option<usize>,
    pub max_tokens: Option<u32>,
    pub tokens_count_factors: TokensCountFactors,
}

impl ModelV {
    /// The full id of a model: provider and name joined by a colon.
    pub open spec fn id(self) -> Seq<char> {
        self.client_name + seq![':'] + self.name
    }
}

/// One model of one provider. Immutable once constructed.
#[derive(Debug, PartialEq)]
pub struct Model {
    pub client_name: String,
    pub name: String,
    pub capabilities: ModelCapabilities,
    pub max_input_tokens: Option<usize>,
    pub max_tokens: Option<u32>,
    pub tokens_count_factors: TokensCountFactors,
}

impl DeepView for Model {
    type V = ModelV;

    open spec fn deep_view(&self) -> ModelV {
        ModelV {
            client_name: self.client_name@,
            name: self.name@,
            capabilities: self.capabilities,
            max_input_tokens: self.max_input_tokens,
            max_tokens: self.max_tokens,
            tokens_count_factors: self.tokens_count_factors,
        }
    }
}

impl Clone for Model {
    /// The clone mirrors the original.
    fn clone(&self) -> (r: Self)
        ensures
            r.deep_view() == self.deep_view(),
    {
        Model {
            client_name: self.client_name.clone(),
            name: self.name.clone(),
            capabilities: self.capabilities,
            max_input_tokens: self.max_input_tokens,
            max_tokens: self.max_tokens,
            tokens_count_factors: self.tokens_count_factors,
        }
    }
}

/// Whether `value` picks out `m`: it equals the full id or the bare name.
pub open spec fn model_matches(m: ModelV, value: Seq<char>) -> bool {
    value == m.id() || value == m.name
}

impl Model {
    /// A text-capable model of the given provider, with everything else
    /// left open.
    pub fn new(client_name: &str, name: &str) -> (r: Self)
        ensures
            r.deep_view() == (ModelV {
                client_name: client_name@,
                name: name@,
                capabilities: ModelCapabilities { text: true, vision: false },
                max_input_tokens: None,
                max_tokens: None,
                tokens_count_factors: (0, 0),
            }),
    {
        Model {
            client_name: client_name.to_owned(),
            name: name.to_owned(),
            capabilities: ModelCapabilities { text: true, vision: false },
            max_input_tokens: None,
            max_tokens: None,
            tokens_count_factors: (0, 0),
        }
    }

    /// The same model with the given capabilities.
    pub fn set_capabilities(self, capabilities: ModelCapabilities) -> (r: Self)
        ensures
            r.deep_view() == (ModelV { capabilities, ..self.deep_view() }),
    {
        Model { capabilities, ..self }
    }

    /// The same model with the given input-token ceiling.
    pub fn set_max_input_tokens(self, max_input_tokens: Option<usize>) -> (r: Self)
        ensures
            r.deep_view() == (ModelV { max_input_tokens, ..self.deep_view() }),
    {
        Model { max_input_tokens, ..self }
    }

    /// The same model with the given output-token request parameter.
    pub fn set_max_tokens(self, max_tokens: Option<u32>) -> (r: Self)
        ensures
            r.deep_view() == (ModelV { max_tokens, ..self.deep_view() }),
    {
        Model { max_tokens, ..self }
    }

    /// The same model with the given token accounting factors.
    pub fn set_tokens_count_factors(self, tokens_count_factors: TokensCountFactors) -> (r: Self)
        ensures
            r.deep_view() == (ModelV { tokens_count_factors, ..self.deep_view() }),
    {
        Model { tokens_count_factors, ..self }
    }

    /// The output-token request parameter, when the model declares one.
    pub fn max_tokens_param(&self) -> (r: Option<u32>)
        ensures
            r == self.max_tokens,
    {
        self.max_tokens
    }

    /// The full id: provider and name joined by a colon.
    pub fn id(&self) -> (r: String)
        ensures
            r@ == self.deep_view().id(),
    {
        let mut s = self.client_name.clone();
        s.append(":");
        s.append(self.name.as_str());
        proof {
            reveal_strlit(":");
            assert(self.client_name@ + ":"@ + self.name@ =~= self.deep_view().id());
        }
        s
    }

    /// The first model of `models` that `value` picks out, by full id or
    /// bare name; nothing when none matches.
    pub fn find(models: &Vec<Model>, value: &str) -> (r: Option<Model>)
        ensures
            match r {
                Some(m) => exists|i: int|
                    {
                        &&& 0 <= i < models@.len()
                        &&& m.deep_view() == models@[i].deep_view()
                        &&& model_matches(#[trigger] models@[i].deep_view(), value@)
                        &&& forall|j: int|
                            0 <= j < i ==> !model_matches(
                                #[trigger] models@[j].deep_view(),
                                value@,
                            )
                    },
                None => forall|i: int|
                    0 <= i < models@.len() ==> !model_matches(
                        #[trigger] models@[i].deep_view(),
                        value@,
                    ),
            },
    {
        let mut i: usize = 0;
        while i < models.len()
            invariant
                i <= models@.len(),
                forall|j: int|
                    0 <= j < i ==> !model_matches(#[trigger] models@[j].deep_view(), value@),
            decreases models@.len() - i,
        {
            let id = models[i].id();
            if crate::text::str_eq(id.as_str(), value) || crate::text::str_eq(
                models[i].name.as_str(),
                value,
            ) {
                return Some(models[i].clone());
            }
            i = i + 1;
        }
        None
    }
}

/// A ghost mirror of one declared model.
pub struct ModelConfigV {
    pub name: Seq<char>,
    pub max_input_tokens: Option<usize>,
    pub capabilities: ModelCapabilities,
}

impl DeepView for ModelConfig {
    type V = ModelConfigV;

    open spec fn deep_view(&self) -> ModelConfigV {
        ModelConfigV {
            name: self.name@,
            max_input_tokens: self.max_input_tokens,
            capabilities: self.capabilities,
        }
    }
}

/// The models a declared catalogue yields under the given provider name
/// and token factors.
pub open spec fn declared_models(
    cn: Seq<char>,
    ms: Seq<ModelConfigV>,
    factors: (usize, usize),
) -> Seq<ModelV> {
    Seq::new(
        ms.len(),
        |i: int|
            ModelV {
                client_name: cn,
                name: ms[i].name,
                capabilities: ms[i].capabilities,
                max_input_tokens: ms[i].max_input_tokens,
                max_tokens: None,
                tokens_count_factors: factors,
            },
    )
}

/// The models of a declared catalogue, under the given provider name and
/// token factors.
pub fn list_declared_models(cn: &str, ms: &Vec<ModelConfig>, factors: (usize, usize)) -> (r: Vec<
    Model,
>)
    ensures
        r.deep_view() == declared_models(cn@, ms.deep_view(), factors),
{
    let mut out: Vec<Model> = Vec::new();
    let mut i: usize = 0;
    while i < ms.len()
        invariant
            i <= ms@.len(),
            out@.len() == i,
            forall|j: int|
                0 <= j < i ==> (#[trigger] out@[j].deep_view()) == declared_models(
                    cn@,
                    ms.deep_view(),
                    factors,
                )[j],
        decreases ms@.len() - i,
    {
        let m = Model::new(cn, ms[i].name.as_str()).set_capabilities(ms[i].capabilities)
            .set_max_input_tokens(ms[i].max_input_tokens)
            .set_tokens_count_factors(factors);
        out.push(m);
        i = i + 1;
    }
    proof {
        assert(out.deep_view() =~= declared_models(cn@, ms.deep_view(), factors));
    }
    out
}

} // verus!
