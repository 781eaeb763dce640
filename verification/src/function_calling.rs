//! Function-calling declarations in the OpenAI style, and the call a model
//! asks for inside a message.

use vstd::prelude::*;
use crate::json::{Json, JsonV};

verus! {

/// A ghost mirror of a requested call.
pub struct FunctionCallV {
    pub name: Seq<char>,
    pub arguments: JsonV,
}

/// A call the model asks for: a function name and its JSON arguments.
#[derive(Debug, PartialEq)]
pub struct FunctionCall {
    pub name: String,
    pub arguments: Json,
}

impl DeepView for FunctionCall {
    type V = FunctionCallV;

    open spec fn deep_view(&self) -> FunctionCallV {
        FunctionCallV { name: self.name@, arguments: self.arguments.deep() }
    }
}

impl Clone for FunctionCall {
    /// The clone mirrors the original.
    fn clone(&self) -> (r: Self)
        ensures
            r.deep_view() == self.deep_view(),
    {
        FunctionCall { name: self.name.clone(), arguments: self.arguments.clone() }
    }
}

/// One parameter of a declared function.
#[derive(Debug)]
pub struct Parameter {
    pub type_value: String,
    pub description: Option<String>,
    pub items: Option<Box<Parameter>>,
}

impl Clone for Parameter {
    fn clone(&self) -> (r: Self)
        decreases self,
    {
        Parameter {
            type_value: self.type_value.clone(),
            description: match &self.description {
                Some(d) => Some(d.clone()),
                None => None,
            },
            items: match &self.items {
                Some(b) => Some(Box::new((**b).clone())),
                None => None,
            },
        }
    }
}

/// The parameter schema of a declared function. Properties keep their
/// declaration order and are keyed by name.
#[derive(Debug, Clone)]
pub struct Parameters {
    pub type_value: String,
    pub properties: Vec<(String, Parameter)>,
    pub required: Vec<String>,
}

/// A function offered to the model.
#[derive(Debug, Clone)]
pub struct Function {
    pub name: String,
    pub description: String,
    pub parameters: Parameters,
}

/// A batch of declared functions.
#[derive(Debug, Clone)]
pub struct Functions {
    pub functions: Vec<Function>,
}

} // verus!
