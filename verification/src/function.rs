//! Tool calls, their results, and declared functions.

use vstd::prelude::*;
use crate::json::{Json, JsonV, lemma_deep_elems, lemma_deep_entries};

verus! {

/// A ghost mirror of a tool call.
pub struct ToolCallV {
    pub name: Seq<char>,
    pub arguments: JsonV,
    pub id: Option<Seq<char>>,
}

/// A call requested by the model: a function name, JSON arguments, and an
/// id when the vendor correlates calls and results by identifier.
#[derive(Debug, PartialEq)]
pub struct ToolCall {
    pub name: String,
    pub arguments: Json,
    pub id: Option<String>,
}

impl DeepView for ToolCall {
    type V = ToolCallV;

    open spec fn deep_view(&self) -> ToolCallV {
        ToolCallV {
            name: self.name@,
            arguments: self.arguments.deep(),
            id: self.id.deep_view(),
        }
    }
}

impl Clone for ToolCall {
    /// The clone mirrors the original.
    fn clone(&self) -> (r: Self)
        ensures
            r.deep_view() == self.deep_view(),
    {
        ToolCall {
            name: self.name.clone(),
            arguments: self.arguments.clone(),
            id: match &self.id {
                Some(s) => Some(s.clone()),
                None => None,
            },
        }
    }
}

/// A ghost mirror of a tool-call result.
pub struct ToolCallResultV {
    pub call: ToolCallV,
    pub output: JsonV,
}

/// The outcome of running one tool call.
#[derive(Debug, PartialEq)]
pub struct ToolCallResult {
    pub call: ToolCall,
    pub output: Json,
}

impl DeepView for ToolCallResult {
    type V = ToolCallResultV;

    open spec fn deep_view(&self) -> ToolCallResultV {
        ToolCallResultV { call: self.call.deep_view(), output: self.output.deep() }
    }
}

impl Clone for ToolCallResult {
    /// The clone mirrors the original.
    fn clone(&self) -> (r: Self)
        ensures
            r.deep_view() == self.deep_view(),
    {
        ToolCallResult { call: self.call.clone(), output: self.output.clone() }
    }
}

impl ToolCallResult {
    /// Pairs a call with its output.
    pub fn new(call: ToolCall, output: Json) -> (r: Self)
        ensures
            r.call == call,
            r.output == output,
    {
        ToolCallResult { call, output }
    }
}

/// A batch of results needs sending to the model iff at least one output
/// is not JSON null.
pub fn need_send_call_results(arr: &Vec<ToolCallResult>) -> (r: bool)
    ensures
        r == exists|i: int| 0 <= i < arr@.len() && !((#[trigger] arr@[i].output.deep()) is Null),
{
    let mut i: usize = 0;
    while i < arr.len()
        invariant
            i <= arr@.len(),
            forall|j: int| 0 <= j < i ==> (#[trigger] arr@[j].output.deep()) is Null,
        decreases arr@.len() - i,
    {
        if !arr[i].output.is_null() {
            return true;
        }
        i = i + 1;
    }
    false
}

/// Whether some call in `s` carries the id `id`.
pub open spec fn has_id(s: Seq<ToolCall>, id: Seq<char>) -> bool {
    exists|j: int|
        0 <= j < s.len() && (#[trigger] s[j].id) is Some && s[j].id.unwrap()@ == id
}

/// Whether a later call `b` shadows an earlier call `a`: they share the
/// dedup key, which is the id when `a` carries one and the whole call —
/// structural identity — when it does not.
pub open spec fn shadowed_by(a: ToolCall, b: ToolCall) -> bool {
    if a.id is Some {
        b.id is Some && b.id.unwrap()@ == a.id.unwrap()@
    } else {
        a.deep_view() == b.deep_view()
    }
}

/// Whether some call in `s` shadows `c`.
pub open spec fn has_shadow(s: Seq<ToolCall>, c: ToolCall) -> bool {
    exists|j: int| 0 <= j < s.len() && shadowed_by(c, #[trigger] s[j])
}

/// What `dedup` returns: of the calls that share a key — the id when
/// present, the whole call when not — only the last stays; the order of
/// the survivors is the order they came in.
pub open spec fn dedup_model(s: Seq<ToolCall>) -> Seq<ToolCall>
    decreases s.len(),
{
    if s.len() == 0 {
        Seq::empty()
    } else if has_shadow(s.drop_first(), s[0]) {
        dedup_model(s.drop_first())
    } else {
        seq![s[0]] + dedup_model(s.drop_first())
    }
}

/// Whether the call at `i` survives `dedup`: no later call shadows it.
pub open spec fn survives(s: Seq<ToolCall>, i: int) -> bool {
    !has_shadow(s.skip(i + 1), s[i])
}

/// The surviving calls from position `i` on, in their original order.
pub open spec fn survivors_from(s: Seq<ToolCall>, i: int) -> Seq<ToolCall>
    decreases s.len() - i,
{
    if i < 0 || i >= s.len() {
        Seq::empty()
    } else if survives(s, i) {
        seq![s[i]] + survivors_from(s, i + 1)
    } else {
        survivors_from(s, i + 1)
    }
}

/// Whether two calls are structurally identical: their ghost mirrors
/// agree.
pub fn tool_call_eq(a: &ToolCall, b: &ToolCall) -> (r: bool)
    ensures
        r == (a.deep_view() == b.deep_view()),
{
    let names = crate::text::str_eq(a.name.as_str(), b.name.as_str());
    let ids: bool = match (&a.id, &b.id) {
        (None, None) => true,
        (Some(x), Some(y)) => crate::text::str_eq(x.as_str(), y.as_str()),
        _ => false,
    };
    let args = crate::json::json_eq(&a.arguments, &b.arguments);
    names && ids && args
}

/// Whether a call in `calls` shadows `c`.
fn contains_shadow(calls: &Vec<ToolCall>, c: &ToolCall) -> (r: bool)
    ensures
        r == has_shadow(calls@, *c),
{
    let mut j: usize = 0;
    while j < calls.len()
        invariant
            j <= calls@.len(),
            forall|j2: int| 0 <= j2 < j ==> !shadowed_by(*c, #[trigger] calls@[j2]),
        decreases calls@.len() - j,
    {
        let hit: bool = match &c.id {
            Some(id) => match &calls[j].id {
                Some(other) => crate::text::str_eq(other.as_str(), id.as_str()),
                None => false,
            },
            None => tool_call_eq(c, &calls[j]),
        };
        if hit {
            return true;
        }
        j = j + 1;
    }
    false
}

impl ToolCall {
    /// Builds a call from its parts.
    pub fn new(name: String, arguments: Json, id: Option<String>) -> (r: Self)
        ensures
            r.name == name,
            r.arguments == arguments,
            r.id == id,
    {
        ToolCall { name, arguments, id }
    }

    /// Drops every call that a later call shadows — a later call with the
    /// same id, or, for a call without an id, a structurally identical
    /// later call — so that for each key only the last call stays; the
    /// order of the survivors is untouched.
    pub fn dedup(calls: Vec<ToolCall>) -> (r: Vec<ToolCall>)
        ensures
            r@ == dedup_model(calls@),
    {
        let ghost orig = calls@;
        let mut rest = calls;
        let mut out: Vec<ToolCall> = Vec::new();
        while rest.len() > 0
            invariant
                dedup_model(orig) == out@ + dedup_model(rest@),
            decreases rest@.len(),
        {
            let ghost pre = rest@;
            let c = rest.remove(0);
            proof {
                assert(pre.drop_first() =~= rest@);
            }
            let keep = !contains_shadow(&rest, &c);
            if keep {
                out.push(c);
            }
        }
        proof {
            assert(dedup_model(rest@) =~= Seq::<ToolCall>::empty());
            assert(dedup_model(orig) =~= out@);
        }
        out
    }
}

/// Shadowing carries over a middle call: what shadows the middle call
/// also shadows whatever the middle call shadows.
proof fn lemma_shadow_trans(a: ToolCall, b: ToolCall, c: ToolCall)
    requires
        shadowed_by(a, b),
        shadowed_by(b, c),
    ensures
        shadowed_by(a, c),
{
    if !(a.id is Some) {
        assert(b.deep_view().id == a.deep_view().id);
        assert(!(b.id is Some));
    }
}

/// A call is shadowed in the result of `dedup` exactly when it is
/// shadowed in the input: dropping a call drops only what a later call
/// stands in for.
pub proof fn lemma_dedup_preserves_shadows(s: Seq<ToolCall>, c: ToolCall)
    ensures
        has_shadow(dedup_model(s), c) == has_shadow(s, c),
    decreases s.len(),
{
    if s.len() > 0 {
        lemma_dedup_preserves_shadows(s.drop_first(), c);
        let rest = dedup_model(s.drop_first());
        if has_shadow(s.drop_first(), s[0]) {
            if has_shadow(s, c) && !has_shadow(s.drop_first(), c) {
                let j = choose|j: int| 0 <= j < s.len() && shadowed_by(c, #[trigger] s[j]);
                if j > 0 {
                    assert(s.drop_first()[j - 1] == s[j]);
                }
                assert(shadowed_by(c, s[0]));
                let k = choose|k: int|
                    0 <= k < s.drop_first().len() && shadowed_by(
                        s[0],
                        #[trigger] s.drop_first()[k],
                    );
                lemma_shadow_trans(c, s[0], s.drop_first()[k]);
                assert(has_shadow(s.drop_first(), c));
            }
            if has_shadow(s.drop_first(), c) && !has_shadow(s, c) {
                let k = choose|k: int|
                    0 <= k < s.drop_first().len() && shadowed_by(c, #[trigger] s.drop_first()[k]);
                assert(s[k + 1] == s.drop_first()[k]);
            }
        } else {
            let whole = seq![s[0]] + rest;
            if has_shadow(s, c) && !has_shadow(whole, c) {
                let j = choose|j: int| 0 <= j < s.len() && shadowed_by(c, #[trigger] s[j]);
                if j == 0 {
                    assert(shadowed_by(c, whole[0]));
                } else {
                    assert(s.drop_first()[j - 1] == s[j]);
                    let k = choose|k: int| 0 <= k < rest.len() && shadowed_by(c, #[trigger] rest[k]);
                    assert(shadowed_by(c, whole[k + 1]));
                }
            }
            if has_shadow(whole, c) && !has_shadow(s, c) {
                let k = choose|k: int| 0 <= k < whole.len() && shadowed_by(c, #[trigger] whole[k]);
                if k == 0 {
                    assert(shadowed_by(c, s[0]));
                } else {
                    assert(whole[k] == rest[k - 1]);
                    let j = choose|j: int|
                        0 <= j < s.drop_first().len() && shadowed_by(
                            c,
                            #[trigger] s.drop_first()[j],
                        );
                    assert(s[j + 1] == s.drop_first()[j]);
                }
            }
        }
    }
}

/// Law: after `dedup`, no surviving call is shadowed by a later
/// survivor — no two calls share an id, and no two id-less calls are
/// structurally identical.
pub proof fn lemma_dedup_nothing_shadowed(s: Seq<ToolCall>)
    ensures
        forall|k1: int, k2: int|
            0 <= k1 < k2 < dedup_model(s).len() ==> !shadowed_by(
                #[trigger] dedup_model(s)[k1],
                #[trigger] dedup_model(s)[k2],
            ),
    decreases s.len(),
{
    if s.len() > 0 {
        lemma_dedup_nothing_shadowed(s.drop_first());
        let rest = dedup_model(s.drop_first());
        if !has_shadow(s.drop_first(), s[0]) {
            let whole = seq![s[0]] + rest;
            lemma_dedup_preserves_shadows(s.drop_first(), s[0]);
            assert forall|k1: int, k2: int| 0 <= k1 < k2 < whole.len() implies !shadowed_by(
                #[trigger] whole[k1],
                #[trigger] whole[k2],
            ) by {
                if k1 == 0 {
                    assert(whole[k2] == rest[k2 - 1]);
                    if shadowed_by(whole[0], whole[k2]) {
                        assert(has_shadow(rest, s[0]));
                    }
                } else {
                    assert(whole[k1] == rest[k1 - 1] && whole[k2] == rest[k2 - 1]);
                }
            }
        }
    }
}

/// Law: after `dedup`, no two calls carry the same id.
pub proof fn lemma_dedup_unique_ids(s: Seq<ToolCall>)
    ensures
        forall|k1: int, k2: int|
            0 <= k1 < k2 < dedup_model(s).len() && (#[trigger] dedup_model(s)[k1].id) is Some
                && (#[trigger] dedup_model(s)[k2].id) is Some ==> dedup_model(s)[k1].id.unwrap()@
                != dedup_model(s)[k2].id.unwrap()@,
{
    lemma_dedup_nothing_shadowed(s);
    assert forall|k1: int, k2: int|
        0 <= k1 < k2 < dedup_model(s).len() && (#[trigger] dedup_model(s)[k1].id) is Some
            && (#[trigger] dedup_model(s)[k2].id) is Some implies dedup_model(s)[k1].id.unwrap()@
        != dedup_model(s)[k2].id.unwrap()@ by {
        if dedup_model(s)[k1].id.unwrap()@ == dedup_model(s)[k2].id.unwrap()@ {
            assert(shadowed_by(dedup_model(s)[k1], dedup_model(s)[k2]));
        }
    }
}

/// An id present in the result of `dedup` was present in the input, and
/// the other way round.
pub proof fn lemma_dedup_has_id(s: Seq<ToolCall>, id: Seq<char>)
    ensures
        has_id(dedup_model(s), id) == has_id(s, id),
    decreases s.len(),
{
    if s.len() > 0 {
        lemma_dedup_has_id(s.drop_first(), id);
        let rest = dedup_model(s.drop_first());
        if has_shadow(s.drop_first(), s[0]) {
            if has_id(s, id) && !has_id(s.drop_first(), id) {
                let j = choose|j: int|
                    0 <= j < s.len() && (#[trigger] s[j].id) is Some && s[j].id.unwrap()@ == id;
                if j > 0 {
                    assert(s.drop_first()[j - 1] == s[j]);
                }
                assert(s[0].id is Some && s[0].id.unwrap()@ == id);
                let k = choose|k: int|
                    0 <= k < s.drop_first().len() && shadowed_by(
                        s[0],
                        #[trigger] s.drop_first()[k],
                    );
                assert(s.drop_first()[k].id is Some && s.drop_first()[k].id.unwrap()@ == id);
            }
            if has_id(s.drop_first(), id) && !has_id(s, id) {
                let k = choose|k: int|
                    0 <= k < s.drop_first().len() && (#[trigger] s.drop_first()[k].id) is Some
                        && s.drop_first()[k].id.unwrap()@ == id;
                assert(s[k + 1] == s.drop_first()[k]);
            }
        } else {
            let whole = seq![s[0]] + rest;
            if has_id(s, id) {
                if s[0].id is Some && s[0].id.unwrap()@ == id {
                    assert(whole[0].id is Some && whole[0].id.unwrap()@ == id);
                } else {
                    let j = choose|j: int|
                        0 <= j < s.len() && (#[trigger] s[j].id) is Some && s[j].id.unwrap()@
                            == id;
                    assert(s.drop_first()[j - 1] == s[j]);
                    let k = choose|k: int|
                        0 <= k < rest.len() && (#[trigger] rest[k].id) is Some
                            && rest[k].id.unwrap()@ == id;
                    assert(whole[k + 1].id is Some && whole[k + 1].id.unwrap()@ == id);
                }
            }
            if has_id(whole, id) {
                let k = choose|k: int|
                    0 <= k < whole.len() && (#[trigger] whole[k].id) is Some
                        && whole[k].id.unwrap()@ == id;
                if k == 0 {
                    assert(s[0].id is Some && s[0].id.unwrap()@ == id);
                } else {
                    assert(rest[k - 1].id is Some && rest[k - 1].id.unwrap()@ == id);
                    let j = choose|j: int|
                        0 <= j < s.drop_first().len() && (#[trigger] s.drop_first()[j].id) is Some
                            && s.drop_first()[j].id.unwrap()@ == id;
                    assert(s[j + 1] == s.drop_first()[j]);
                }
            }
        }
    }
}

/// Law: `dedup` returns exactly the calls that no later call shadows,
/// each with its own payload, in their original order.
pub proof fn lemma_dedup_keeps_last_in_order(s: Seq<ToolCall>)
    ensures
        dedup_model(s) == survivors_from(s, 0),
{
    lemma_dedup_survivors(s, 0);
    assert(s.skip(0) =~= s);
}

/// `dedup_model` of a suffix lists the survivors of that suffix.
proof fn lemma_dedup_survivors(s: Seq<ToolCall>, i: int)
    requires
        0 <= i <= s.len(),
    ensures
        dedup_model(s.skip(i)) == survivors_from(s, i),
    decreases s.len() - i,
{
    let suf = s.skip(i);
    if i == s.len() {
        assert(suf =~= Seq::<ToolCall>::empty());
    } else {
        lemma_dedup_survivors(s, i + 1);
        assert(suf[0] == s[i]);
        assert(suf.drop_first() =~= s.skip(i + 1));
        assert(has_shadow(suf.drop_first(), suf[0]) == has_shadow(s.skip(i + 1), s[i]));
    }
}

/// A ghost mirror of a JSON schema.
pub struct JsonSchemaV {
    pub type_value: Seq<char>,
    pub description: Option<Seq<char>>,
    pub properties: Option<Seq<(Seq<char>, JsonSchemaV)>>,
    pub enum_value: Option<Seq<Seq<char>>>,
    pub required: Option<Seq<Seq<char>>>,
}

/// The schema of a declared function's parameters. Properties keep their
/// declaration order and are keyed by name.
#[derive(Debug)]
pub struct JsonSchema {
    pub type_value: String,
    pub description: Option<String>,
    pub properties: Option<Vec<(String, JsonSchema)>>,
    pub enum_value: Option<Vec<String>>,
    pub required: Option<Vec<String>>,
}

/// The ghost mirror of a schema.
pub open spec fn schema_view(s: JsonSchema) -> JsonSchemaV
    decreases s,
{
    JsonSchemaV {
        type_value: s.type_value@,
        description: s.description.deep_view(),
        properties: match s.properties {
            Some(_) => Some(schema_entries_view(s.properties->Some_0@)),
            None => None,
        },
        enum_value: s.enum_value.deep_view(),
        required: s.required.deep_view(),
    }
}

/// The ghost mirrors of named sub-schemas, in order.
pub open spec fn schema_entries_view(v: Seq<(String, JsonSchema)>) -> Seq<(Seq<char>, JsonSchemaV)>
    decreases v,
{
    if v.len() == 0 {
        Seq::empty()
    } else {
        seq![(v[0].0@, schema_view(v[0].1))] + schema_entries_view(v.drop_first())
    }
}

/// `schema_entries_view` mirrors each entry in place.
pub proof fn lemma_schema_entries_view(v: Seq<(String, JsonSchema)>)
    ensures
        schema_entries_view(v).len() == v.len(),
        forall|i: int|
            0 <= i < v.len() ==> #[trigger] schema_entries_view(v)[i] == (
            v[i].0@,
            schema_view(v[i].1),
            ),
    decreases v,
{
    if v.len() > 0 {
        lemma_schema_entries_view(v.drop_first());
    }
}

impl DeepView for JsonSchema {
    type V = JsonSchemaV;

    open spec fn deep_view(&self) -> JsonSchemaV {
        schema_view(*self)
    }
}

/// Clones named sub-schemas from position `i` on, appending to `out`.
fn clone_schema_entries_into(
    v: &Vec<(String, JsonSchema)>,
    i: usize,
    out: &mut Vec<(String, JsonSchema)>,
)
    requires
        i <= v.len(),
    ensures
        final(out)@.len() == old(out)@.len() + v@.len() - i,
        forall|j: int| 0 <= j < old(out)@.len() ==> final(out)@[j] == old(out)@[j],
        forall|j: int|
            i <= j < v@.len() ==> (#[trigger] final(out)@[old(out)@.len() + j - i]).0@ == v@[j].0@
                && final(out)@[old(out)@.len() + j - i].1.deep_view() == v@[j].1.deep_view(),
    decreases v@.skip(i as int),
{
    if i < v.len() {
        proof {
            assert(v@.skip(i as int)[0] == v@[i as int]);
            assert(v@.skip(i as int).drop_first() =~= v@.skip(i + 1 as int));
        }
        let k = v[i].0.clone();
        let c = v[i].1.clone();
        out.push((k, c));
        let ghost mid = out@;
        clone_schema_entries_into(v, i + 1, out);
        proof {
            assert forall|j: int| i <= j < v@.len() implies (#[trigger] out@[old(out)@.len() + j
                - i]).0@ == v@[j].0@ && out@[old(out)@.len() + j - i].1.deep_view()
                == v@[j].1.deep_view() by {
                if j == i {
                    assert(out@[mid.len() - 1] == mid[mid.len() - 1]);
                } else {
                    assert(out@[mid.len() + j - (i + 1)].0@ == v@[j].0@);
                    assert(out@[mid.len() + j - (i + 1)].1.deep_view() == v@[j].1.deep_view());
                }
            }
        }
    }
}

/// Mirrors of two named sub-schema sequences agree when keys and mirrors do.
proof fn lemma_schema_entries_congruence(a: Seq<(String, JsonSchema)>, b: Seq<(String, JsonSchema)>)
    requires
        a.len() == b.len(),
        forall|i: int|
            0 <= i < a.len() ==> (#[trigger] a[i]).0@ == b[i].0@ && a[i].1.deep_view()
                == b[i].1.deep_view(),
    ensures
        schema_entries_view(a) == schema_entries_view(b),
{
    lemma_schema_entries_view(a);
    lemma_schema_entries_view(b);
    assert(schema_entries_view(a) =~= schema_entries_view(b));
}

impl Clone for JsonSchema {
    /// The clone mirrors the original.
    fn clone(&self) -> (r: Self)
        ensures
            r.deep_view() == self.deep_view(),
        decreases self,
    {
        let properties: Option<Vec<(String, JsonSchema)>> = match &self.properties {
            Some(v) => {
                let mut out: Vec<(String, JsonSchema)> = Vec::new();
                proof {
                    assert(v@.skip(0) =~= v@);
                }
                clone_schema_entries_into(v, 0, &mut out);
                proof {
                    assert forall|k: int| 0 <= k < v@.len() implies (#[trigger] out@[k]).0@
                        == v@[k].0@ && out@[k].1.deep_view() == v@[k].1.deep_view() by {
                        assert(out@[0 + k - 0] == out@[k]);
                    }
                    lemma_schema_entries_congruence(out@, v@);
                }
                Some(out)
            },
            None => None,
        };
        JsonSchema {
            type_value: self.type_value.clone(),
            description: match &self.description {
                Some(d) => Some(d.clone()),
                None => None,
            },
            properties,
            enum_value: match &self.enum_value {
                Some(v) => Some(clone_strings(v)),
                None => None,
            },
            required: match &self.required {
                Some(v) => Some(clone_strings(v)),
                None => None,
            },
        }
    }
}

/// Clones a list of strings.
pub fn clone_strings(v: &Vec<String>) -> (r: Vec<String>)
    ensures
        r.deep_view() == v.deep_view(),
{
    let mut out: Vec<String> = Vec::new();
    let mut i: usize = 0;
    while i < v.len()
        invariant
            i <= v@.len(),
            out@.len() == i,
            forall|j: int| 0 <= j < i ==> #[trigger] out@[j]@ == v@[j]@,
        decreases v@.len() - i,
    {
        out.push(v[i].clone());
        i = i + 1;
    }
    proof {
        assert(out.deep_view() =~= v.deep_view());
    }
    out
}

/// A ghost mirror of a function declaration.
pub struct FunctionDeclarationV {
    pub name: Seq<char>,
    pub description: Seq<char>,
    pub parameters: JsonSchemaV,
}

/// A function offered to the model: a name, a description, and the schema
/// of its parameters.
#[derive(Debug)]
pub struct FunctionDeclaration {
    pub name: String,
    pub description: String,
    pub parameters: JsonSchema,
}

impl DeepView for FunctionDeclaration {
    type V = FunctionDeclarationV;

    open spec fn deep_view(&self) -> FunctionDeclarationV {
        FunctionDeclarationV {
            name: self.name@,
            description: self.description@,
            parameters: self.parameters.deep_view(),
        }
    }
}

impl Clone for FunctionDeclaration {
    /// The clone mirrors the original.
    fn clone(&self) -> (r: Self)
        ensures
            r.deep_view() == self.deep_view(),
    {
        FunctionDeclaration {
            name: self.name.clone(),
            description: self.description.clone(),
            parameters: self.parameters.clone(),
        }
    }
}

/// How functions are configured: whether they are on, and where their
/// declarations and binaries live.
#[derive(Debug, Clone)]
pub struct FunctionConfig {
    pub enable: bool,
    pub declarations_file: String,
    pub functions_dir: String,
}

/// A batch of tool-call results beside the text that came with them.
pub type ToolResults = (Vec<ToolCallResult>, String);

/// Clones a list of declarations.
pub fn clone_decls(v: &Vec<FunctionDeclaration>) -> (r: Vec<FunctionDeclaration>)
    ensures
        r.deep_view() == v.deep_view(),
{
    let mut out: Vec<FunctionDeclaration> = Vec::new();
    let mut i: usize = 0;
    while i < v.len()
        invariant
            i <= v@.len(),
            out@.len() == i,
            forall|j: int| 0 <= j < i ==> (#[trigger] out@[j].deep_view()) == v@[j].deep_view(),
        decreases v@.len() - i,
    {
        out.push(v[i].clone());
        i = i + 1;
    }
    proof {
        assert(out.deep_view() =~= v.deep_view());
    }
    out
}

/// Strings as JSON string values, in order.
pub open spec fn strs_jv(ss: Seq<Seq<char>>) -> Seq<JsonV> {
    Seq::new(ss.len(), |i: int| JsonV::Str(ss[i]))
}

/// The JSON value a schema serialises to: `type` always, then each
/// optional field only when present, in declaration order.
pub open spec fn schema_jv(s: JsonSchemaV) -> JsonV
    decreases s,
{
    JsonV::Obj(
        seq![("type"@, JsonV::Str(s.type_value))] + (match s.description {
            Some(d) => seq![("description"@, JsonV::Str(d))],
            None => Seq::empty(),
        }) + (match s.properties {
            Some(_) => seq![
                ("properties"@, JsonV::Obj(schema_entries_jv(s.properties->Some_0))),
            ],
            None => Seq::empty(),
        }) + (match s.enum_value {
            Some(e) => seq![("enum"@, JsonV::Arr(strs_jv(e)))],
            None => Seq::empty(),
        }) + (match s.required {
            Some(rq) => seq![("required"@, JsonV::Arr(strs_jv(rq)))],
            None => Seq::empty(),
        }),
    )
}

/// The serialised forms of named sub-schemas, in order.
pub open spec fn schema_entries_jv(v: Seq<(Seq<char>, JsonSchemaV)>) -> Seq<(Seq<char>, JsonV)>
    decreases v,
{
    if v.len() == 0 {
        Seq::empty()
    } else {
        seq![(v[0].0, schema_jv(v[0].1))] + schema_entries_jv(v.drop_first())
    }
}

/// `schema_entries_jv` serialises each entry in place.
pub proof fn lemma_schema_entries_jv(v: Seq<(Seq<char>, JsonSchemaV)>)
    ensures
        schema_entries_jv(v).len() == v.len(),
        forall|i: int|
            0 <= i < v.len() ==> #[trigger] schema_entries_jv(v)[i] == (
            v[i].0,
            schema_jv(v[i].1),
            ),
    decreases v,
{
    if v.len() > 0 {
        lemma_schema_entries_jv(v.drop_first());
    }
}

/// Strings as JSON string values, in order.
fn strings_to_json(v: &Vec<String>) -> (r: Vec<Json>)
    ensures
        r@.len() == v@.len(),
        forall|i: int| 0 <= i < v@.len() ==> (#[trigger] r@[i].deep()) == JsonV::Str(v@[i]@),
{
    let mut out: Vec<Json> = Vec::new();
    let mut i: usize = 0;
    while i < v.len()
        invariant
            i <= v@.len(),
            out@.len() == i,
            forall|j: int| 0 <= j < i ==> (#[trigger] out@[j].deep()) == JsonV::Str(v@[j]@),
        decreases v@.len() - i,
    {
        out.push(Json::Str(v[i].clone()));
        i = i + 1;
    }
    out
}

/// Serialises named sub-schemas from position `i` on, appending to `out`.
fn schema_entries_to_json(v: &Vec<(String, JsonSchema)>, i: usize, out: &mut Vec<(String, Json)>)
    requires
        i <= v.len(),
    ensures
        final(out)@.len() == old(out)@.len() + v@.len() - i,
        forall|j: int| 0 <= j < old(out)@.len() ==> final(out)@[j] == old(out)@[j],
        forall|j: int|
            i <= j < v@.len() ==> (#[trigger] final(out)@[old(out)@.len() + j - i]).0@ == v@[j].0@
                && final(out)@[old(out)@.len() + j - i].1.deep() == schema_jv(v@[j].1.deep_view()),
    decreases v@.skip(i as int),
{
    if i < v.len() {
        proof {
            assert(v@.skip(i as int)[0] == v@[i as int]);
            assert(v@.skip(i as int).drop_first() =~= v@.skip(i + 1 as int));
        }
        let k = v[i].0.clone();
        let c = schema_to_json(&v[i].1);
        out.push((k, c));
        let ghost mid = out@;
        schema_entries_to_json(v, i + 1, out);
        proof {
            assert forall|j: int| i <= j < v@.len() implies (#[trigger] out@[old(out)@.len() + j
                - i]).0@ == v@[j].0@ && out@[old(out)@.len() + j - i].1.deep() == schema_jv(
                v@[j].1.deep_view(),
            ) by {
                if j == i {
                    assert(out@[mid.len() - 1] == mid[mid.len() - 1]);
                } else {
                    assert(out@[mid.len() + j - (i + 1)].0@ == v@[j].0@);
                    assert(out@[mid.len() + j - (i + 1)].1.deep() == schema_jv(
                        v@[j].1.deep_view(),
                    ));
                }
            }
        }
    }
}

/// Whether a regular expression pattern compiles: a function of the
/// pattern alone.
pub uninterp spec fn regex_valid(pattern: Seq<char>) -> bool;

/// Whether a compiled pattern matches somewhere in a text: a function of
/// the pattern and the text alone; a match attempt that fails inside the
/// engine reads as no match.
pub uninterp spec fn regex_matches(pattern: Seq<char>, text: Seq<char>) -> bool;

/// Relies on `fancy_regex::Regex::new` and `fancy_regex::Regex::is_match`:
/// whether the pattern compiles, and whether it matches the text, depend
/// on the two texts alone.
#[verifier::external_body]
fn regex_is_match(pattern: &str, text: &str) -> (r: Option<bool>)
    ensures
        r is Some <==> regex_valid(pattern@),
        r is Some ==> r->0 == regex_matches(pattern@, text@),
{
    match fancy_regex::Regex::new(pattern) {
        Ok(re) => Some(re.is_match(text).unwrap_or(false)),
        Err(_) => None,
    }
}

/// The matcher anchored to whole names.
pub open spec fn anchored(matcher: Seq<char>) -> Seq<char> {
    "^("@ + matcher + ")$"@
}

/// The declarations whose names the anchored pattern matches, in order.
pub open spec fn selected(ds: Seq<FunctionDeclarationV>, pat: Seq<char>) -> Seq<
    FunctionDeclarationV,
>
    decreases ds,
{
    if ds.len() == 0 {
        Seq::empty()
    } else {
        (if regex_matches(pat, ds[0].name) {
            seq![ds[0]]
        } else {
            Seq::empty()
        }) + selected(ds.drop_first(), pat)
    }
}

/// The loaded functions: their names, their declarations, and the search
/// path their binaries were put on, when any.
#[derive(Debug)]
pub struct Function {
    names: Vec<String>,
    declarations: Vec<FunctionDeclaration>,
    env_path: Option<String>,
}

impl Function {
    /// The names the declarations carry, in order.
    pub closed spec fn names_view(&self) -> Seq<Seq<char>> {
        self.names.deep_view()
    }

    /// The declarations carried.
    pub closed spec fn declarations_view(&self) -> Seq<FunctionDeclarationV> {
        self.declarations.deep_view()
    }

    /// Wraps loaded declarations; the names list follows the
    /// declarations, in order.
    pub fn new(declarations: Vec<FunctionDeclaration>, env_path: Option<String>) -> (r: Self)
        ensures
            r.declarations_view() == declarations.deep_view(),
            r.names_view().len() == declarations.deep_view().len(),
            forall|i: int|
                0 <= i < declarations.deep_view().len() ==> #[trigger] r.names_view()[i]
                    == declarations.deep_view()[i].name,
    {
        let mut names: Vec<String> = Vec::new();
        let mut i: usize = 0;
        while i < declarations.len()
            invariant
                i <= declarations@.len(),
                names@.len() == i,
                forall|j: int| 0 <= j < i ==> #[trigger] names@[j]@ == declarations@[j].name@,
            decreases declarations@.len() - i,
        {
            names.push(declarations[i].name.clone());
            i = i + 1;
        }
        Function { names, declarations, env_path }
    }

    /// The declarations whose whole names the matcher matches, in their
    /// declared order; nothing when the matcher does not compile or
    /// matches none.
    pub fn select(&self, matcher: &str) -> (r: Option<Vec<FunctionDeclaration>>)
        ensures
            match r {
                Some(v) => {
                    &&& regex_valid(anchored(matcher@))
                    &&& v.deep_view() == selected(self.declarations_view(), anchored(matcher@))
                    &&& v@.len() > 0
                },
                None => !regex_valid(anchored(matcher@)) || selected(
                    self.declarations_view(),
                    anchored(matcher@),
                ).len() == 0,
            },
    {
        let mut pattern = String::from_str("^(");
        pattern.append(matcher);
        pattern.append(")$");
        let ghost pat = anchored(matcher@);
        proof {
            assert(pattern@ == pat);
        }
        let ghost dv = self.declarations.deep_view();
        let mut out: Vec<FunctionDeclaration> = Vec::new();
        let mut i: usize = 0;
        proof {
            assert(dv.len() == self.declarations@.len());
            assert(dv.skip(0) =~= dv);
            assert(out.deep_view() + selected(dv, pat) =~= selected(dv, pat));
        }
        while i < self.declarations.len()
            invariant
                i <= self.declarations@.len(),
                dv == self.declarations.deep_view(),
                dv.len() == self.declarations@.len(),
                pattern@ == pat,
                pat == anchored(matcher@),
                i > 0 ==> regex_valid(pat),
                selected(dv, pat) == out.deep_view() + selected(dv.skip(i as int), pat),
            decreases self.declarations@.len() - i,
        {
            proof {
                assert(dv.skip(i as int)[0] == dv[i as int]);
                assert(dv.skip(i as int).drop_first() =~= dv.skip(i + 1 as int));
            }
            let ghost outpre = out.deep_view();
            match regex_is_match(pattern.as_str(), self.declarations[i].name.as_str()) {
                Some(true) => {
                    out.push(self.declarations[i].clone());
                    proof {
                        assert(out.deep_view() =~= outpre + seq![dv[i as int]]);
                        assert(out.deep_view() + selected(dv.skip(i + 1 as int), pat)
                            =~= outpre + selected(dv.skip(i as int), pat));
                    }
                },
                Some(false) => {
                    proof {
                        assert(out.deep_view() + selected(dv.skip(i + 1 as int), pat)
                            =~= outpre + selected(dv.skip(i as int), pat));
                    }
                },
                None => {
                    return None;
                },
            }
            i = i + 1;
        }
        proof {
            assert(selected(dv.skip(dv.len() as int), pat) =~= Seq::<FunctionDeclarationV>::empty());
            assert(out.deep_view() =~= selected(dv, pat));
            assert(out.deep_view().len() == out@.len());
        }
        if out.len() == 0 {
            None
        } else {
            proof {
                assert(self.declarations@.len() > 0);
            }
            Some(out)
        }
    }
}

/// Serialises a schema to the JSON value it takes on the wire.
pub fn schema_to_json(s: &JsonSchema) -> (r: Json)
    ensures
        r.deep() == schema_jv(s.deep_view()),
    decreases s,
{
    let mut entries: Vec<(String, Json)> = Vec::new();
    entries.push((String::from_str("type"), Json::Str(s.type_value.clone())));
    match &s.description {
        Some(d) => {
            entries.push((String::from_str("description"), Json::Str(d.clone())));
        },
        None => {},
    }
    match &s.properties {
        Some(v) => {
            let mut inner: Vec<(String, Json)> = Vec::new();
            proof {
                assert(v@.skip(0) =~= v@);
            }
            schema_entries_to_json(v, 0, &mut inner);
            proof {
                lemma_deep_entries(inner@);
                lemma_schema_entries_view(v@);
                lemma_schema_entries_jv(schema_entries_view(v@));
                assert forall|k: int| 0 <= k < v@.len() implies (#[trigger] inner@[k]).0@
                    == v@[k].0@ && inner@[k].1.deep() == schema_jv(v@[k].1.deep_view()) by {
                    assert(inner@[0 + k - 0] == inner@[k]);
                }
                assert(Json::deep_entries(inner@) =~= schema_entries_jv(
                    schema_entries_view(v@),
                ));
            }
            entries.push((String::from_str("properties"), Json::Obj(inner)));
        },
        None => {},
    }
    match &s.enum_value {
        Some(e) => {
            let items = strings_to_json(e);
            proof {
                lemma_deep_elems(items@);
                assert(Json::deep_elems(items@) =~= strs_jv(e.deep_view()));
            }
            entries.push((String::from_str("enum"), Json::Arr(items)));
        },
        None => {},
    }
    match &s.required {
        Some(rq) => {
            let items = strings_to_json(rq);
            proof {
                lemma_deep_elems(items@);
                assert(Json::deep_elems(items@) =~= strs_jv(rq.deep_view()));
            }
            entries.push((String::from_str("required"), Json::Arr(items)));
        },
        None => {},
    }
    let r = Json::Obj(entries);
    proof {
        lemma_deep_entries(r->Obj_0@);
        assert(r.deep()->Obj_0 =~= schema_jv(s.deep_view())->Obj_0);
    }
    r
}

} // verus!
