//! The neutral message model: roles, content, and the three message kinds.

use vstd::prelude::*;
use crate::function::{ToolCallResult, ToolCallResultV};
use crate::function_calling::{FunctionCall, FunctionCallV};

verus! {

/// Who speaks in a message.
#[derive(Debug, Clone, Copy, PartialEq, Eq, Structural)]
pub enum MessageRole {
    System,
    Assistant,
    User,
    Function,
}

impl MessageRole {
    /// The role's name on the wire.
    pub open spec fn wire_name(self) -> Seq<char> {
        match self {
            MessageRole::System => "system"@,
            MessageRole::Assistant => "assistant"@,
            MessageRole::User => "user"@,
            MessageRole::Function => "function"@,
        }
    }

    /// The role's name on the wire.
    pub fn as_text(&self) -> (r: String)
        ensures
            r@ == self.wire_name(),
    {
        match self {
            MessageRole::System => String::from_str("system"),
            MessageRole::Assistant => String::from_str("assistant"),
            MessageRole::User => String::from_str("user"),
            MessageRole::Function => String::from_str("function"),
        }
    }

    /// Whether this is the system role.
    pub fn is_system(&self) -> (r: bool)
        ensures
            r == (self is System),
    {
        matches!(self, MessageRole::System)
    }

    /// Whether this is the user role.
    pub fn is_user(&self) -> (r: bool)
        ensures
            r == (self is User),
    {
        matches!(self, MessageRole::User)
    }

    /// Whether this is the assistant role.
    pub fn is_assistant(&self) -> (r: bool)
        ensures
            r == (self is Assistant),
    {
        matches!(self, MessageRole::Assistant)
    }

    /// Whether this is the function role.
    pub fn is_function(&self) -> (r: bool)
        ensures
            r == (self is Function),
    {
        matches!(self, MessageRole::Function)
    }
}

/// A ghost mirror of one content part.
pub enum ContentPartV {
    Text(Seq<char>),
    ImageUrl(Seq<char>),
}

/// One part of a composite message content: text, or an image given by URL.
#[derive(Debug, PartialEq)]
pub enum ContentPart {
    Text { text: String },
    ImageUrl { url: String },
}

impl DeepView for ContentPart {
    type V = ContentPartV;

    open spec fn deep_view(&self) -> ContentPartV {
        match self {
            ContentPart::Text { text } => ContentPartV::Text(text@),
            ContentPart::ImageUrl { url } => ContentPartV::ImageUrl(url@),
        }
    }
}

impl Clone for ContentPart {
    /// The clone mirrors the original.
    fn clone(&self) -> (r: Self)
        ensures
            r.deep_view() == self.deep_view(),
    {
        match self {
            ContentPart::Text { text } => ContentPart::Text { text: text.clone() },
            ContentPart::ImageUrl { url } => ContentPart::ImageUrl { url: url.clone() },
        }
    }
}

/// A ghost mirror of a message content.
pub enum MessageContentV {
    Text(Seq<char>),
    Parts(Seq<ContentPartV>),
    ToolResults(Seq<ToolCallResultV>, Seq<char>),
}

/// What a plain message carries: a single text, a list of parts, or a
/// batch of tool results beside a text.
#[derive(Debug, PartialEq)]
pub enum MessageContent {
    Text(String),
    Parts(Vec<ContentPart>),
    ToolResults(Vec<ToolCallResult>, String),
}

impl DeepView for MessageContent {
    type V = MessageContentV;

    open spec fn deep_view(&self) -> MessageContentV {
        match self {
            MessageContent::Text(t) => MessageContentV::Text(t@),
            MessageContent::Parts(p) => MessageContentV::Parts(p.deep_view()),
            MessageContent::ToolResults(r, t) => MessageContentV::ToolResults(r.deep_view(), t@),
        }
    }
}

/// A ghost mirror of a message.
pub enum MessageV {
    FunctionReturn { id: Option<Seq<char>>, role: MessageRole, name: Seq<char>, content: Seq<char> },
    FunctionCall { id: Option<Seq<char>>, role: MessageRole, function_call: FunctionCallV },
    PlainText { role: MessageRole, content: MessageContentV },
}

/// One message of a conversation.
///
/// A payload that could be read as more than one kind must resolve to the
/// most specific kind that its fields require; plain text is the catch-all
/// default.
#[derive(Debug, PartialEq)]
pub enum Message {
    FunctionReturn { id: Option<String>, role: MessageRole, name: String, content: String },
    FunctionCall { id: Option<String>, role: MessageRole, function_call: FunctionCall },
    PlainText { role: MessageRole, content: MessageContent },
}

impl DeepView for Message {
    type V = MessageV;

    open spec fn deep_view(&self) -> MessageV {
        match self {
            Message::FunctionReturn { id, role, name, content } => MessageV::FunctionReturn {
                id: id.deep_view(),
                role: *role,
                name: name@,
                content: content@,
            },
            Message::FunctionCall { id, role, function_call } => MessageV::FunctionCall {
                id: id.deep_view(),
                role: *role,
                function_call: function_call.deep_view(),
            },
            Message::PlainText { role, content } => MessageV::PlainText {
                role: *role,
                content: content.deep_view(),
            },
        }
    }
}

/// Clones a list of parts.
pub fn clone_parts(v: &Vec<ContentPart>) -> (r: Vec<ContentPart>)
    ensures
        r.deep_view() == v.deep_view(),
{
    let mut out: Vec<ContentPart> = Vec::new();
    let mut i: usize = 0;
    while i < v.len()
        invariant
            i <= v@.len(),
            out@.len() == i,
            forall|j: int| 0 <= j < i ==> (#[trigger] out@[j].deep_view()) == v@[j].deep_view(),
        decreases v@.len() - i,
    {
        out.push(v[i].clone());
        i = i + 1;
    }
    proof {
        assert(out.deep_view() =~= v.deep_view());
    }
    out
}

/// Clones a list of tool-call results.
pub fn clone_results(v: &Vec<ToolCallResult>) -> (r: Vec<ToolCallResult>)
    ensures
        r.deep_view() == v.deep_view(),
{
    let mut out: Vec<ToolCallResult> = Vec::new();
    let mut i: usize = 0;
    while i < v.len()
        invariant
            i <= v@.len(),
            out@.len() == i,
            forall|j: int| 0 <= j < i ==> (#[trigger] out@[j].deep_view()) == v@[j].deep_view(),
        decreases v@.len() - i,
    {
        out.push(v[i].clone());
        i = i + 1;
    }
    proof {
        assert(out.deep_view() =~= v.deep_view());
    }
    out
}

impl Clone for MessageContent {
    /// The clone mirrors the original.
    fn clone(&self) -> (r: Self)
        ensures
            r.deep_view() == self.deep_view(),
    {
        match self {
            MessageContent::Text(t) => MessageContent::Text(t.clone()),
            MessageContent::Parts(ps) => MessageContent::Parts(clone_parts(ps)),
            MessageContent::ToolResults(rs, t) => MessageContent::ToolResults(
                clone_results(rs),
                t.clone(),
            ),
        }
    }
}

/// Clones an optional id.
fn clone_opt_string(o: &Option<String>) -> (r: Option<String>)
    ensures
        r.deep_view() == o.deep_view(),
{
    match o {
        Some(s) => Some(s.clone()),
        None => None,
    }
}

impl Clone for Message {
    /// The clone mirrors the original.
    fn clone(&self) -> (r: Self)
        ensures
            r.deep_view() == self.deep_view(),
    {
        match self {
            Message::FunctionReturn { id, role, name, content } => Message::FunctionReturn {
                id: clone_opt_string(id),
                role: *role,
                name: name.clone(),
                content: content.clone(),
            },
            Message::FunctionCall { id, role, function_call } => Message::FunctionCall {
                id: clone_opt_string(id),
                role: *role,
                function_call: function_call.clone(),
            },
            Message::PlainText { role, content } => Message::PlainText {
                role: *role,
                content: content.clone(),
            },
        }
    }
}

/// Clones a conversation.
pub fn clone_messages(v: &Vec<Message>) -> (r: Vec<Message>)
    ensures
        r.deep_view() == v.deep_view(),
{
    let mut out: Vec<Message> = Vec::new();
    let mut i: usize = 0;
    while i < v.len()
        invariant
            i <= v@.len(),
            out@.len() == i,
            forall|j: int| 0 <= j < i ==> (#[trigger] out@[j].deep_view()) == v@[j].deep_view(),
        decreases v@.len() - i,
    {
        out.push(v[i].clone());
        i = i + 1;
    }
    proof {
        assert(out.deep_view() =~= v.deep_view());
    }
    out
}

impl Message {
    /// A plain text message with the given role.
    pub fn new_text(role: MessageRole, content: &str) -> (r: Self)
        ensures
            r.deep_view() == (MessageV::PlainText {
                role,
                content: MessageContentV::Text(content@),
            }),
    {
        Message::PlainText { role, content: MessageContent::Text(content.to_owned()) }
    }

    /// A plain text message from the system.
    pub fn system(content: &str) -> (r: Self)
        ensures
            r.deep_view() == (MessageV::PlainText {
                role: MessageRole::System,
                content: MessageContentV::Text(content@),
            }),
    {
        Self::new_text(MessageRole::System, content)
    }

    /// A plain text message from the user.
    pub fn user(content: &str) -> (r: Self)
        ensures
            r.deep_view() == (MessageV::PlainText {
                role: MessageRole::User,
                content: MessageContentV::Text(content@),
            }),
    {
        Self::new_text(MessageRole::User, content)
    }

    /// A plain text message from the assistant.
    pub fn assistant(content: &str) -> (r: Self)
        ensures
            r.deep_view() == (MessageV::PlainText {
                role: MessageRole::Assistant,
                content: MessageContentV::Text(content@),
            }),
    {
        Self::new_text(MessageRole::Assistant, content)
    }

    /// An assistant message that asks for a function call.
    pub fn function_call(id: Option<String>, call: &FunctionCall) -> (r: Self)
        ensures
            r.deep_view() == (MessageV::FunctionCall {
                id: id.deep_view(),
                role: MessageRole::Assistant,
                function_call: call.deep_view(),
            }),
    {
        Message::FunctionCall { id, role: MessageRole::Assistant, function_call: call.clone() }
    }

    /// A function-role message that returns a function's output.
    pub fn function_return(id: Option<String>, name: &str, content: &str) -> (r: Self)
        ensures
            r.deep_view() == (MessageV::FunctionReturn {
                id: id.deep_view(),
                role: MessageRole::Function,
                name: name@,
                content: content@,
            }),
    {
        Message::FunctionReturn {
            id,
            role: MessageRole::Function,
            name: name.to_owned(),
            content: content.to_owned(),
        }
    }
}

/// An id as it reads in a message line: the id itself, or `none`.
pub open spec fn id_line_text(id: Option<Seq<char>>) -> Seq<char> {
    match id {
        Some(s) => s,
        None => "none"@,
    }
}

/// How a message reads as one line of text.
pub open spec fn message_line(m: MessageV) -> Seq<char> {
    match m {
        MessageV::FunctionReturn { id, role, name, content } => "["@ + role.wire_name()
            + "] Function Return - ID: "@ + id_line_text(id) + ", Name: "@ + name + ", Content: "@
            + content,
        MessageV::FunctionCall { id, role, function_call } => "["@ + role.wire_name()
            + "] Function Call - ID: "@ + id_line_text(id) + ", Name: "@ + function_call.name
            + ", Arguments: "@ + crate::json::jv_text(function_call.arguments),
        MessageV::PlainText { role, content } => "["@ + role.wire_name() + "] Plain Text: "@
            + crate::client::content_text(content),
    }
}

impl Message {
    /// This message as one line of text, for showing and for the record.
    pub fn describe(&self) -> (r: String)
        ensures
            r@ == message_line(self.deep_view()),
    {
        let mut out = String::from_str("[");
        match self {
            Message::FunctionReturn { id, role, name, content } => {
                let role_text = role.as_text();
                out.append(role_text.as_str());
                out.append("] Function Return - ID: ");
                match id {
                    Some(i) => out.append(i.as_str()),
                    None => out.append("none"),
                }
                out.append(", Name: ");
                out.append(name.as_str());
                out.append(", Content: ");
                out.append(content.as_str());
            },
            Message::FunctionCall { id, role, function_call } => {
                let role_text = role.as_text();
                out.append(role_text.as_str());
                out.append("] Function Call - ID: ");
                match id {
                    Some(i) => out.append(i.as_str()),
                    None => out.append("none"),
                }
                out.append(", Name: ");
                out.append(function_call.name.as_str());
                out.append(", Arguments: ");
                let args = function_call.arguments.to_text();
                out.append(args.as_str());
            },
            Message::PlainText { role, content } => {
                let role_text = role.as_text();
                out.append(role_text.as_str());
                out.append("] Plain Text: ");
                let text = crate::client::content_text_exec(content);
                out.append(text.as_str());
            },
        }
        out
    }
}

/// How one exchange reads in the message record: a heading with the
/// summary and the timestamp, the rendered input, then the output
/// between rules.
pub open spec fn record_text(
    summary: Seq<char>,
    timestamp: Seq<char>,
    input_markdown: Seq<char>,
    output: Seq<char>,
) -> Seq<char> {
    "# CHAT: "@ + summary + " ["@ + timestamp + "]\n"@ + input_markdown + "\n--------\n"@ + output
        + "\n--------\n\n"@
}

/// Renders one exchange for the message record.
pub fn render_message_record(
    summary: &str,
    timestamp: &str,
    input_markdown: &str,
    output: &str,
) -> (r: String)
    ensures
        r@ == record_text(summary@, timestamp@, input_markdown@, output@),
{
    let mut out = String::from_str("# CHAT: ");
    out.append(summary);
    out.append(" [");
    out.append(timestamp);
    out.append("]\n");
    out.append(input_markdown);
    out.append("\n--------\n");
    out.append(output);
    out.append("\n--------\n\n");
    out
}

} // verus!
