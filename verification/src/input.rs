//! What the caller hands in: new text, optional declared functions, and
//! optional history.

use vstd::prelude::*;
use crate::function::{clone_decls, FunctionDeclaration, FunctionDeclarationV};
use crate::message::{clone_messages, Message, MessageV};
use crate::model::ModelCapabilities;
use crate::text::{chars_to_string, str_chars};

verus! {

/// A ghost mirror of an input.
pub struct InputV {
    pub text: Option<Seq<char>>,
    pub functions: Option<Seq<FunctionDeclarationV>>,
    pub history: Option<Seq<MessageV>>,
}

/// One turn's input: the new text, the functions on offer, and the
/// conversation so far.
#[derive(Debug)]
pub struct Input {
    text: Option<String>,
    functions: Option<Vec<FunctionDeclaration>>,
    history: Option<Vec<Message>>,
}

impl DeepView for Input {
    type V = InputV;

    closed spec fn deep_view(&self) -> InputV {
        InputV {
            text: self.text.deep_view(),
            functions: self.functions.deep_view(),
            history: self.history.deep_view(),
        }
    }
}

/// Whether a character is a control character.
pub open spec fn is_control_char(c: char) -> bool {
    (c as u32) < 0x20 || (0x7f <= (c as u32) <= 0x9f)
}

/// Whether a character is white space.
pub open spec fn is_space_char(c: char) -> bool {
    ||| c == ' '
    ||| c == '\t'
    ||| c == '\n'
    ||| c == '\r'
    ||| c == '\u{b}'
    ||| c == '\u{c}'
    ||| c == '\u{85}'
    ||| c == '\u{a0}'
    ||| c == '\u{1680}'
    ||| (0x2000 <= (c as u32) <= 0x200a)
    ||| c == '\u{2028}'
    ||| c == '\u{2029}'
    ||| c == '\u{202f}'
    ||| c == '\u{205f}'
    ||| c == '\u{3000}'
}

/// Whether a character is a control character.
fn is_control_exec(c: char) -> (r: bool)
    ensures
        r == is_control_char(c),
{
    (c as u32) < 0x20 || (0x7f <= (c as u32) && (c as u32) <= 0x9f)
}

/// Whether a character is white space.
fn is_space_exec(c: char) -> (r: bool)
    ensures
        r == is_space_char(c),
{
    c == ' ' || c == '\t' || c == '\n' || c == '\r' || c == '\u{b}' || c == '\u{c}'
        || c == '\u{85}' || c == '\u{a0}' || c == '\u{1680}' || (0x2000 <= (c as u32) && (c
        as u32) <= 0x200a) || c == '\u{2028}' || c == '\u{2029}' || c == '\u{202f}'
        || c == '\u{205f}' || c == '\u{3000}'
}

/// The text without leading white space.
pub open spec fn trim_front(s: Seq<char>) -> Seq<char>
    decreases s,
{
    if s.len() > 0 && is_space_char(s[0]) {
        trim_front(s.drop_first())
    } else {
        s
    }
}

/// The text without trailing white space.
pub open spec fn trim_back(s: Seq<char>) -> Seq<char>
    decreases s,
{
    if s.len() > 0 && is_space_char(s[s.len() - 1]) {
        trim_back(s.drop_last())
    } else {
        s
    }
}

/// The text without leading or trailing white space.
pub open spec fn trimmed(s: Seq<char>) -> Seq<char> {
    trim_back(trim_front(s))
}

/// The trimmed text with every control character turned into a space.
pub open spec fn sanitized(s: Seq<char>) -> Seq<char> {
    Seq::new(
        trimmed(s).len(),
        |i: int|
            if is_control_char(trimmed(s)[i]) {
                ' '
            } else {
                trimmed(s)[i]
            },
    )
}

/// The display width of a text in a CJK context: a function of the text
/// alone.
pub uninterp spec fn cjk_str_width(s: Seq<char>) -> usize;

/// Relies on `unicode_width::UnicodeWidthStr::width_cjk`: the width
/// depends on the text alone.
#[verifier::external_body]
fn text_width_cjk(s: &str) -> (r: usize)
    ensures
        r == cjk_str_width(s@),
{
    unicode_width::UnicodeWidthStr::width_cjk(s)
}

/// The display width of one character in a CJK context, or nothing for a
/// control character: a function of the character alone.
pub uninterp spec fn cjk_char_width(c: char) -> Option<usize>;

/// Relies on `unicode_width::UnicodeWidthChar::width_cjk`: the width
/// depends on the character alone.
#[verifier::external_body]
fn char_width_cjk(c: char) -> (r: Option<usize>)
    ensures
        r == cjk_char_width(c),
{
    unicode_width::UnicodeWidthChar::width_cjk(c)
}

/// The head of `s` that fits the width budget, from position `i` with
/// `used` width already spent: characters are taken until one would push
/// the spent width past 67 columns, and then an ellipsis marks the cut.
pub open spec fn width_cut(s: Seq<char>, i: int, used: int) -> Seq<char>
    decreases s.len() - i,
{
    if i < 0 || i >= s.len() {
        s.take(i)
    } else {
        let w = match cjk_char_width(s[i]) {
            Some(x) => x as int,
            None => 1,
        };
        if used + w > 67 {
            s.take(i) + seq!['.', '.', '.']
        } else {
            width_cut(s, i + 1, used + w)
        }
    }
}

/// What `summary` answers: the sanitized text, cut with an ellipsis when
/// wider than 70 columns; an input without text reads as empty.
pub open spec fn summary_of(text: Option<Seq<char>>) -> Seq<char> {
    match text {
        None => Seq::empty(),
        Some(t) => if cjk_str_width(sanitized(t)) > 70 {
            width_cut(sanitized(t), 0, 0)
        } else {
            sanitized(t)
        },
    }
}

/// The trimmed characters of a text.
pub fn trim_exec(text: &str) -> (r: Vec<char>)
    ensures
        r@ == trimmed(text@),
{
    let cs = str_chars(text);
    let mut a: usize = 0;
    let mut b: usize = cs.len();
    proof {
        assert(text@.skip(0) =~= text@);
    }
    while a < b && is_space_exec(cs[a])
        invariant
            a <= b <= cs@.len(),
            cs@ == text@,
            trim_front(text@) == trim_front(text@.skip(a as int)),
            b == cs@.len(),
        decreases b - a,
    {
        proof {
            assert(text@.skip(a as int)[0] == text@[a as int]);
            assert(text@.skip(a as int).drop_first() =~= text@.skip(a + 1 as int));
        }
        a = a + 1;
    }
    proof {
        if a < b {
            assert(!is_space_char(text@.skip(a as int)[0]));
        } else {
            assert(text@.skip(a as int) =~= Seq::<char>::empty());
        }
        assert(trim_front(text@) == text@.skip(a as int));
        assert(text@.skip(a as int).take(b - a as int) =~= text@.skip(a as int));
    }
    while b > a && is_space_exec(cs[b - 1])
        invariant
            a <= b <= cs@.len(),
            cs@ == text@,
            trim_front(text@) == text@.skip(a as int),
            trim_back(text@.skip(a as int)) == trim_back(
                text@.skip(a as int).take(b - a as int),
            ),
        decreases b,
    {
        proof {
            let cur = text@.skip(a as int).take(b - a as int);
            assert(cur[cur.len() - 1] == text@[b - 1 as int]);
            assert(cur.drop_last() =~= text@.skip(a as int).take(b - 1 - a as int));
        }
        b = b - 1;
    }
    proof {
        let cur = text@.skip(a as int).take(b - a as int);
        if b > a {
            assert(!is_space_char(cur[cur.len() - 1]));
        } else {
            assert(cur =~= Seq::<char>::empty());
        }
        assert(trim_back(cur) == cur);
        assert(trimmed(text@) == text@.skip(a as int).take(b - a as int));
    }
    let out = crate::text::sub_chars(&cs, a, b);
    proof {
        assert(text@.subrange(a as int, b as int) =~= text@.skip(a as int).take(b - a as int));
    }
    out
}

/// The sanitized form of a text: trimmed, control characters spaced.
fn sanitize(text: &str) -> (r: Vec<char>)
    ensures
        r@ == sanitized(text@),
{
    let cs = str_chars(text);
    let mut a: usize = 0;
    let mut b: usize = cs.len();
    proof {
        assert(text@.skip(0) =~= text@);
    }
    while a < b && is_space_exec(cs[a])
        invariant
            a <= b <= cs@.len(),
            cs@ == text@,
            trim_front(text@) == trim_front(text@.skip(a as int)),
            b == cs@.len(),
            forall|j: int| 0 <= j < a ==> is_space_char(text@[j]),
        decreases b - a,
    {
        proof {
            assert(text@.skip(a as int)[0] == text@[a as int]);
            assert(text@.skip(a as int).drop_first() =~= text@.skip(a + 1 as int));
        }
        a = a + 1;
    }
    proof {
        if a < b {
            assert(!is_space_char(text@.skip(a as int)[0]));
        } else {
            assert(text@.skip(a as int) =~= Seq::<char>::empty());
        }
        assert(trim_front(text@) == text@.skip(a as int));
    }
    proof {
        assert(text@.skip(a as int).take(b - a as int) =~= text@.skip(a as int));
    }
    while b > a && is_space_exec(cs[b - 1])
        invariant
            a <= b <= cs@.len(),
            cs@ == text@,
            trim_front(text@) == text@.skip(a as int),
            trim_back(text@.skip(a as int)) == trim_back(
                text@.skip(a as int).take(b - a as int),
            ),
        decreases b,
    {
        proof {
            let cur = text@.skip(a as int).take(b - a as int);
            assert(cur[cur.len() - 1] == text@[b - 1 as int]);
            assert(cur.drop_last() =~= text@.skip(a as int).take(b - 1 - a as int));
        }
        b = b - 1;
    }
    proof {
        let cur = text@.skip(a as int).take(b - a as int);
        if b > a {
            assert(!is_space_char(cur[cur.len() - 1]));
        } else {
            assert(cur =~= Seq::<char>::empty());
        }
        assert(trim_back(cur) == cur);
        assert(text@.skip(a as int).take(text@.skip(a as int).len() as int) =~= text@.skip(
            a as int,
        ));
        assert(trimmed(text@) == text@.skip(a as int).take(b - a as int));
    }
    let mut out: Vec<char> = Vec::new();
    let mut i: usize = a;
    while i < b
        invariant
            a <= i <= b <= cs@.len(),
            cs@ == text@,
            trimmed(text@) == text@.skip(a as int).take(b - a as int),
            out@.len() == i - a,
            forall|j: int| 0 <= j < i - a ==> #[trigger] out@[j] == sanitized(text@)[j],
        decreases b - i,
    {
        let c = cs[i];
        if is_control_exec(c) {
            out.push(' ');
        } else {
            out.push(c);
        }
        i = i + 1;
    }
    proof {
        assert(out@ =~= sanitized(text@));
    }
    out
}

impl Input {
    /// An input holding only the given text.
    pub fn from_str(text: &str) -> (r: Self)
        ensures
            r.deep_view() == (InputV { text: Some(text@), functions: None, history: None }),
    {
        Input { text: Some(text.to_owned()), functions: None, history: None }
    }

    /// An input from its three parts.
    pub fn new(
        text: Option<String>,
        functions: Option<Vec<FunctionDeclaration>>,
        history: Option<Vec<Message>>,
    ) -> (r: Self)
        ensures
            r.deep_view() == (InputV {
                text: text.deep_view(),
                functions: functions.deep_view(),
                history: history.deep_view(),
            }),
    {
        Input { text, functions, history }
    }

    /// Whether the input carries no new text.
    pub fn is_empty(&self) -> (r: bool)
        ensures
            r == (self.deep_view().text is None),
    {
        self.text.is_none()
    }

    /// Whether the input carries history.
    pub fn history_exists(&self) -> (r: bool)
        ensures
            r == (self.deep_view().history is Some),
    {
        self.history.is_some()
    }

    /// The history carried, copied out.
    pub fn get_history(&self) -> (r: Option<Vec<Message>>)
        ensures
            r.deep_view() == self.deep_view().history,
    {
        match &self.history {
            Some(h) => Some(clone_messages(h)),
            None => None,
        }
    }

    /// Whether the input offers functions.
    pub fn function_calls_exists(&self) -> (r: bool)
        ensures
            r == (self.deep_view().functions is Some),
    {
        self.functions.is_some()
    }

    /// The functions offered, copied out.
    pub fn function_calls(&self) -> (r: Option<Vec<FunctionDeclaration>>)
        ensures
            r.deep_view() == self.deep_view().functions,
    {
        match &self.functions {
            Some(fs) => Some(clone_decls(fs)),
            None => None,
        }
    }

    /// A one-line summary of the text: trimmed, control characters
    /// spaced, and cut with an ellipsis when wider than 70 columns.
    pub fn summary(&self) -> (r: String)
        ensures
            r@ == summary_of(self.deep_view().text),
    {
        let text: &String = match &self.text {
            Some(t) => t,
            None => {
                return String::new();
            },
        };
        let clean = sanitize(text.as_str());
        let clean_str = chars_to_string(&clean);
        if text_width_cjk(clean_str.as_str()) > 70 {
            let mut out: Vec<char> = Vec::new();
            let mut used: usize = 0;
            let mut i: usize = 0;
            let mut cut: bool = false;
            while i < clean.len() && !cut
                invariant
                    i <= clean@.len(),
                    used <= 67,
                    out@.len() >= i,
                    !cut ==> out@ == clean@.take(i as int),
                    !cut ==> width_cut(clean@, 0, 0) == width_cut(clean@, i as int, used as int),
                    cut ==> out@ == width_cut(clean@, 0, 0),
                decreases clean@.len() - i, (if cut { 0int } else { 1int }),
            {
                let w: usize = match char_width_cjk(clean[i]) {
                    Some(x) => x,
                    None => 1,
                };
                if w > 67 - used {
                    out.push('.');
                    out.push('.');
                    out.push('.');
                    proof {
                        assert(out@ =~= clean@.take(i as int) + seq!['.', '.', '.']);
                    }
                    cut = true;
                } else {
                    out.push(clean[i]);
                    proof {
                        assert(out@ =~= clean@.take(i + 1 as int));
                    }
                    used = used + w;
                    i = i + 1;
                }
            }
            proof {
                if !cut {
                    assert(clean@.take(clean@.len() as int) =~= clean@);
                    assert(width_cut(clean@, i as int, used as int) == clean@.take(i as int));
                }
            }
            chars_to_string(&out)
        } else {
            clean_str
        }
    }

    /// The text as it is rendered back to the caller; empty without text.
    pub fn render(&self) -> (r: String)
        ensures
            r@ == match self.deep_view().text {
                Some(t) => t,
                None => Seq::<char>::empty(),
            },
    {
        match &self.text {
            Some(t) => t.clone(),
            None => String::new(),
        }
    }

    /// The text that becomes the outgoing user message; empty without
    /// text.
    pub fn to_message(&self) -> (r: String)
        ensures
            r@ == match self.deep_view().text {
                Some(t) => t,
                None => Seq::<char>::empty(),
            },
    {
        match &self.text {
            Some(t) => t.clone(),
            None => String::new(),
        }
    }

    /// The capabilities this input needs of a model: text only, since no
    /// media rides in it.
    pub fn required_capabilities(&self) -> (r: ModelCapabilities)
        ensures
            r == (ModelCapabilities { text: true, vision: false }),
    {
        ModelCapabilities::text_only()
    }
}

} // verus!
