//! A JSON value tree of the library's own, with a ghost mirror.
//!
//! Wire bodies are built and read as `Json` values; the contracts speak of
//! the ghost mirror `JsonV`, reached through `deep()`.

use vstd::prelude::*;

verus! {

/// Ghost mirror of a JSON value: what the contracts quantify over.
pub enum JsonV {
    Null,
    Bool(bool),
    Int(int),
    /// A number that fits no integer type, held as its decimal text.
    Num(Seq<char>),
    Str(Seq<char>),
    Arr(Seq<JsonV>),
    Obj(Seq<(Seq<char>, JsonV)>),
}

/// A JSON value. Object entries keep their order; a number is an integer
/// or, when it fits no integer type, its decimal text.
#[derive(Debug, PartialEq)]
pub enum Json {
    Null,
    Bool(bool),
    Int(i64),
    UInt(u64),
    Num(String),
    Str(String),
    Arr(Vec<Json>),
    Obj(Vec<(String, Json)>),
}

impl Json {
    /// The ghost mirror of this value.
    pub open spec fn deep(self) -> JsonV
        decreases self,
    {
        match self {
            Json::Null => JsonV::Null,
            Json::Bool(b) => JsonV::Bool(b),
            Json::Int(i) => JsonV::Int(i as int),
            Json::UInt(u) => JsonV::Int(u as int),
            Json::Num(s) => JsonV::Num(s@),
            Json::Str(s) => JsonV::Str(s@),
            Json::Arr(_) => JsonV::Arr(Json::deep_elems(self->Arr_0@)),
            Json::Obj(_) => JsonV::Obj(Json::deep_entries(self->Obj_0@)),
        }
    }

    /// The ghost mirrors of the elements of an array, in order.
    pub open spec fn deep_elems(s: Seq<Json>) -> Seq<JsonV>
        decreases s,
    {
        if s.len() == 0 {
            Seq::empty()
        } else {
            seq![s[0].deep()] + Json::deep_elems(s.drop_first())
        }
    }

    /// The ghost mirrors of the entries of an object, in order.
    pub open spec fn deep_entries(s: Seq<(String, Json)>) -> Seq<(Seq<char>, JsonV)>
        decreases s,
    {
        if s.len() == 0 {
            Seq::empty()
        } else {
            seq![(s[0].0@, s[0].1.deep())] + Json::deep_entries(s.drop_first())
        }
    }
}

/// `deep_elems` mirrors each element in place.
pub proof fn lemma_deep_elems(s: Seq<Json>)
    ensures
        Json::deep_elems(s).len() == s.len(),
        forall|i: int| 0 <= i < s.len() ==> #[trigger] Json::deep_elems(s)[i] == s[i].deep(),
    decreases s,
{
    if s.len() > 0 {
        lemma_deep_elems(s.drop_first());
    }
}

/// `deep_entries` mirrors each entry in place.
pub proof fn lemma_deep_entries(s: Seq<(String, Json)>)
    ensures
        Json::deep_entries(s).len() == s.len(),
        forall|i: int| 0 <= i < s.len() ==> #[trigger] Json::deep_entries(s)[i] == (s[i].0@, s[i].1.deep()),
    decreases s,
{
    if s.len() > 0 {
        lemma_deep_entries(s.drop_first());
    }
}

/// Mirroring elements distributes over appending.
pub proof fn lemma_deep_elems_concat(a: Seq<Json>, b: Seq<Json>)
    ensures
        Json::deep_elems(a + b) == Json::deep_elems(a) + Json::deep_elems(b),
{
    lemma_deep_elems(a);
    lemma_deep_elems(b);
    lemma_deep_elems(a + b);
    assert(Json::deep_elems(a + b) =~= Json::deep_elems(a) + Json::deep_elems(b));
}

/// The value under `key` among `entries`: the first entry with that key.
pub open spec fn jv_lookup(entries: Seq<(Seq<char>, JsonV)>, key: Seq<char>) -> Option<JsonV>
    decreases entries,
{
    if entries.len() == 0 {
        None
    } else if entries[0].0 == key {
        Some(entries[0].1)
    } else {
        jv_lookup(entries.drop_first(), key)
    }
}

impl JsonV {
    /// The value under `key`, when this value is an object that has it.
    pub open spec fn get(self, key: Seq<char>) -> Option<JsonV> {
        if self is Obj {
            jv_lookup(self->Obj_0, key)
        } else {
            None
        }
    }

    /// The string content, when this value is a string.
    pub open spec fn as_str(self) -> Option<Seq<char>> {
        if self is Str {
            Some(self->Str_0)
        } else {
            None
        }
    }

    /// The integer content, when this value is an integer in `0 ..= u64::MAX`.
    pub open spec fn as_u64(self) -> Option<u64> {
        if self is Int && 0 <= self->Int_0 <= u64::MAX {
            Some(self->Int_0 as u64)
        } else {
            None
        }
    }
}

/// The decimal digit characters of `n`, most significant first.
pub open spec fn dec_digits(n: nat) -> Seq<char>
    decreases n,
{
    let digit = seq!['0', '1', '2', '3', '4', '5', '6', '7', '8', '9'][(n % 10) as int];
    if n < 10 {
        seq![digit]
    } else {
        dec_digits(n / 10) + seq![digit]
    }
}

/// The decimal text of an integer, with a leading minus sign when negative.
pub open spec fn int_text(i: int) -> Seq<char> {
    if i < 0 {
        seq!['-'] + dec_digits((-i) as nat)
    } else {
        dec_digits(i as nat)
    }
}

/// The lower-case hexadecimal digit for `n` in `0 .. 16`.
pub open spec fn hex_digit(n: int) -> char {
    seq!['0', '1', '2', '3', '4', '5', '6', '7', '8', '9', 'a', 'b', 'c', 'd', 'e', 'f'][n]
}

/// How one character appears inside a JSON string literal.
pub open spec fn esc_char(c: char) -> Seq<char> {
    if c == '"' {
        seq!['\\', '"']
    } else if c == '\\' {
        seq!['\\', '\\']
    } else if c == '\u{8}' {
        seq!['\\', 'b']
    } else if c == '\t' {
        seq!['\\', 't']
    } else if c == '\n' {
        seq!['\\', 'n']
    } else if c == '\u{c}' {
        seq!['\\', 'f']
    } else if c == '\r' {
        seq!['\\', 'r']
    } else if (c as u32) < 0x20 {
        seq!['\\', 'u', '0', '0', hex_digit(c as u32 as int / 16), hex_digit(c as u32 as int % 16)]
    } else {
        seq![c]
    }
}

/// How a whole string appears inside a JSON string literal, quotes not included.
pub open spec fn esc_str(s: Seq<char>) -> Seq<char>
    decreases s,
{
    if s.len() == 0 {
        Seq::empty()
    } else {
        esc_char(s[0]) + esc_str(s.drop_first())
    }
}

/// The text of a string literal, quotes included.
pub open spec fn str_lit_text(s: Seq<char>) -> Seq<char> {
    seq!['"'] + esc_str(s) + seq!['"']
}

/// The text of the elements of an array, commas between them.
pub open spec fn arr_body_text(elems: Seq<JsonV>) -> Seq<char>
    decreases elems,
{
    if elems.len() == 0 {
        Seq::empty()
    } else if elems.len() == 1 {
        jv_text(elems[0])
    } else {
        jv_text(elems[0]) + seq![','] + arr_body_text(elems.drop_first())
    }
}

/// The text of the entries of an object, commas between them.
pub open spec fn obj_body_text(entries: Seq<(Seq<char>, JsonV)>) -> Seq<char>
    decreases entries,
{
    if entries.len() == 0 {
        Seq::empty()
    } else if entries.len() == 1 {
        str_lit_text(entries[0].0) + seq![':'] + jv_text(entries[0].1)
    } else {
        str_lit_text(entries[0].0) + seq![':'] + jv_text(entries[0].1) + seq![',']
            + obj_body_text(entries.drop_first())
    }
}

/// The JSON text of a value: what serialising it writes.
pub open spec fn jv_text(v: JsonV) -> Seq<char>
    decreases v,
{
    match v {
        JsonV::Null => seq!['n', 'u', 'l', 'l'],
        JsonV::Bool(b) => if b {
            seq!['t', 'r', 'u', 'e']
        } else {
            seq!['f', 'a', 'l', 's', 'e']
        },
        JsonV::Int(i) => int_text(i),
        JsonV::Num(s) => s,
        JsonV::Str(s) => str_lit_text(s),
        JsonV::Arr(_) => seq!['['] + arr_body_text(v->Arr_0) + seq![']'],
        JsonV::Obj(_) => seq!['{'] + obj_body_text(v->Obj_0) + seq!['}'],
    }
}

/// The decimal digit character for `d` in `0 .. 10`.
fn digit_char(d: u64) -> (r: char)
    requires
        d < 10,
    ensures
        r == seq!['0', '1', '2', '3', '4', '5', '6', '7', '8', '9'][d as int],
{
    if d == 0 { '0' }
    else if d == 1 { '1' }
    else if d == 2 { '2' }
    else if d == 3 { '3' }
    else if d == 4 { '4' }
    else if d == 5 { '5' }
    else if d == 6 { '6' }
    else if d == 7 { '7' }
    else if d == 8 { '8' }
    else { '9' }
}

/// The lower-case hexadecimal digit character for `d` in `0 .. 16`.
pub(crate) fn hex_digit_char(d: u32) -> (r: char)
    requires
        d < 16,
    ensures
        r == hex_digit(d as int),
{
    if d < 10 { digit_char(d as u64) }
    else if d == 10 { 'a' }
    else if d == 11 { 'b' }
    else if d == 12 { 'c' }
    else if d == 13 { 'd' }
    else if d == 14 { 'e' }
    else { 'f' }
}

/// Appends the decimal digits of `n`.
fn push_dec(n: u64, out: &mut Vec<char>)
    ensures
        final(out)@ == old(out)@ + dec_digits(n as nat),
    decreases n,
{
    if n < 10 {
        out.push(digit_char(n));
    } else {
        push_dec(n / 10, out);
        out.push(digit_char(n % 10));
    }
}

/// Appends every character of `cs`.
fn push_chars(out: &mut Vec<char>, cs: &Vec<char>)
    ensures
        final(out)@ == old(out)@ + cs@,
{
    let mut j: usize = 0;
    while j < cs.len()
        invariant
            j <= cs.len(),
            out@ == old(out)@ + cs@.take(j as int),
        decreases cs.len() - j,
    {
        out.push(cs[j]);
        proof {
            assert(cs@.take(j + 1 as int) =~= cs@.take(j as int) + seq![cs@[j as int]]);
        }
        j = j + 1;
    }
    proof {
        assert(cs@.take(cs@.len() as int) =~= cs@);
    }
}

/// Appends the escaped form of the characters of `cs` from position `i` on.
fn push_escaped(cs: &Vec<char>, i: usize, out: &mut Vec<char>)
    requires
        i <= cs.len(),
    ensures
        final(out)@ == old(out)@ + esc_str(cs@.skip(i as int)),
    decreases cs.len() - i,
{
    if i == cs.len() {
        proof {
            assert(esc_str(cs@.skip(i as int)) =~= Seq::<char>::empty());
        }
    } else {
        let c = cs[i];
        if c == '"' {
            out.push('\\');
            out.push('"');
        } else if c == '\\' {
            out.push('\\');
            out.push('\\');
        } else if c == '\u{8}' {
            out.push('\\');
            out.push('b');
        } else if c == '\t' {
            out.push('\\');
            out.push('t');
        } else if c == '\n' {
            out.push('\\');
            out.push('n');
        } else if c == '\u{c}' {
            out.push('\\');
            out.push('f');
        } else if c == '\r' {
            out.push('\\');
            out.push('r');
        } else if (c as u32) < 0x20 {
            out.push('\\');
            out.push('u');
            out.push('0');
            out.push('0');
            out.push(hex_digit_char((c as u32) / 16));
            out.push(hex_digit_char((c as u32) % 16));
        } else {
            out.push(c);
        }
        proof {
            assert(cs@.skip(i as int)[0] == cs@[i as int]);
            assert(cs@.skip(i as int).drop_first() =~= cs@.skip(i + 1 as int));
        }
        push_escaped(cs, i + 1, out);
    }
}

/// Appends the text of a string literal, quotes included.
fn push_str_lit(s: &String, out: &mut Vec<char>)
    ensures
        final(out)@ == old(out)@ + str_lit_text(s@),
{
    out.push('"');
    let cs = crate::text::str_chars(s.as_str());
    proof {
        assert(cs@.skip(0) =~= cs@);
    }
    push_escaped(&cs, 0, out);
    out.push('"');
}

impl Json {
    /// The JSON text of this value.
    pub fn to_text(&self) -> (r: String)
        ensures
            r@ == jv_text(self.deep()),
    {
        let mut out: Vec<char> = Vec::new();
        self.write_text(&mut out);
        crate::text::chars_to_string(&out)
    }

    /// Appends the JSON text of this value.
    fn write_text(&self, out: &mut Vec<char>)
        ensures
            final(out)@ == old(out)@ + jv_text(self.deep()),
        decreases self,
    {
        match self {
            Json::Null => {
                out.push('n');
                out.push('u');
                out.push('l');
                out.push('l');
            },
            Json::Bool(b) => {
                if *b {
                    out.push('t');
                    out.push('r');
                    out.push('u');
                    out.push('e');
                } else {
                    out.push('f');
                    out.push('a');
                    out.push('l');
                    out.push('s');
                    out.push('e');
                }
            },
            Json::Int(i) => {
                if *i < 0 {
                    out.push('-');
                    let m: u64 = (-((*i) as i128)) as u64;
                    push_dec(m, out);
                } else {
                    push_dec(*i as u64, out);
                }
            },
            Json::UInt(u) => {
                push_dec(*u, out);
            },
            Json::Num(s) => {
                let cs = crate::text::str_chars(s.as_str());
                push_chars(out, &cs);
            },
            Json::Str(s) => {
                push_str_lit(s, out);
            },
            Json::Arr(v) => {
                out.push('[');
                proof {
                    assert(v@.skip(0) =~= v@);
                }
                Json::write_elems(v, 0, out);
                out.push(']');
            },
            Json::Obj(v) => {
                out.push('{');
                proof {
                    assert(v@.skip(0) =~= v@);
                }
                Json::write_entries(v, 0, out);
                out.push('}');
            },
        }
    }

    /// Appends the array body text of the elements from position `i` on.
    fn write_elems(v: &Vec<Json>, i: usize, out: &mut Vec<char>)
        requires
            i <= v.len(),
        ensures
            final(out)@ == old(out)@ + arr_body_text(Json::deep_elems(v@.skip(i as int))),
        decreases v@.skip(i as int),
    {
        if i < v.len() {
            proof {
                let s = v@.skip(i as int);
                assert(s[0] == v@[i as int]);
                assert(s.drop_first() =~= v@.skip(i + 1 as int));
                lemma_deep_elems(s);
                assert(Json::deep_elems(s).drop_first() =~= Json::deep_elems(s.drop_first()));
            }
            v[i].write_text(out);
            if i + 1 < v.len() {
                out.push(',');
            }
            Json::write_elems(v, i + 1, out);
        }
    }

    /// Appends the object body text of the entries from position `i` on.
    fn write_entries(v: &Vec<(String, Json)>, i: usize, out: &mut Vec<char>)
        requires
            i <= v.len(),
        ensures
            final(out)@ == old(out)@ + obj_body_text(Json::deep_entries(v@.skip(i as int))),
        decreases v@.skip(i as int),
    {
        if i < v.len() {
            proof {
                let s = v@.skip(i as int);
                assert(s[0] == v@[i as int]);
                assert(s.drop_first() =~= v@.skip(i + 1 as int));
                lemma_deep_entries(s);
                assert(Json::deep_entries(s).drop_first() =~= Json::deep_entries(s.drop_first()));
            }
            push_str_lit(&v[i].0, out);
            out.push(':');
            v[i].1.write_text(out);
            if i + 1 < v.len() {
                out.push(',');
            }
            Json::write_entries(v, i + 1, out);
        }
    }
}

/// Mirrors of two element sequences agree when the elements' mirrors do.
pub proof fn lemma_deep_elems_congruence(a: Seq<Json>, b: Seq<Json>)
    requires
        a.len() == b.len(),
        forall|i: int| 0 <= i < a.len() ==> #[trigger] a[i].deep() == b[i].deep(),
    ensures
        Json::deep_elems(a) == Json::deep_elems(b),
{
    lemma_deep_elems(a);
    lemma_deep_elems(b);
    assert(Json::deep_elems(a) =~= Json::deep_elems(b));
}

/// Mirrors of two entry sequences agree when keys and value mirrors do.
pub proof fn lemma_deep_entries_congruence(a: Seq<(String, Json)>, b: Seq<(String, Json)>)
    requires
        a.len() == b.len(),
        forall|i: int| 0 <= i < a.len() ==> #[trigger] a[i].0@ == b[i].0@ && a[i].1.deep() == b[i].1.deep(),
    ensures
        Json::deep_entries(a) == Json::deep_entries(b),
{
    lemma_deep_entries(a);
    lemma_deep_entries(b);
    assert(Json::deep_entries(a) =~= Json::deep_entries(b));
}

/// Clones the elements of `v` from position `i` on, appending to `out`.
fn clone_elems_into(v: &Vec<Json>, i: usize, out: &mut Vec<Json>)
    requires
        i <= v.len(),
    ensures
        final(out)@.len() == old(out)@.len() + v@.len() - i,
        forall|j: int| 0 <= j < old(out)@.len() ==> final(out)@[j] == old(out)@[j],
        forall|j: int|
            i <= j < v@.len() ==> #[trigger] final(out)@[old(out)@.len() + j - i].deep()
                == v@[j].deep(),
    decreases v@.skip(i as int),
{
    if i < v.len() {
        proof {
            assert(v@.skip(i as int)[0] == v@[i as int]);
            assert(v@.skip(i as int).drop_first() =~= v@.skip(i + 1 as int));
        }
        let c = v[i].clone();
        out.push(c);
        let ghost mid = out@;
        clone_elems_into(v, i + 1, out);
        proof {
            assert forall|j: int| i <= j < v@.len() implies #[trigger] out@[old(out)@.len() + j
                - i].deep() == v@[j].deep() by {
                if j == i {
                    assert(out@[mid.len() - 1] == mid[mid.len() - 1]);
                } else {
                    assert(out@[mid.len() + j - (i + 1)].deep() == v@[j].deep());
                }
            }
        }
    }
}

/// Clones the entries of `v` from position `i` on, appending to `out`.
fn clone_entries_into(v: &Vec<(String, Json)>, i: usize, out: &mut Vec<(String, Json)>)
    requires
        i <= v.len(),
    ensures
        final(out)@.len() == old(out)@.len() + v@.len() - i,
        forall|j: int| 0 <= j < old(out)@.len() ==> final(out)@[j] == old(out)@[j],
        forall|j: int|
            i <= j < v@.len() ==> (#[trigger] final(out)@[old(out)@.len() + j - i]).0@ == v@[j].0@
                && final(out)@[old(out)@.len() + j - i].1.deep() == v@[j].1.deep(),
    decreases v@.skip(i as int),
{
    if i < v.len() {
        proof {
            assert(v@.skip(i as int)[0] == v@[i as int]);
            assert(v@.skip(i as int).drop_first() =~= v@.skip(i + 1 as int));
        }
        let k = v[i].0.clone();
        let c = v[i].1.clone();
        out.push((k, c));
        let ghost mid = out@;
        clone_entries_into(v, i + 1, out);
        proof {
            assert forall|j: int| i <= j < v@.len() implies (#[trigger] out@[old(out)@.len() + j
                - i]).0@ == v@[j].0@ && out@[old(out)@.len() + j - i].1.deep() == v@[j].1.deep() by {
                if j == i {
                    assert(out@[mid.len() - 1] == mid[mid.len() - 1]);
                } else {
                    assert(out@[mid.len() + j - (i + 1)].0@ == v@[j].0@);
                    assert(out@[mid.len() + j - (i + 1)].1.deep() == v@[j].1.deep());
                }
            }
        }
    }
}

impl Clone for Json {
    /// The clone has the same ghost mirror.
    fn clone(&self) -> (r: Self)
        ensures
            r.deep() == self.deep(),
        decreases self,
    {
        match self {
            Json::Null => Json::Null,
            Json::Bool(b) => Json::Bool(*b),
            Json::Int(i) => Json::Int(*i),
            Json::UInt(u) => Json::UInt(*u),
            Json::Num(s) => Json::Num(s.clone()),
            Json::Str(s) => Json::Str(s.clone()),
            Json::Arr(v) => {
                let mut out: Vec<Json> = Vec::new();
                proof {
                    assert(v@.skip(0) =~= v@);
                }
                clone_elems_into(v, 0, &mut out);
                proof {
                    assert forall|k: int| 0 <= k < v@.len() implies #[trigger] out@[k].deep()
                        == v@[k].deep() by {
                        assert(out@[0 + k - 0].deep() == v@[k].deep());
                    }
                    lemma_deep_elems_congruence(out@, v@);
                }
                Json::Arr(out)
            },
            Json::Obj(v) => {
                let mut out: Vec<(String, Json)> = Vec::new();
                proof {
                    assert(v@.skip(0) =~= v@);
                }
                clone_entries_into(v, 0, &mut out);
                proof {
                    assert forall|k: int| 0 <= k < v@.len() implies #[trigger] out@[k].0@
                        == v@[k].0@ && out@[k].1.deep() == v@[k].1.deep() by {
                        assert(out@[0 + k - 0] == out@[k]);
                    }
                    lemma_deep_entries_congruence(out@, v@);
                }
                Json::Obj(out)
            },
        }
    }
}

/// Finds `key` among the entries from position `i` on.
fn lookup_from<'a>(entries: &'a Vec<(String, Json)>, i: usize, key: &str) -> (r: Option<&'a Json>)
    requires
        i <= entries.len(),
    ensures
        match r {
            Some(j) => jv_lookup(Json::deep_entries(entries@.skip(i as int)), key@)
                == Some(j.deep()),
            None => jv_lookup(Json::deep_entries(entries@.skip(i as int)), key@) is None,
        },
    decreases entries@.len() - i,
{
    if i == entries.len() {
        None
    } else {
        proof {
            let s = entries@.skip(i as int);
            assert(s[0] == entries@[i as int]);
            assert(s.drop_first() =~= entries@.skip(i + 1 as int));
            lemma_deep_entries(s);
            assert(Json::deep_entries(s).drop_first() =~= Json::deep_entries(s.drop_first()));
        }
        if crate::text::str_eq(entries[i].0.as_str(), key) {
            Some(&entries[i].1)
        } else {
            lookup_from(entries, i + 1, key)
        }
    }
}

impl Json {
    /// The value under `key`, when this value is an object that has it.
    pub fn get<'a>(&'a self, key: &str) -> (r: Option<&'a Json>)
        ensures
            match r {
                Some(j) => self.deep().get(key@) == Some(j.deep()),
                None => self.deep().get(key@) is None,
            },
    {
        match self {
            Json::Obj(entries) => {
                proof {
                    assert(entries@.skip(0) =~= entries@);
                }
                lookup_from(entries, 0, key)
            },
            _ => None,
        }
    }

    /// The string content, when this value is a string.
    pub fn as_str(&self) -> (r: Option<&String>)
        ensures
            match r {
                Some(s) => self.deep().as_str() == Some(s@),
                None => self.deep().as_str() is None,
            },
    {
        match self {
            Json::Str(s) => Some(s),
            _ => None,
        }
    }

    /// The integer content, when this value is an integer in `0 ..= u64::MAX`.
    pub fn as_u64(&self) -> (r: Option<u64>)
        ensures
            r == self.deep().as_u64(),
    {
        match self {
            Json::Int(i) => if *i >= 0 {
                Some(*i as u64)
            } else {
                None
            },
            Json::UInt(u) => Some(*u),
            _ => None,
        }
    }

    /// The elements, when this value is an array.
    pub fn as_array(&self) -> (r: Option<&Vec<Json>>)
        ensures
            match r {
                Some(v) => self.deep() == JsonV::Arr(Json::deep_elems(v@)),
                None => !(self.deep() is Arr),
            },
    {
        match self {
            Json::Arr(v) => Some(v),
            _ => None,
        }
    }

    /// The boolean content, when this value is a boolean.
    pub fn as_bool(&self) -> (r: Option<bool>)
        ensures
            match r {
                Some(b) => self.deep() == JsonV::Bool(b),
                None => !(self.deep() is Bool),
            },
    {
        match self {
            Json::Bool(b) => Some(*b),
            _ => None,
        }
    }

    /// Whether this value is JSON null.
    pub fn is_null(&self) -> (r: bool)
        ensures
            r == (self.deep() is Null),
    {
        matches!(self, Json::Null)
    }
}

/// Whether an index lies in `0 .. n`.
pub open spec fn i_in_range(k: int, n: nat) -> bool {
    0 <= k < n
}

/// Whether the elements of `x` and `y` denote the same JSON values,
/// from position `i` on.
fn json_elems_eq(x: &Vec<Json>, y: &Vec<Json>, i: usize) -> (r: bool)
    requires
        i <= x@.len(),
        x@.len() == y@.len(),
    ensures
        r == forall|k: int|
            i <= k < x@.len() ==> (#[trigger] x@[k].deep()) == y@[k].deep(),
    decreases x@.skip(i as int),
{
    if i == x.len() {
        true
    } else {
        proof {
            assert(x@.skip(i as int)[0] == x@[i as int]);
        }
        if json_eq(&x[i], &y[i]) {
            proof {
                assert(x@.skip(i as int).drop_first() =~= x@.skip(i + 1 as int));
            }
            json_elems_eq(x, y, i + 1)
        } else {
            false
        }
    }
}

/// Whether the entries of `x` and `y` carry the same keys and denote the
/// same JSON values, from position `i` on.
fn json_entries_eq(x: &Vec<(String, Json)>, y: &Vec<(String, Json)>, i: usize) -> (r: bool)
    requires
        i <= x@.len(),
        x@.len() == y@.len(),
    ensures
        r == forall|k: int|
            i <= k < x@.len() ==> (#[trigger] x@[k]).0@ == y@[k].0@ && x@[k].1.deep()
                == y@[k].1.deep(),
    decreases x@.skip(i as int),
{
    if i == x.len() {
        true
    } else {
        proof {
            assert(x@.skip(i as int)[0] == x@[i as int]);
        }
        if crate::text::str_eq(x[i].0.as_str(), y[i].0.as_str()) && json_eq(&x[i].1, &y[i].1) {
            proof {
                assert(x@.skip(i as int).drop_first() =~= x@.skip(i + 1 as int));
            }
            json_entries_eq(x, y, i + 1)
        } else {
            false
        }
    }
}

/// Whether two values denote the same JSON value: their ghost mirrors
/// agree. An integer held as `Int` equals the same integer held as
/// `UInt`.
pub fn json_eq(a: &Json, b: &Json) -> (r: bool)
    ensures
        r == (a.deep() == b.deep()),
    decreases a,
{
    match (a, b) {
        (Json::Null, Json::Null) => true,
        (Json::Bool(x), Json::Bool(y)) => x == y,
        (Json::Int(x), Json::Int(y)) => x == y,
        (Json::UInt(x), Json::UInt(y)) => x == y,
        (Json::Int(x), Json::UInt(y)) => *x >= 0 && (*x as u64) == *y,
        (Json::UInt(x), Json::Int(y)) => *y >= 0 && (*y as u64) == *x,
        (Json::Num(x), Json::Num(y)) => crate::text::str_eq(x.as_str(), y.as_str()),
        (Json::Str(x), Json::Str(y)) => crate::text::str_eq(x.as_str(), y.as_str()),
        (Json::Arr(x), Json::Arr(y)) => {
            proof {
                lemma_deep_elems(x@);
                lemma_deep_elems(y@);
            }
            if x.len() != y.len() {
                false
            } else {
                proof {
                    assert(x@.skip(0) =~= x@);
                }
                let same = json_elems_eq(x, y, 0);
                proof {
                    if same {
                        assert(Json::deep_elems(x@) =~= Json::deep_elems(y@));
                    } else {
                        let k = choose|k: int|
                            i_in_range(k, x@.len()) && !((#[trigger] x@[k].deep())
                                == y@[k].deep());
                        assert(Json::deep_elems(x@)[k] != Json::deep_elems(y@)[k]);
                    }
                }
                same
            }
        },
        (Json::Obj(x), Json::Obj(y)) => {
            proof {
                lemma_deep_entries(x@);
                lemma_deep_entries(y@);
            }
            if x.len() != y.len() {
                false
            } else {
                proof {
                    assert(x@.skip(0) =~= x@);
                }
                let same = json_entries_eq(x, y, 0);
                proof {
                    if same {
                        assert(Json::deep_entries(x@) =~= Json::deep_entries(y@));
                    } else {
                        let k = choose|k: int|
                            i_in_range(k, x@.len()) && !((#[trigger] x@[k]).0@ == y@[k].0@
                                && x@[k].1.deep() == y@[k].1.deep());
                        assert(Json::deep_entries(x@)[k] != Json::deep_entries(y@)[k]);
                    }
                }
                same
            }
        },
        _ => false,
    }
}

/// The JSON value a string denotes, or nothing when it is not JSON.
/// What `parse_json` returns is this and nothing else.
pub uninterp spec fn json_parse(s: Seq<char>) -> Option<JsonV>;

/// Declares `serde_json::Value` so that the conversion below may name it.
#[verifier::external_type_specification]
#[verifier::external_body]
pub struct ExSerdeValue(serde_json::Value);

/// Relies on `serde_json::Value`: turns each variant of the parsed tree
/// into the same variant of the library's tree, arm by arm.
#[verifier::external_body]
fn value_to_json(v: serde_json::Value) -> Json {
    match v {
        serde_json::Value::Null => Json::Null,
        serde_json::Value::Bool(b) => Json::Bool(b),
        serde_json::Value::Number(n) => match (n.as_i64(), n.as_u64()) {
            (Some(i), _) => Json::Int(i),
            (None, Some(u)) => Json::UInt(u),
            (None, None) => Json::Num(n.to_string()),
        },
        serde_json::Value::String(s) => Json::Str(s),
        serde_json::Value::Array(a) => Json::Arr(a.into_iter().map(value_to_json).collect()),
        serde_json::Value::Object(m) => Json::Obj(
            m.into_iter().map(|(k, x)| (k, value_to_json(x))).collect(),
        ),
    }
}

/// Relies on `serde_json::from_str::<serde_json::Value>`: whether a string
/// parses as JSON, and the value it denotes, depend on the string alone.
#[verifier::external_body]
pub fn parse_json(s: &str) -> (r: Option<Json>)
    ensures
        match r {
            Some(j) => json_parse(s@) == Some(j.deep()),
            None => json_parse(s@) is None,
        },
{
    match serde_json::from_str::<serde_json::Value>(s) {
        Ok(v) => Some(value_to_json(v)),
        Err(_) => None,
    }
}

} // verus!
