//! Cancellation flags and small helpers around outside computations.

use vstd::prelude::*;
use std::sync::Arc;
use std::sync::atomic::{AtomicBool, Ordering};

verus! {

/// A shared cancellation flag, observed cooperatively.
pub type AbortSignal = Arc<AbortSignalInner>;

/// The two ways a caller can ask to stop: an interrupt, or end-of-input.
pub struct AbortSignalInner {
    ctrlc: AtomicBool,
    ctrld: AtomicBool,
}

/// A fresh, unset abort signal.
pub fn create_abort_signal() -> AbortSignal {
    AbortSignalInner::new()
}

/// Relies on `Arc::clone`: the clone shares the same inner value.
#[verifier::external_body]
pub(crate) fn clone_abort_signal(a: &AbortSignal) -> (r: AbortSignal)
    ensures
        r == *a,
{
    a.clone()
}

impl AbortSignalInner {
    /// A fresh, unset abort signal.
    pub fn new() -> AbortSignal {
        Arc::new(
            AbortSignalInner {
                ctrlc: AtomicBool::new(false),
                ctrld: AtomicBool::new(false),
            },
        )
    }

    /// Whether either stop was asked for. The answer is a momentary
    /// observation of a flag that another task may change at any time.
    pub fn aborted(&self) -> bool {
        if self.aborted_ctrlc() {
            return true;
        }
        if self.aborted_ctrld() {
            return true;
        }
        false
    }

    /// Whether an interrupt was asked for.
    pub fn aborted_ctrlc(&self) -> bool {
        self.ctrlc.load(Ordering::SeqCst)
    }

    /// Whether end-of-input was signalled.
    pub fn aborted_ctrld(&self) -> bool {
        self.ctrld.load(Ordering::SeqCst)
    }

    /// Clears both flags.
    pub fn reset(&self) {
        self.ctrlc.store(false, Ordering::SeqCst);
        self.ctrld.store(false, Ordering::SeqCst);
    }

    /// Records an interrupt.
    pub fn set_ctrlc(&self) {
        self.ctrlc.store(true, Ordering::SeqCst);
    }

    /// Records end-of-input.
    pub fn set_ctrld(&self) {
        self.ctrld.store(true, Ordering::SeqCst);
    }
}

/// How many tokens the tokenizer counts in `s`: a function of the text
/// alone.
pub uninterp spec fn token_count(s: Seq<char>) -> usize;

/// Count how many tokens a piece of text needs to consume.
///
/// Relies on `tiktoken_rs::cl100k_base_singleton` and
/// `CoreBPE::encode_with_special_tokens`: the encoding is built from data
/// embedded in the crate, so the count depends on the text alone.
#[verifier::external_body]
pub fn count_tokens(text: &str) -> (r: usize)
    ensures
        r == token_count(text@),
{
    tiktoken_rs::cl100k_base_singleton().encode_with_special_tokens(text).len()
}

/// The SHA-256 digest of a text: a function of the text alone.
pub uninterp spec fn sha256_bytes(s: Seq<char>) -> Seq<u8>;

/// Relies on `sha2::Sha256`: the digest is a function of the input alone
/// and is 32 bytes long.
#[verifier::external_body]
fn sha256_digest(input: &str) -> (r: Vec<u8>)
    ensures
        r@ == sha256_bytes(input@),
        r@.len() == 32,
{
    let mut hasher = <sha2::Sha256 as sha2::Digest>::new();
    sha2::Digest::update(&mut hasher, input);
    sha2::Digest::finalize(hasher).to_vec()
}

/// Bytes spelled as lower-case hexadecimal, two digits each.
pub open spec fn hex_of_bytes(bs: Seq<u8>) -> Seq<char>
    decreases bs,
{
    if bs.len() == 0 {
        Seq::empty()
    } else {
        seq![
            crate::json::hex_digit(bs[0] as int / 16),
            crate::json::hex_digit(bs[0] as int % 16),
        ] + hex_of_bytes(bs.drop_first())
    }
}

/// The digest of a text, spelled as 64 hexadecimal digits.
pub fn sha256sum(input: &str) -> (r: String)
    ensures
        r@ == hex_of_bytes(sha256_bytes(input@)),
        r@.len() == 64,
{
    let digest = sha256_digest(input);
    let mut out: Vec<char> = Vec::new();
    hex_into(&digest, 0, &mut out);
    proof {
        assert(digest@.skip(0) =~= digest@);
        assert(Seq::<char>::empty() + hex_of_bytes(digest@) =~= hex_of_bytes(digest@));
        lemma_hex_of_bytes_len(digest@);
    }
    crate::text::chars_to_string(&out)
}

/// Hex encoding yields two digits per byte.
proof fn lemma_hex_of_bytes_len(bs: Seq<u8>)
    ensures
        hex_of_bytes(bs).len() == 2 * bs.len(),
    decreases bs,
{
    if bs.len() > 0 {
        lemma_hex_of_bytes_len(bs.drop_first());
    }
}

/// Appends the hexadecimal digits of the bytes from position `i` on.
fn hex_into(bs: &Vec<u8>, i: usize, out: &mut Vec<char>)
    requires
        i <= bs.len(),
    ensures
        final(out)@ == old(out)@ + hex_of_bytes(bs@.skip(i as int)),
    decreases bs@.len() - i,
{
    if i == bs.len() {
        proof {
            assert(hex_of_bytes(bs@.skip(i as int)) =~= Seq::<char>::empty());
            assert(out@ + Seq::<char>::empty() =~= out@);
        }
    } else {
        proof {
            assert(bs@.skip(i as int)[0] == bs@[i as int]);
            assert(bs@.skip(i as int).drop_first() =~= bs@.skip(i + 1 as int));
        }
        let b = bs[i];
        out.push(crate::json::hex_digit_char((b / 16) as u32));
        out.push(crate::json::hex_digit_char((b % 16) as u32));
        hex_into(bs, i + 1, out);
    }
}

/// Whether a character may stand in a fence tag: a letter, a digit, or
/// an underscore.
pub open spec fn is_word_char(c: char) -> bool {
    ('a' <= c <= 'z') || ('A' <= c <= 'Z') || ('0' <= c <= '9') || c == '_'
}

/// Whether a character may stand in a fence tag.
fn is_word_exec(c: char) -> (r: bool)
    ensures
        r == is_word_char(c),
{
    ('a' <= c && c <= 'z') || ('A' <= c && c <= 'Z') || ('0' <= c && c <= '9') || c == '_'
}

/// The three-backtick fence.
pub open spec fn fence() -> Seq<char> {
    seq!['`', '`', '`']
}

/// How far the run of tag characters reaches from position `i`.
pub open spec fn word_run(s: Seq<char>, i: int) -> int
    decreases s.len() - i,
{
    if 0 <= i < s.len() && is_word_char(s[i]) {
        1 + word_run(s, i + 1)
    } else {
        0
    }
}

/// Whether a fenced block opens at `p`: a fence stands there, and after
/// its tag another fence closes the block somewhere later.
pub open spec fn block_opens_at(s: Seq<char>, p: int) -> bool {
    crate::text::match_at(s, fence(), p) && crate::text::first_match_from(
        s,
        fence(),
        p + 3 + word_run(s, p + 3),
    ) is Some
}

/// The first position at or after `p` where a fenced block opens.
pub open spec fn first_block_from(s: Seq<char>, p: int) -> Option<int>
    decreases s.len() - p,
{
    if p < 0 || p + 3 > s.len() {
        None
    } else if block_opens_at(s, p) {
        Some(p)
    } else {
        first_block_from(s, p + 1)
    }
}

/// The last position at or after `i` where a fence stands.
pub open spec fn last_fence_from(s: Seq<char>, i: int) -> Option<int>
    decreases s.len() - i,
{
    if i < 0 || i + 3 > s.len() {
        None
    } else if crate::text::match_at(s, fence(), i) {
        match last_fence_from(s, i + 1) {
            Some(q) => Some(q),
            None => Some(i),
        }
    } else {
        last_fence_from(s, i + 1)
    }
}

/// What `extract_block` answers: the text between the first block's
/// opening fence — its tag skipped — and the last fence, trimmed; or
/// the whole text, trimmed, when no block opens or the block is empty.
pub open spec fn extracted_block(s: Seq<char>) -> Seq<char> {
    match first_block_from(s, 0) {
        None => crate::input::trimmed(s),
        Some(p) => {
            let st = p + 3 + word_run(s, p + 3);
            match last_fence_from(s, st) {
                Some(q) => if q > st {
                    crate::input::trimmed(s.subrange(st, q))
                } else {
                    crate::input::trimmed(s)
                },
                None => crate::input::trimmed(s),
            }
        },
    }
}

/// How far the run of tag characters reaches from position `i`.
fn word_run_exec(cs: &Vec<char>, i: usize) -> (r: usize)
    requires
        i <= cs@.len(),
    ensures
        r == word_run(cs@, i as int),
        i + r <= cs@.len(),
    decreases cs@.len() - i,
{
    if i < cs.len() && is_word_exec(cs[i]) {
        1 + word_run_exec(cs, i + 1)
    } else {
        0
    }
}

/// The first position at or after `p` where a fenced block opens.
fn first_block_exec(cs: &Vec<char>, fence_cs: &Vec<char>, p: usize) -> (r: Option<usize>)
    requires
        fence_cs@ == fence(),
    ensures
        match r {
            Some(k) => first_block_from(cs@, p as int) == Some(k as int) && k + 3 <= cs@.len(),
            None => first_block_from(cs@, p as int) is None,
        },
    decreases cs@.len() - p,
{
    if p > cs.len() || cs.len() - p < 3 {
        return None;
    }
    let opens: bool = if crate::text::match_at_exec(cs, fence_cs, p) {
        let st = p + 3 + word_run_exec(cs, p + 3);
        match crate::text::find_from(cs, fence_cs, st) {
            Some(_) => true,
            None => false,
        }
    } else {
        false
    };
    if opens {
        Some(p)
    } else {
        first_block_exec(cs, fence_cs, p + 1)
    }
}

/// The last position at or after `i` where a fence stands.
fn last_fence_exec(cs: &Vec<char>, fence_cs: &Vec<char>, i: usize) -> (r: Option<usize>)
    requires
        fence_cs@ == fence(),
    ensures
        match r {
            Some(q) => last_fence_from(cs@, i as int) == Some(q as int) && q + 3 <= cs@.len(),
            None => last_fence_from(cs@, i as int) is None,
        },
    decreases cs@.len() - i,
{
    if i > cs.len() || cs.len() - i < 3 {
        return None;
    }
    let here: bool = crate::text::match_at_exec(cs, fence_cs, i);
    let later = last_fence_exec(cs, fence_cs, i + 1);
    if here {
        match later {
            Some(q) => Some(q),
            None => Some(i),
        }
    } else {
        later
    }
}

/// The text between the first fenced block's fences, its tag skipped,
/// trimmed; or the whole text, trimmed, when no block opens or the
/// block is empty.
pub fn extract_block(input: &str) -> (r: String)
    ensures
        r@ == extracted_block(input@),
{
    let cs = crate::text::str_chars(input);
    let fence_cs = crate::text::str_chars("```");
    proof {
        reveal_strlit("```");
        assert(fence_cs@ =~= fence());
    }
    let total = cs.len();
    match first_block_exec(&cs, &fence_cs, 0) {
        Some(p) => {
            proof {
                assert(p + 3 <= total);
            }
            let st = p + 3 + word_run_exec(&cs, p + 3);
            match last_fence_exec(&cs, &fence_cs, st) {
                Some(q) => {
                    if q > st {
                        let body = crate::text::sub_chars(&cs, st, q);
                        let body_str = crate::text::chars_to_string(&body);
                        let t = crate::input::trim_exec(body_str.as_str());
                        crate::text::chars_to_string(&t)
                    } else {
                        let t = crate::input::trim_exec(input);
                        crate::text::chars_to_string(&t)
                    }
                },
                None => {
                    let t = crate::input::trim_exec(input);
                    crate::text::chars_to_string(&t)
                },
            }
        },
        None => {
            let t = crate::input::trim_exec(input);
            crate::text::chars_to_string(&t)
        },
    }
}

/// What kind of answer a configuration prompt expects.
#[derive(Debug, Clone, Copy, PartialEq, Eq, Structural)]
pub enum PromptKind {
    String,
    Integer,
}

/// Whether a text reads as a 32-bit signed integer: what deciding an
/// integer prompt accepts.
pub uninterp spec fn reads_as_i32(s: Seq<char>) -> bool;

/// Relies on `str::parse::<i32>`: whether the text parses depends on the
/// text alone.
#[verifier::external_body]
fn parses_as_i32(text: &str) -> (r: bool)
    ensures
        r == reads_as_i32(text@),
{
    text.parse::<i32>().is_ok()
}

/// Whether a prompt answer is a well-formed integer.
pub fn validate_integer(text: &str) -> (r: bool)
    ensures
        r == reads_as_i32(text@),
{
    parses_as_i32(text)
}

} // verus!
