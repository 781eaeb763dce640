//! The streaming side: normalized frame signals, the reply sink, and the
//! assembler that rebuilds fragmented tool calls.

use vstd::prelude::*;
use crate::error::Error;
use crate::function::{ToolCall, ToolCallV};
use crate::json::{json_parse, parse_json};
use crate::utils::AbortSignal;

verus! {

/// What the sink forwards to the caller's channel.
#[derive(Debug, PartialEq)]
pub enum SseEvent {
    Text(String),
    Done,
}

/// A ghost mirror of a stream signal.
pub enum StreamSignalV {
    TextDelta(Seq<char>),
    ToolCallStart(Seq<char>, Seq<char>),
    ToolCallFragment(Seq<char>),
    ToolCallClosed,
    Done,
    ErrorFrame(Option<Seq<char>>, Seq<char>),
    Ignore,
}

/// One inbound frame, classified: a piece of answer text; the start of a
/// tool call with its name and id; a fragment of the current call's
/// argument text; the close of the current call; the end of the stream;
/// a vendor error with its code and message; or nothing of note.
#[derive(Debug, PartialEq)]
pub enum StreamSignal {
    TextDelta(String),
    ToolCallStart(String, String),
    ToolCallFragment(String),
    ToolCallClosed,
    Done,
    ErrorFrame(Option<String>, String),
    Ignore,
}

impl DeepView for StreamSignal {
    type V = StreamSignalV;

    open spec fn deep_view(&self) -> StreamSignalV {
        match self {
            StreamSignal::TextDelta(t) => StreamSignalV::TextDelta(t@),
            StreamSignal::ToolCallStart(n, i) => StreamSignalV::ToolCallStart(n@, i@),
            StreamSignal::ToolCallFragment(f) => StreamSignalV::ToolCallFragment(f@),
            StreamSignal::ToolCallClosed => StreamSignalV::ToolCallClosed,
            StreamSignal::Done => StreamSignalV::Done,
            StreamSignal::ErrorFrame(c, m) => StreamSignalV::ErrorFrame(c.deep_view(), m@),
            StreamSignal::Ignore => StreamSignalV::Ignore,
        }
    }
}

/// Declares tokio's `UnboundedSender` so that the sink may hold one.
#[verifier::external_type_specification]
#[verifier::external_body]
#[verifier::reject_recursive_types(T)]
pub struct ExUnboundedSender<T>(tokio::sync::mpsc::UnboundedSender<T>);

/// Relies on tokio's `UnboundedSender::send`: the event is handed to the
/// channel when the receiver still listens; the answer says whether it
/// was. Nothing more holds of the outcome, which depends on the receiver.
#[verifier::external_body]
fn send_event(sender: &tokio::sync::mpsc::UnboundedSender<SseEvent>, ev: SseEvent) -> (r: bool) {
    sender.send(ev).is_ok()
}

/// The accumulator and forwarder of one streaming call: it keeps the full
/// answer and the finished tool calls, and forwards live increments to
/// the caller's channel. Consumed once, by `take`, when the call ends.
pub struct SseHandler {
    sender: tokio::sync::mpsc::UnboundedSender<SseEvent>,
    abort: AbortSignal,
    buffer: String,
    tool_calls: Vec<ToolCall>,
}

impl SseHandler {
    /// The abort flag this sink watches.
    pub closed spec fn abort_view(&self) -> AbortSignal {
        self.abort
    }

    /// The channel this sink forwards on.
    pub closed spec fn sender_view(&self) -> tokio::sync::mpsc::UnboundedSender<SseEvent> {
        self.sender
    }

    /// The answer text gathered so far.
    pub closed spec fn buffer_view(&self) -> Seq<char> {
        self.buffer@
    }

    /// The finished tool calls gathered so far, in arrival order.
    pub closed spec fn calls_view(&self) -> Seq<ToolCallV> {
        self.tool_calls.deep_view()
    }

    /// An empty sink over the given channel and abort flag.
    pub fn new(sender: tokio::sync::mpsc::UnboundedSender<SseEvent>, abort: AbortSignal) -> (r:
        Self)
        ensures
            r.buffer_view() == Seq::<char>::empty(),
            r.calls_view() == Seq::<ToolCallV>::empty(),
            r.abort_view() == abort,
            r.sender_view() == sender,
    {
        let r = SseHandler { sender, abort, buffer: String::new(), tool_calls: Vec::new() };
        proof {
            assert(r.calls_view() =~= Seq::<ToolCallV>::empty());
        }
        r
    }

    /// Appends a text delta to the answer and forwards it. Empty input is
    /// a no-op. A forwarding failure is swallowed when the caller has
    /// already aborted, and surfaced otherwise — the text stays appended
    /// either way.
    pub fn text(&mut self, text: &str) -> (r: Result<(), Error>)
        ensures
            final(self).buffer_view() == old(self).buffer_view() + text@,
            final(self).calls_view() == old(self).calls_view(),
            final(self).abort_view() == old(self).abort_view(),
            final(self).sender_view() == old(self).sender_view(),
            text@.len() == 0 ==> r is Ok,
    {
        if text.is_empty() {
            proof {
                assert(self.buffer@ + text@ =~= self.buffer@);
            }
            return Ok(());
        }
        self.buffer.append(text);
        let sent = send_event(&self.sender, SseEvent::Text(text.to_owned()));
        if !sent && !self.abort.aborted() {
            return Err(
                Error::TransportError {
                    status: None,
                    message: String::from_str("the reply channel is closed"),
                },
            );
        }
        Ok(())
    }

    /// Forwards the terminal marker. A forwarding failure is swallowed
    /// when the caller has already aborted, and surfaced otherwise.
    pub fn done(&mut self) -> (r: Result<(), Error>)
        ensures
            final(self).buffer_view() == old(self).buffer_view(),
            final(self).calls_view() == old(self).calls_view(),
            final(self).abort_view() == old(self).abort_view(),
            final(self).sender_view() == old(self).sender_view(),
    {
        let sent = send_event(&self.sender, SseEvent::Done);
        if !sent && !self.abort.aborted() {
            return Err(
                Error::TransportError {
                    status: None,
                    message: String::from_str("the reply channel is closed"),
                },
            );
        }
        Ok(())
    }

    /// Appends a finished tool call. No dedup happens here; that is the
    /// caller's business, through `ToolCall::dedup`.
    pub fn tool_call(&mut self, call: ToolCall) -> (r: Result<(), Error>)
        ensures
            r is Ok,
            final(self).buffer_view() == old(self).buffer_view(),
            final(self).calls_view() == old(self).calls_view() + seq![call.deep_view()],
            final(self).abort_view() == old(self).abort_view(),
            final(self).sender_view() == old(self).sender_view(),
    {
        self.tool_calls.push(call);
        proof {
            assert(self.calls_view() =~= old(self).calls_view() + seq![call.deep_view()]);
        }
        Ok(())
    }

    /// A handle on the shared abort flag this sink watches.
    pub fn get_abort(&self) -> (r: AbortSignal)
        ensures
            r == self.abort_view(),
    {
        crate::utils::clone_abort_signal(&self.abort)
    }

    /// Takes the gathered answer and tool calls out; the sink is spent.
    pub fn take(self) -> (r: (String, Vec<ToolCall>))
        ensures
            r.0@ == self.buffer_view(),
            r.1.deep_view() == self.calls_view(),
    {
        let SseHandler { buffer, tool_calls, .. } = self;
        (buffer, tool_calls)
    }
}

/// A ghost mirror of the assembler: the open call's name, id, and the
/// argument text gathered so far. An empty name means no call is open.
pub struct AssemblerV {
    pub name: Seq<char>,
    pub id: Seq<char>,
    pub args: Seq<char>,
}

/// The assembler with nothing open.
pub open spec fn closed_assembler() -> AssemblerV {
    AssemblerV { name: Seq::empty(), id: Seq::empty(), args: Seq::empty() }
}

/// Closes the open call, if any: the gathered fragments must read as one
/// JSON value, which becomes the call's arguments; fragments that do not
/// read as JSON fail with the call's name, and nothing is delivered.
pub open spec fn flush_calls(st: AssemblerV, calls: Seq<ToolCallV>) -> Result<
    Seq<ToolCallV>,
    Seq<char>,
> {
    if st.name.len() == 0 {
        Ok(calls)
    } else {
        match json_parse(st.args) {
            Some(a) => Ok(calls + seq![ToolCallV { name: st.name, arguments: a, id: Some(st.id) }]),
            None => Err(st.name),
        }
    }
}

/// What starting a call does: the previous call, if still open, is
/// flushed first, then the new call's buffer opens empty.
pub open spec fn step_start(
    st: AssemblerV,
    calls: Seq<ToolCallV>,
    name: Seq<char>,
    id: Seq<char>,
) -> Result<(AssemblerV, Seq<ToolCallV>), Seq<char>> {
    match flush_calls(st, calls) {
        Ok(c) => Ok((AssemblerV { name, id, args: Seq::empty() }, c)),
        Err(n) => Err(n),
    }
}

/// What an argument fragment does: it extends the open call's argument
/// text, and does nothing when no call is open.
pub open spec fn step_fragment(st: AssemblerV, frag: Seq<char>) -> AssemblerV {
    if st.name.len() > 0 {
        AssemblerV { args: st.args + frag, ..st }
    } else {
        st
    }
}

/// What closing does: the open call, if any, is flushed, and the
/// assembler is closed afterwards.
pub open spec fn step_close(st: AssemblerV, calls: Seq<ToolCallV>) -> Result<
    (AssemblerV, Seq<ToolCallV>),
    Seq<char>,
> {
    match flush_calls(st, calls) {
        Ok(c) => Ok((closed_assembler(), c)),
        Err(n) => Err(n),
    }
}

/// Rebuilds tool calls from start, fragment, and close signals, feeding
/// each finished call to the sink exactly once.
pub struct ToolCallAssembler {
    name: String,
    id: String,
    fragments: String,
}

impl ToolCallAssembler {
    /// The ghost mirror of this assembler.
    pub closed spec fn view_state(&self) -> AssemblerV {
        AssemblerV { name: self.name@, id: self.id@, args: self.fragments@ }
    }

    /// A fresh assembler with nothing open.
    pub fn new() -> (r: Self)
        ensures
            r.view_state() == closed_assembler(),
    {
        let r = ToolCallAssembler {
            name: String::new(),
            id: String::new(),
            fragments: String::new(),
        };
        proof {
            assert(r.view_state() =~= closed_assembler());
        }
        r
    }

    /// Flushes the open call into the sink, leaving the state as it was.
    fn emit_open(&self, sink: &mut SseHandler) -> (r: Result<(), Error>)
        ensures
            final(sink).buffer_view() == old(sink).buffer_view(),
            final(sink).abort_view() == old(sink).abort_view(),
            final(sink).sender_view() == old(sink).sender_view(),
            match flush_calls(self.view_state(), old(sink).calls_view()) {
                Ok(c) => r is Ok && final(sink).calls_view() == c,
                Err(n) => {
                    &&& r matches Err(Error::MalformedToolArguments { name }) && name@ == n
                    &&& final(sink).calls_view() == old(sink).calls_view()
                },
            },
    {
        if self.name.as_str().is_empty() {
            proof {
                assert(sink.calls_view() =~= old(sink).calls_view());
            }
            return Ok(());
        }
        match parse_json(self.fragments.as_str()) {
            Some(args) => {
                let call = ToolCall::new(self.name.clone(), args, Some(self.id.clone()));
                let _ = sink.tool_call(call);
                Ok(())
            },
            None => Err(Error::MalformedToolArguments { name: self.name.clone() }),
        }
    }

    /// Starts a call: the previous call, if still open, is flushed to the
    /// sink first — a vendor may start a new call without closing the
    /// last — and the new call's buffer opens empty.
    pub fn on_start(&mut self, name: String, id: String, sink: &mut SseHandler) -> (r: Result<
        (),
        Error,
    >)
        ensures
            final(sink).buffer_view() == old(sink).buffer_view(),
            final(sink).abort_view() == old(sink).abort_view(),
            final(sink).sender_view() == old(sink).sender_view(),
            match step_start(old(self).view_state(), old(sink).calls_view(), name@, id@) {
                Ok(sc) => {
                    &&& r is Ok
                    &&& final(self).view_state() == sc.0
                    &&& final(sink).calls_view() == sc.1
                },
                Err(n) => {
                    &&& r matches Err(Error::MalformedToolArguments { name: en }) && en@ == n
                    &&& final(self).view_state() == old(self).view_state()
                    &&& final(sink).calls_view() == old(sink).calls_view()
                },
            },
    {
        match self.emit_open(sink) {
            Ok(_) => {
                self.name = name;
                self.id = id;
                self.fragments = String::new();
                Ok(())
            },
            Err(e) => Err(e),
        }
    }

    /// Buffers an argument fragment of the open call; without an open
    /// call the fragment is dropped.
    pub fn on_fragment(&mut self, frag: &str) -> (r: ())
        ensures
            final(self).view_state() == step_fragment(old(self).view_state(), frag@),
    {
        if !self.name.as_str().is_empty() {
            self.fragments.append(frag);
        }
    }

    /// Closes the open call, if any: its gathered fragments must read as
    /// one JSON value, which reaches the sink as the call's arguments;
    /// fragments that do not read as JSON fail the stream with
    /// `MalformedToolArguments`, and no call is delivered. Closing twice
    /// flushes at most once.
    pub fn on_close(&mut self, sink: &mut SseHandler) -> (r: Result<(), Error>)
        ensures
            final(sink).buffer_view() == old(sink).buffer_view(),
            final(sink).abort_view() == old(sink).abort_view(),
            final(sink).sender_view() == old(sink).sender_view(),
            match step_close(old(self).view_state(), old(sink).calls_view()) {
                Ok(sc) => {
                    &&& r is Ok
                    &&& final(self).view_state() == sc.0
                    &&& final(sink).calls_view() == sc.1
                },
                Err(n) => {
                    &&& r matches Err(Error::MalformedToolArguments { name: en }) && en@ == n
                    &&& final(self).view_state() == old(self).view_state()
                    &&& final(sink).calls_view() == old(sink).calls_view()
                },
            },
    {
        match self.emit_open(sink) {
            Ok(_) => {
                self.name = String::new();
                self.id = String::new();
                self.fragments = String::new();
                proof {
                    assert(self.view_state() =~= closed_assembler());
                }
                Ok(())
            },
            Err(e) => Err(e),
        }
    }

    /// Feeds one classified frame through the assembler and the sink.
    /// Text goes to the sink at once and leaves the assembler alone; a
    /// vendor error ends the stream no matter what is buffered; the
    /// terminal signal flushes any still-open call and reports the end.
    pub fn apply(&mut self, sig: StreamSignal, sink: &mut SseHandler) -> (r: Result<bool, Error>)
        ensures
            final(sink).abort_view() == old(sink).abort_view(),
            final(sink).sender_view() == old(sink).sender_view(),
            match sig.deep_view() {
                StreamSignalV::TextDelta(t) => {
                    &&& final(sink).buffer_view() == old(sink).buffer_view() + t
                    &&& final(sink).calls_view() == old(sink).calls_view()
                    &&& final(self).view_state() == old(self).view_state()
                    &&& r is Ok ==> r->Ok_0 == false
                },
                StreamSignalV::ToolCallStart(n, i) => {
                    &&& final(sink).buffer_view() == old(sink).buffer_view()
                    &&& match step_start(old(self).view_state(), old(sink).calls_view(), n, i) {
                        Ok(sc) => r == Ok::<bool, Error>(false) && final(self).view_state()
                            == sc.0 && final(sink).calls_view() == sc.1,
                        Err(en) => (r matches Err(Error::MalformedToolArguments { name })
                            && name@ == en) && final(self).view_state() == old(self).view_state()
                            && final(sink).calls_view() == old(sink).calls_view(),
                    }
                },
                StreamSignalV::ToolCallFragment(f) => {
                    &&& final(sink).buffer_view() == old(sink).buffer_view()
                    &&& final(sink).calls_view() == old(sink).calls_view()
                    &&& final(self).view_state() == step_fragment(old(self).view_state(), f)
                    &&& r == Ok::<bool, Error>(false)
                },
                StreamSignalV::ToolCallClosed | StreamSignalV::Done => {
                    &&& final(sink).buffer_view() == old(sink).buffer_view()
                    &&& match step_close(old(self).view_state(), old(sink).calls_view()) {
                        Ok(sc) => r == Ok::<bool, Error>(sig.deep_view() is Done)
                            && final(self).view_state() == sc.0
                            && final(sink).calls_view() == sc.1,
                        Err(en) => (r matches Err(Error::MalformedToolArguments { name })
                            && name@ == en) && final(self).view_state() == old(self).view_state()
                            && final(sink).calls_view() == old(sink).calls_view(),
                    }
                },
                StreamSignalV::ErrorFrame(c, m) => {
                    &&& final(sink).buffer_view() == old(sink).buffer_view()
                    &&& final(sink).calls_view() == old(sink).calls_view()
                    &&& final(self).view_state() == old(self).view_state()
                    &&& r matches Err(Error::UpstreamError { code, message }) && code.deep_view()
                        == c && message@ == m
                },
                StreamSignalV::Ignore => {
                    &&& final(sink).buffer_view() == old(sink).buffer_view()
                    &&& final(sink).calls_view() == old(sink).calls_view()
                    &&& final(self).view_state() == old(self).view_state()
                    &&& r == Ok::<bool, Error>(false)
                },
            },
    {
        match sig {
            StreamSignal::TextDelta(t) => match sink.text(t.as_str()) {
                Ok(_) => Ok(false),
                Err(e) => Err(e),
            },
            StreamSignal::ToolCallStart(name, id) => match self.on_start(name, id, sink) {
                Ok(_) => Ok(false),
                Err(e) => Err(e),
            },
            StreamSignal::ToolCallFragment(f) => {
                self.on_fragment(f.as_str());
                Ok(false)
            },
            StreamSignal::ToolCallClosed => match self.on_close(sink) {
                Ok(_) => Ok(false),
                Err(e) => Err(e),
            },
            StreamSignal::Done => match self.on_close(sink) {
                Ok(_) => Ok(true),
                Err(e) => Err(e),
            },
            StreamSignal::ErrorFrame(code, message) => Err(
                Error::UpstreamError { code, message },
            ),
            StreamSignal::Ignore => Ok(false),
        }
    }
}

/// Law: a start that interrupts an open call flushes the open call
/// first, and a later close flushes the new one, so the sink sees the
/// two calls finished in start order.
pub proof fn lemma_interrupted_start_keeps_order(
    calls: Seq<ToolCallV>,
    st: AssemblerV,
    name2: Seq<char>,
    id2: Seq<char>,
    frags2: Seq<char>,
)
    requires
        st.name.len() > 0,
        name2.len() > 0,
        json_parse(st.args) is Some,
        json_parse(frags2) is Some,
    ensures
        ({
            let afterstart = step_start(st, calls, name2, id2);
            &&& afterstart is Ok
            &&& {
                let st2 = step_fragment(afterstart->Ok_0.0, frags2);
                let done = step_close(st2, afterstart->Ok_0.1);
                &&& done is Ok
                &&& done->Ok_0.1 == calls + seq![
                    ToolCallV {
                        name: st.name,
                        arguments: json_parse(st.args).unwrap(),
                        id: Some(st.id),
                    },
                    ToolCallV {
                        name: name2,
                        arguments: json_parse(frags2).unwrap(),
                        id: Some(id2),
                    },
                ]
            }
        }),
{
    let afterstart = step_start(st, calls, name2, id2);
    let st2 = step_fragment(afterstart->Ok_0.0, frags2);
    assert(Seq::<char>::empty() + frags2 =~= frags2);
    let done = step_close(st2, afterstart->Ok_0.1);
    assert(done->Ok_0.1 =~= calls + seq![
        ToolCallV { name: st.name, arguments: json_parse(st.args).unwrap(), id: Some(st.id) },
        ToolCallV { name: name2, arguments: json_parse(frags2).unwrap(), id: Some(id2) },
    ]);
}

/// Law: fragments that do not read as JSON never deliver a call — a
/// close on such a buffer reports the call's name and leaves the sink's
/// calls untouched.
pub proof fn lemma_malformed_arguments_deliver_nothing(calls: Seq<ToolCallV>, st: AssemblerV)
    requires
        st.name.len() > 0,
        json_parse(st.args) is None,
    ensures
        step_close(st, calls) == Err::<(AssemblerV, Seq<ToolCallV>), Seq<char>>(st.name),
        step_start(st, calls, st.name, st.id) == Err::<(AssemblerV, Seq<ToolCallV>), Seq<char>>(
            st.name,
        ),
{
}

} // verus!