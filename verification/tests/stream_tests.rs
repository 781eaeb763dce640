use ai_gateway::error::Error;
use ai_gateway::json::Json;
use ai_gateway::stream::{SseEvent, SseHandler, StreamSignal, ToolCallAssembler};
use ai_gateway::utils::create_abort_signal;

fn s(text: &str) -> String {
    String::from(text)
}

fn sink() -> (SseHandler, tokio::sync::mpsc::UnboundedReceiver<SseEvent>) {
    let (tx, rx) = tokio::sync::mpsc::unbounded_channel();
    (SseHandler::new(tx, create_abort_signal()), rx)
}

#[test]
fn text_accumulates_and_forwards() {
    let (mut h, mut rx) = sink();
    h.text("Hel").unwrap();
    h.text("").unwrap();
    h.text("lo").unwrap();
    h.done().unwrap();
    assert_eq!(rx.try_recv().unwrap(), SseEvent::Text(s("Hel")));
    assert_eq!(rx.try_recv().unwrap(), SseEvent::Text(s("lo")));
    assert_eq!(rx.try_recv().unwrap(), SseEvent::Done);
    let (buffer, calls) = h.take();
    assert_eq!(buffer, "Hello");
    assert!(calls.is_empty());
}

#[test]
fn closed_channel_fails_unless_aborted() {
    let (tx, rx) = tokio::sync::mpsc::unbounded_channel();
    let mut h = SseHandler::new(tx, create_abort_signal());
    let abort = h.get_abort();
    drop(rx);
    assert!(matches!(h.text("x"), Err(Error::TransportError { .. })));
    abort.set_ctrlc();
    assert!(h.text("y").is_ok());
    assert!(h.done().is_ok());
    let (buffer, _) = h.take();
    assert_eq!(buffer, "xy");
}

#[test]
fn fragmented_tool_call_reassembles_once() {
    let (mut h, _rx) = sink();
    let mut assembler = ToolCallAssembler::new();
    assert_eq!(assembler.apply(StreamSignal::ToolCallStart(s("f"), s("1")), &mut h).unwrap(), false);
    assert_eq!(assembler.apply(StreamSignal::ToolCallFragment(s("{\"a\":")), &mut h).unwrap(), false);
    assert_eq!(assembler.apply(StreamSignal::ToolCallFragment(s("1}")), &mut h).unwrap(), false);
    assert_eq!(assembler.apply(StreamSignal::ToolCallClosed, &mut h).unwrap(), false);
    let (_, calls) = h.take();
    assert_eq!(calls.len(), 1);
    assert_eq!(calls[0].name, "f");
    assert_eq!(calls[0].id, Some(s("1")));
    assert_eq!(calls[0].arguments, Json::Obj(vec![(s("a"), Json::Int(1))]));
}

#[test]
fn second_start_flushes_the_first_call() {
    let (mut h, _rx) = sink();
    let mut assembler = ToolCallAssembler::new();
    assembler.apply(StreamSignal::ToolCallStart(s("f1"), s("1")), &mut h).unwrap();
    assembler.apply(StreamSignal::ToolCallFragment(s("{}")), &mut h).unwrap();
    assembler.apply(StreamSignal::ToolCallStart(s("f2"), s("2")), &mut h).unwrap();
    assembler.apply(StreamSignal::ToolCallFragment(s("{\"b\":2}")), &mut h).unwrap();
    assembler.apply(StreamSignal::Done, &mut h).unwrap();
    let (_, calls) = h.take();
    assert_eq!(calls.len(), 2);
    assert_eq!(calls[0].name, "f1");
    assert_eq!(calls[0].arguments, Json::Obj(vec![]));
    assert_eq!(calls[1].name, "f2");
    assert_eq!(calls[1].arguments, Json::Obj(vec![(s("b"), Json::Int(2))]));
}

#[test]
fn malformed_arguments_fail_and_deliver_nothing() {
    let (mut h, _rx) = sink();
    let mut assembler = ToolCallAssembler::new();
    assembler.apply(StreamSignal::ToolCallStart(s("f"), s("1")), &mut h).unwrap();
    assembler.apply(StreamSignal::ToolCallFragment(s("not json")), &mut h).unwrap();
    match assembler.apply(StreamSignal::ToolCallClosed, &mut h) {
        Err(Error::MalformedToolArguments { name }) => assert_eq!(name, "f"),
        other => panic!("expected MalformedToolArguments, got {:?}", other),
    }
    let (_, calls) = h.take();
    assert!(calls.is_empty());
}

#[test]
fn end_of_stream_flushes_an_open_call() {
    let (mut h, _rx) = sink();
    let mut assembler = ToolCallAssembler::new();
    assembler.apply(StreamSignal::ToolCallStart(s("f"), s("1")), &mut h).unwrap();
    assembler.apply(StreamSignal::ToolCallFragment(s("null")), &mut h).unwrap();
    assert_eq!(assembler.apply(StreamSignal::Done, &mut h).unwrap(), true);
    assert_eq!(assembler.apply(StreamSignal::Done, &mut h).unwrap(), true);
    let (_, calls) = h.take();
    assert_eq!(calls.len(), 1);
    assert_eq!(calls[0].arguments, Json::Null);
}

#[test]
fn error_frames_end_the_stream() {
    let (mut h, _rx) = sink();
    let mut assembler = ToolCallAssembler::new();
    assembler.apply(StreamSignal::TextDelta(s("so far")), &mut h).unwrap();
    match assembler.apply(StreamSignal::ErrorFrame(Some(s("429")), s("slow down")), &mut h) {
        Err(Error::UpstreamError { code, message }) => {
            assert_eq!(code, Some(s("429")));
            assert_eq!(message, "slow down");
        },
        other => panic!("expected UpstreamError, got {:?}", other),
    }
    let (buffer, _) = h.take();
    assert_eq!(buffer, "so far");
}

#[test]
fn text_between_tool_frames_keeps_its_place() {
    let (mut h, mut rx) = sink();
    let mut assembler = ToolCallAssembler::new();
    assembler.apply(StreamSignal::TextDelta(s("before ")), &mut h).unwrap();
    assembler.apply(StreamSignal::ToolCallStart(s("f"), s("1")), &mut h).unwrap();
    assembler.apply(StreamSignal::ToolCallFragment(s("{}")), &mut h).unwrap();
    assembler.apply(StreamSignal::TextDelta(s("after")), &mut h).unwrap();
    assembler.apply(StreamSignal::Done, &mut h).unwrap();
    assert_eq!(rx.try_recv().unwrap(), SseEvent::Text(s("before ")));
    assert_eq!(rx.try_recv().unwrap(), SseEvent::Text(s("after")));
    let (buffer, calls) = h.take();
    assert_eq!(buffer, "before after");
    assert_eq!(calls.len(), 1);
}
