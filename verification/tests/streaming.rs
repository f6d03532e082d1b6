use test_egui_chat::session::Incoming;
use test_egui_chat::stream::{
    after_round, http_error, interpret_chunk, round_notice, rounds_exhausted, status_error,
    stream_error, LoopStep, RoundState, SseDecoder, ToolCallBuffer, ToolCallDelta, ToolLoop,
};

#[test]
fn sse_events_and_done() {
    let mut d = SseDecoder::new();
    let b = d.feed("data: {\"a\":1}\n\ndata: [DONE]\n\ndata: late\n\n");
    assert_eq!(b.payloads, vec!["{\"a\":1}".to_string()]);
    assert!(b.done);
}

#[test]
fn sse_events_split_across_chunks() {
    let mut d = SseDecoder::new();
    let b1 = d.feed("data: hel");
    assert!(b1.payloads.is_empty());
    assert!(!b1.done);
    let b2 = d.feed("lo\n\nda");
    assert_eq!(b2.payloads, vec!["hello".to_string()]);
    let b3 = d.feed("ta: x\ndata: y\n\n");
    assert_eq!(b3.payloads, vec!["x".to_string(), "y".to_string()]);
    assert!(!b3.done);
}

#[test]
fn sse_ignores_other_lines_and_spaced_done() {
    let mut d = SseDecoder::new();
    let b = d.feed(": comment\nevent: x\ndata:nospace\n\ndata:  [DONE]  \n\n");
    assert!(b.payloads.is_empty());
    assert!(b.done);
}

#[test]
fn chunk_with_text() {
    let c = interpret_chunk("{\"choices\":[{\"delta\":{\"content\":\"Hi\"}}]}");
    assert_eq!(c.content.as_deref(), Some("Hi"));
    assert!(c.reasoning.is_none());
    assert!(c.tool_calls.is_none());
    assert!(c.usage.is_none());
}

#[test]
fn chunk_with_empty_text_and_reasoning() {
    let c = interpret_chunk(
        "{\"choices\":[{\"delta\":{\"content\":\"\",\"reasoning_content\":\"hmm\"}}]}",
    );
    assert!(c.content.is_none());
    assert_eq!(c.reasoning.as_deref(), Some("hmm"));
}

#[test]
fn chunk_with_usage() {
    let c = interpret_chunk(
        "{\"choices\":[{\"delta\":{},\"finish_reason\":\"stop\"}],\"usage\":{\"completion_tokens\":42}}",
    );
    let (used, finish) = c.usage.unwrap();
    assert_eq!(used, 42);
    assert_eq!(finish, "stop");
    let c2 = interpret_chunk("{\"choices\":[],\"usage\":{\"completion_tokens\":7}}");
    assert_eq!(c2.usage.unwrap().1, "");
}

#[test]
fn chunk_not_json_carries_nothing() {
    let c = interpret_chunk("not json");
    assert!(c.content.is_none() && c.reasoning.is_none());
    assert!(c.tool_calls.is_none() && c.usage.is_none());
}

#[test]
fn tool_calls_assembled_across_chunks() {
    let mut r = RoundState::new();
    let c1 = interpret_chunk(
        "{\"choices\":[{\"delta\":{\"tool_calls\":[{\"index\":0,\"id\":\"c1\",\"function\":{\"name\":\"list_dir\",\"arguments\":\"{\\\"pa\"}}]}}]}",
    );
    let d = c1.tool_calls.as_ref().unwrap();
    assert_eq!(d.len(), 1);
    assert_eq!(d[0].index, 0);
    assert_eq!(d[0].id.as_deref(), Some("c1"));
    let ev = r.absorb(c1);
    assert!(ev.is_empty());
    let c2 = interpret_chunk(
        "{\"choices\":[{\"delta\":{\"tool_calls\":[{\"index\":0,\"function\":{\"arguments\":\"th\\\":\\\".\\\"}\"}}]}}]}",
    );
    r.absorb(c2);
    assert!(r.wants_tools());
    assert_eq!(r.call_count(), 1);
    let call = r.call(0);
    assert_eq!(call.id, "c1");
    assert_eq!(call.name, "list_dir");
    assert_eq!(call.arguments, "{\"path\":\".\"}");
    assert!(r.assistant_content().is_none());
}

#[test]
fn round_events_in_order() {
    let mut r = RoundState::new();
    let c = interpret_chunk(
        "{\"choices\":[{\"delta\":{\"reasoning_content\":\"r\",\"content\":\"t\"},\"finish_reason\":\"length\"}],\"usage\":{\"completion_tokens\":3}}",
    );
    let ev = r.absorb(c);
    assert_eq!(ev.len(), 3);
    assert!(matches!(&ev[0], Incoming::ReasoningToken(x) if x == "r"));
    assert!(matches!(&ev[1], Incoming::Token(x) if x == "t"));
    assert!(matches!(&ev[2], Incoming::Usage { used: 3, finish } if finish == "length"));
    assert_eq!(r.content(), "t");
    assert!(!r.wants_tools());
    assert_eq!(r.assistant_content().as_deref(), Some("t"));
}

#[test]
fn empty_tool_list_does_not_run_tools() {
    let mut r = RoundState::new();
    r.absorb(interpret_chunk("{\"choices\":[{\"delta\":{\"tool_calls\":[]}}]}"));
    assert_eq!(r.call_count(), 0);
    assert!(!r.wants_tools());
}

#[test]
fn buffer_grows_to_the_index() {
    let mut b = ToolCallBuffer::new();
    b.apply(&ToolCallDelta { index: 2, id: Some("z".to_string()), name: None, arguments: Some("{".to_string()) });
    assert_eq!(b.len(), 3);
    assert_eq!(b.get(0).id, "");
    assert_eq!(b.get(2).id, "z");
    b.apply(&ToolCallDelta { index: 2, id: None, name: Some("n".to_string()), arguments: Some("}".to_string()) });
    assert_eq!(b.len(), 3);
    assert_eq!(b.get(2).name, "n");
    assert_eq!(b.get(2).arguments, "{}");
}

#[test]
fn tool_loop_rounds() {
    assert!(matches!(after_round(0, false), LoopStep::Finish));
    assert!(matches!(after_round(0, true), LoopStep::Next(1)));
    assert!(matches!(after_round(8, true), LoopStep::Next(9)));
    assert!(matches!(after_round(9, true), LoopStep::GiveUp));
    assert!(matches!(after_round(9, false), LoopStep::Finish));
    assert!(round_notice(0).is_none());
    assert!(matches!(round_notice(3), Some(Incoming::ToolLoopIteration(3))));
}

#[test]
fn stream_error_texts() {
    assert_eq!(http_error("refused"), "HTTP error: refused");
    assert_eq!(status_error("500 Internal Server Error", "boom"), "LM Studio 500 Internal Server Error : boom");
    assert_eq!(stream_error("reset"), "Stream error: reset");
    assert_eq!(rounds_exhausted(), "Boucle tool_use : max 10 iterations atteint");
}

#[test]
fn chunking_does_not_change_payloads() {
    let whole = "data: one\n\n: note\ndata: two\ndata: three\n\ndata: fo";
    let mut once = SseDecoder::new();
    let all = once.feed(whole);
    assert_eq!(all.payloads, vec!["one".to_string(), "two".to_string(), "three".to_string()]);
    for split in 0..=whole.len() {
        let mut d = SseDecoder::new();
        let a = d.feed(&whole[..split]);
        let b = d.feed(&whole[split..]);
        let mut got = a.payloads;
        got.extend(b.payloads);
        assert_eq!(got, all.payloads, "split at {}", split);
        assert!(!a.done && !b.done);
        // what is left waits for the rest of its event
        let c = d.feed("ur\n\n");
        assert_eq!(c.payloads, vec!["four".to_string()]);
    }
}

#[test]
fn done_in_first_chunk_ends_the_stream() {
    let mut d = SseDecoder::new();
    let a = d.feed("data: x\n\ndata: [DONE]\n\n");
    assert!(a.done);
    assert_eq!(a.payloads, vec!["x".to_string()]);
}

#[test]
fn choices_must_be_a_list() {
    let c = interpret_chunk(
        "{\"choices\":{\"0\":{\"delta\":{\"content\":\"x\"},\"finish_reason\":\"stop\"}},\"usage\":{\"completion_tokens\":1}}",
    );
    assert!(c.content.is_none());
    assert_eq!(c.usage.unwrap().1, "");
}

#[test]
fn tool_loop_sends_one_final_event_last() {
    let mut l = ToolLoop::new();
    assert!(l.begin_round().is_none());
    assert!(l.end_round(true).is_none());
    assert!(matches!(l.begin_round(), Some(Incoming::ToolLoopIteration(1))));
    assert!(matches!(l.end_round(false), Some(Incoming::StreamDone)));
    assert!(!l.is_running());
    assert!(l.begin_round().is_none());
    assert!(l.end_round(true).is_none());
    assert!(l.fail("late".to_string()).is_none());

    let mut g = ToolLoop::new();
    let mut finals = 0;
    for _ in 0..20 {
        if g.begin_round().is_some() {}
        if let Some(e) = g.end_round(true) {
            assert!(matches!(&e, Incoming::StreamError(t) if t == "Boucle tool_use : max 10 iterations atteint"));
            finals += 1;
        }
    }
    assert_eq!(finals, 1);

    let mut f = ToolLoop::new();
    assert!(matches!(f.fail("boom".to_string()), Some(Incoming::StreamError(t)) if t == "boom"));
    assert!(f.end_round(false).is_none());
}
