use test_egui_chat::chat::{ModelInfo, Role, ToolCallInfo};
use test_egui_chat::session::{ChatSession, Incoming};

fn session_with_model() -> ChatSession {
    let mut s = ChatSession::new();
    s.model = "qwen".to_string();
    s
}

#[test]
fn turn_refused_without_model_or_text() {
    let mut s = ChatSession::new();
    assert!(s.begin_turn("hi").is_none());
    let mut s = session_with_model();
    assert!(s.begin_turn("   ").is_none());
    assert!(s.messages.is_empty());
    assert!(s.begin_turn("hi").is_some());
    assert!(s.begin_turn("again").is_none());
    assert_eq!(s.messages.len(), 2);
}

#[test]
fn turn_sends_history_without_empty_answer() {
    let mut s = session_with_model();
    let req = s.begin_turn("hello").unwrap();
    assert_eq!(req.model, "qwen");
    assert_eq!(req.last_user_chars, 5);
    assert_eq!(req.history.len(), 1);
    assert_eq!(req.history[0].0, Role::User);
    assert_eq!(req.history[0].1, "hello");
    assert!(s.waiting);
    assert_eq!(s.messages[1].role, Role::Assistant);
    assert_eq!(s.messages[1].model.as_deref(), Some("qwen"));
    assert!(s.messages[1].content.is_empty());
}

#[test]
fn tokens_build_the_answer_and_done_scores_it() {
    let mut s = session_with_model();
    s.begin_turn("hi").unwrap();
    s.apply(Incoming::ReasoningToken("think".to_string()));
    s.apply(Incoming::Token("Hel".to_string()));
    s.apply(Incoming::Token("lo".to_string()));
    assert_eq!(s.messages[1].content, "Hello");
    assert_eq!(s.messages[1].reasoning, "think");
    let e = s.apply(Incoming::StreamDone);
    assert!(e.stream_ended);
    assert!(!s.waiting);
    let sc = e.score.unwrap();
    assert_eq!(sc.model, "qwen");
    assert_eq!(sc.text, "Hello");
    assert!(e.thought_flow.is_none());
    assert_eq!(s.history().len(), 2);
}

#[test]
fn empty_answer_dropped_at_end() {
    let mut s = session_with_model();
    s.begin_turn("hi").unwrap();
    let e = s.apply(Incoming::StreamDone);
    assert!(e.score.is_none());
    assert_eq!(s.messages.len(), 1);
    assert_eq!(s.messages[0].content, "hi");
}

#[test]
fn stop_marks_interruption() {
    let mut s = session_with_model();
    s.begin_turn("hi").unwrap();
    s.stop();
    assert!(!s.waiting);
    assert_eq!(s.messages[1].content, "[interrompu]");
    s.begin_turn("more").unwrap();
    s.on_token("abc");
    s.stop();
    assert_eq!(s.messages[3].content, "abc\n[...interrompu]");
}

#[test]
fn error_replaces_answer() {
    let mut s = session_with_model();
    s.begin_turn("hi").unwrap();
    s.on_token("partial");
    s.apply(Incoming::StreamError("boom".to_string()));
    assert!(!s.waiting);
    assert_eq!(s.messages[1].content, "[Erreur] boom");
}

#[test]
fn retry_asks_the_same_question() {
    let mut s = session_with_model();
    s.begin_turn("question").unwrap();
    s.on_token("bad answer");
    s.apply(Incoming::StreamDone);
    let req = s.retry_last().unwrap();
    assert_eq!(req.history.len(), 1);
    assert_eq!(req.history[0].1, "question");
    assert_eq!(req.last_user_chars, 8);
    assert_eq!(s.messages.len(), 2);
    assert!(s.messages[1].content.is_empty());
    assert!(s.waiting);
    // refused while in flight
    assert!(s.retry_last().is_none());
}

#[test]
fn usage_consumes_bookkeeping() {
    let mut s = session_with_model();
    s.begin_turn("abcd").unwrap();
    s.set_allocation(2048);
    let e = s.apply(Incoming::Usage { used: 100, finish: "stop".to_string() });
    let u = e.usage.unwrap();
    assert_eq!(u.model, "qwen");
    assert_eq!(u.prompt_chars, 4);
    assert_eq!(u.allocated, 2048);
    assert_eq!(u.used, 100);
    assert_eq!(u.finish, "stop");
    assert!(s.pending_stats.is_none());
    let again = s.apply(Incoming::Usage { used: 1, finish: String::new() });
    assert!(again.usage.is_none());
}

#[test]
fn tool_calls_give_a_flowchart() {
    let mut s = session_with_model();
    s.begin_turn("list").unwrap();
    s.apply(Incoming::ToolCallComplete(ToolCallInfo {
        id: "1".to_string(),
        name: "list_dir".to_string(),
        arguments: "{}".to_string(),
        result: "ok".to_string(),
        is_error: false,
    }));
    s.apply(Incoming::ToolLoopIteration(1));
    s.on_token("done");
    let e = s.apply(Incoming::StreamDone);
    let flow = e.thought_flow.unwrap();
    assert!(flow.starts_with("flowchart TD\n    U[\"User: list\"]\n    U --> T0\n"));
    assert_eq!(s.thought_flow, flow);
    assert!(s.show_thought_flow);
}

#[test]
fn models_list_picks_first_loaded() {
    let mut s = ChatSession::new();
    s.apply(Incoming::ModelsList(vec![
        ModelInfo { id: "a".to_string(), loaded: false },
        ModelInfo { id: "b".to_string(), loaded: true },
        ModelInfo { id: "c".to_string(), loaded: true },
    ]));
    assert_eq!(s.model, "b");
    assert_eq!(s.available.len(), 3);
    s.apply(Incoming::ModelsList(vec![ModelInfo { id: "c".to_string(), loaded: true }]));
    assert_eq!(s.model, "b");
}

#[test]
fn loading_models() {
    let mut s = ChatSession::new();
    assert!(s.request_load("m1"));
    assert!(!s.request_load("m2"));
    assert_eq!(s.loading_model.as_deref(), Some("m1"));
    let e = s.apply(Incoming::ModelLoaded(Ok("m1".to_string())));
    assert!(e.refresh_models);
    assert_eq!(s.model, "m1");
    assert!(s.loading_model.is_none());
    s.request_load("m2");
    let e2 = s.apply(Incoming::ModelLoaded(Err("no memory".to_string())));
    assert!(!e2.refresh_models);
    assert_eq!(s.model, "m1");
    assert_eq!(s.messages.last().unwrap().content, "[Erreur chargement] no memory");
}

#[test]
fn cut_short_answer_detected() {
    let mut s = session_with_model();
    s.begin_turn("hi").unwrap();
    s.apply(Incoming::ReasoningToken("long thoughts".to_string()));
    assert!(!s.reply_cut_short());
    s.apply(Incoming::StreamDone);
    assert!(s.reply_cut_short());
    assert_eq!(s.last_user_prompt(), "hi");
    assert_eq!(s.last_user_chars(), 2);
}

#[test]
fn clear_forgets_messages() {
    let mut s = session_with_model();
    s.begin_turn("hi").unwrap();
    s.set_allocation(10);
    s.clear();
    assert!(s.messages.is_empty());
    assert!(!s.waiting);
    assert!(s.pending_stats.is_none());
    assert_eq!(s.model, "qwen");
}

#[test]
fn only_the_last_answer_counts_as_cut_short() {
    let mut s = session_with_model();
    s.begin_turn("first").unwrap();
    s.apply(Incoming::ReasoningToken("thinking".to_string()));
    s.apply(Incoming::StreamDone);
    assert_eq!(s.cut_short_answer(), Some(1));
    s.begin_turn("second").unwrap();
    assert!(!s.reply_cut_short());
    s.on_token("a real answer");
    s.apply(Incoming::StreamDone);
    assert!(!s.reply_cut_short());
    assert_eq!(s.cut_short_answer(), None);
}
