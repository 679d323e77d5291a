use tourist_core::bus::AsyncResultBus;
use tourist_core::models::Analytics;
use tourist_core::models::ConversationEntry;
use tourist_core::models::PendingOperation;
use tourist_core::orchestrator::DebounceState;
use tourist_core::orchestrator::Orchestrator;
use tourist_core::time::Timestamp;

fn now() -> Timestamp {
    Timestamp {
        year: 2024,
        month: 1,
        day: 5,
        hour: 7,
        minute: 8,
        second: 9,
        offset_seconds: 0,
    }
}

fn suggestion(prompt: &str, response: &str) -> ConversationEntry {
    ConversationEntry {
        id: 1,
        timestamp: now(),
        prompt: String::from(prompt),
        response: String::from(response),
        model_used: String::from("m"),
        response_time_ms: 1,
        file_context: None,
    }
}

#[test]
fn debounce_fires_on_every_fifth_distinct_input() {
    let mut d = DebounceState::new();
    let mut fired = 0;
    for text in ["a", "ab", "abc", "abcd"] {
        if d.observe(&String::from(text)) {
            fired += 1;
        }
    }
    assert_eq!(fired, 0);
    assert!(d.observe(&String::from("abcde")));
    assert_eq!(d.counter, 5);
}

#[test]
fn debounce_ignores_repeated_input() {
    let mut d = DebounceState::new();
    let same = String::from("same");
    assert!(!d.observe(&same));
    assert!(!d.observe(&same));
    assert!(!d.observe(&same));
    assert_eq!(d.counter, 1);
}

#[test]
fn debounced_update_requires_a_real_query() {
    let mut o = Orchestrator::new(String::from("m"));
    for text in ["a", "b", "c", "d", "e"] {
        o.input_text = String::from(text);
        assert!(!o.debounced_rag_update());
    }
    // The tenth distinct value lands on an input long enough to query.
    for text in ["f1", "f2", "f3", "f4"] {
        o.input_text = String::from(text);
        assert!(!o.debounced_rag_update());
    }
    o.input_text = String::from("a much longer query");
    assert!(o.debounced_rag_update());
    assert_eq!(o.debounce.counter, 10);
}

#[test]
fn prepare_send_is_a_no_op_while_busy_or_blank() {
    let mut o = Orchestrator::new(String::from("m"));
    assert!(o.prepare_send(now()).is_none());
    o.input_text = String::from("   ");
    assert!(o.prepare_send(now()).is_none());
    o.input_text = String::from("hello");
    o.is_loading = true;
    assert!(o.prepare_send(now()).is_none());
    assert_eq!(o.input_text, "hello");
}

#[test]
fn prepare_send_queues_the_user_message_and_clears_input() {
    let mut o = Orchestrator::new(String::from("m"));
    o.input_text = String::from("hello");
    let prompt = o.prepare_send(now()).expect("must send");
    assert_eq!(prompt, "hello");
    assert!(o.is_loading);
    assert_eq!(o.input_text, "");
    assert_eq!(o.chat_messages.len(), 1);
    assert_eq!(o.chat_messages[0].content, "hello");
    assert!(o.chat_messages[0].is_user);
    assert!(o.chat_messages[0].model_used.is_none());
}

#[test]
fn final_prompt_carries_file_context_and_suggestions() {
    let mut o = Orchestrator::new(String::from("m"));
    o.input_text = String::from("hi");
    o.file_content = String::from("FC");
    assert_eq!(o.build_final_prompt(), "File context:\nFC\n\nUser message: hi");
    o.rag_suggestions = vec![suggestion("q1", "a1"), suggestion("q2", "a2")];
    let want = "Previous context:\nQ: q1\nA: a1\n\nPrevious context:\nQ: q2\nA: a2\n\n\nCurrent question: File context:\nFC\n\nUser message: hi";
    assert_eq!(o.build_final_prompt(), want);
    o.enable_rag = false;
    assert_eq!(o.build_final_prompt(), "File context:\nFC\n\nUser message: hi");
}

#[test]
fn applying_a_response_appends_an_assistant_message() {
    let mut o = Orchestrator::new(String::from("m"));
    o.is_loading = true;
    o.apply_operation(PendingOperation::Response(String::from("answer")), now(), Some(7));
    assert!(o.is_loading, "only the terminal marker clears the busy flag");
    assert_eq!(o.chat_messages.len(), 1);
    let m = &o.chat_messages[0];
    assert_eq!(m.content, "answer");
    assert!(!m.is_user);
    assert_eq!(m.model_used.as_deref(), Some("m"));
    assert_eq!(m.response_time, Some(7));
}

#[test]
fn applying_an_error_reports_and_clears_the_busy_flag() {
    let mut o = Orchestrator::new(String::from("m"));
    o.is_loading = true;
    o.apply_operation(PendingOperation::Error(String::from("boom")), now(), None);
    assert!(!o.is_loading);
    assert_eq!(o.chat_messages.len(), 1);
    let m = &o.chat_messages[0];
    assert_eq!(m.content, "Error: boom");
    assert_eq!(m.model_used.as_deref(), Some("Error"));
    assert!(m.response_time.is_none());
}

#[test]
fn applying_snapshots_and_suggestions_replaces_them() {
    let mut o = Orchestrator::new(String::from("m"));
    let mut snap = Analytics::empty();
    snap.total_requests = 9;
    o.apply_operation(PendingOperation::Analytics(snap), now(), None);
    assert_eq!(o.analytics.total_requests, 9);
    o.apply_operation(
        PendingOperation::RagSuggestions(vec![suggestion("q", "a")]),
        now(),
        None,
    );
    assert_eq!(o.rag_suggestions.len(), 1);
    o.is_loading = true;
    o.apply_operation(PendingOperation::LoadingComplete, now(), None);
    assert!(!o.is_loading);
}

#[test]
fn drain_applies_everything_in_order_and_empties_the_bus() {
    let mut o = Orchestrator::new(String::from("m"));
    o.is_loading = true;
    let mut bus = AsyncResultBus::new();
    bus.post(PendingOperation::Response(String::from("first")));
    bus.post(PendingOperation::LoadingComplete);
    o.drain_and_apply(&mut bus, now(), Some(3));
    assert_eq!(bus.len(), 0);
    assert!(!o.is_loading);
    assert_eq!(o.chat_messages.len(), 1);
    assert_eq!(o.chat_messages[0].content, "first");
    o.drain_and_apply(&mut bus, now(), None);
    assert_eq!(o.chat_messages.len(), 1);
}

#[test]
fn transcript_export_renders_each_line() {
    let mut o = Orchestrator::new(String::from("m"));
    o.input_text = String::from("hi");
    o.prepare_send(now()).expect("send");
    o.apply_operation(PendingOperation::Response(String::from("yo")), now(), None);
    let want = "[2024-01-05 07:08:09] User: hi\n[2024-01-05 07:08:09] Assistant: yo\n";
    assert_eq!(o.export_transcript(), want);
}

#[test]
fn clear_chat_empties_the_transcript_only() {
    let mut o = Orchestrator::new(String::from("m"));
    o.input_text = String::from("hi");
    o.prepare_send(now()).expect("send");
    assert_eq!(o.chat_messages.len(), 1);
    o.clear_chat();
    assert!(o.chat_messages.is_empty());
    assert!(o.is_loading, "clearing the chat does not cancel the request");
}
