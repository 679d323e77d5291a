use tourist_core::models::ConversationEntry;
use tourist_core::store::RagSystem;
use tourist_core::store::mirror_file_content;
use tourist_core::time::Timestamp;

/// Clears the backing location so each test starts from an empty log.
fn fresh_store() -> RagSystem {
    let conn = rusqlite::Connection::open("/tmp/conversations.db").expect("open db");
    conn.execute("DROP TABLE IF EXISTS conversations", ()).expect("drop");
    conn.execute("DROP TABLE IF EXISTS embeddings_cache", ()).expect("drop");
    drop(conn);
    RagSystem::new(String::from("/tmp")).expect("store must open")
}

fn ts(second: u8) -> Timestamp {
    Timestamp {
        year: 2024,
        month: 1,
        day: 5,
        hour: 7,
        minute: 8,
        second,
        offset_seconds: 0,
    }
}

fn entry(prompt: &str, response: &str, second: u8) -> ConversationEntry {
    ConversationEntry {
        id: 0,
        timestamp: ts(second),
        prompt: String::from(prompt),
        response: String::from(response),
        model_used: String::from("m1"),
        response_time_ms: 42,
        file_context: None,
    }
}

#[test]
fn append_then_query_recent_returns_all_newest_first() {
    let store = fresh_store();
    store.save_conversation(&entry("p1", "r1", 1)).expect("append");
    store.save_conversation(&entry("p2", "r2", 3)).expect("append");
    store.save_conversation(&entry("p3", "r3", 2)).expect("append");
    let got = store.query_recent(10).expect("query");
    assert_eq!(got.len(), 3);
    assert_eq!(got[0].prompt, "p2");
    assert_eq!(got[1].prompt, "p3");
    assert_eq!(got[2].prompt, "p1");
    assert!(got[0].timestamp.key() >= got[1].timestamp.key());
    assert!(got[1].timestamp.key() >= got[2].timestamp.key());
}

#[test]
fn query_recent_respects_the_limit() {
    let store = fresh_store();
    for s in 1..=4 {
        store.save_conversation(&entry("p", "r", s)).expect("append");
    }
    let got = store.query_recent(2).expect("query");
    assert_eq!(got.len(), 2);
    assert_eq!(got[0].timestamp.second, 4);
    assert_eq!(got[1].timestamp.second, 3);
}

#[test]
fn append_assigns_identifiers_and_preserves_fields() {
    let store = fresh_store();
    let stored = store.save_conversation(&entry("ask", "ans", 9)).expect("append");
    assert!(stored.id > 0);
    assert_eq!(stored.prompt, "ask");
    assert_eq!(stored.response, "ans");
    assert_eq!(stored.model_used, "m1");
    assert_eq!(stored.response_time_ms, 42);
    assert_eq!(stored.timestamp, ts(9));
    assert!(stored.file_context.is_none());
}

#[test]
fn append_is_durable_across_restarts() {
    let store = fresh_store();
    store.save_conversation(&entry("persist me", "ok", 5)).expect("append");
    drop(store);
    let reopened = RagSystem::new(String::from("/tmp")).expect("reopen");
    let got = reopened.query_recent(10).expect("query");
    assert_eq!(got.len(), 1);
    assert_eq!(got[0].prompt, "persist me");
    assert_eq!(got[0].response, "ok");
    assert_eq!(got[0].timestamp, ts(5));
}

#[test]
fn file_context_round_trips() {
    let store = fresh_store();
    let mut with_ctx = entry("p", "r", 1);
    with_ctx.file_context = Some(String::from("notes.txt"));
    store.save_conversation(&with_ctx).expect("append");
    store.save_conversation(&entry("q", "s", 2)).expect("append");
    let got = store.query_recent(10).expect("query");
    assert_eq!(got.len(), 2);
    assert!(got[0].file_context.is_none());
    assert_eq!(got[1].file_context.as_deref(), Some("notes.txt"));
}

#[test]
fn empty_keyword_query_is_empty_not_an_error() {
    let store = fresh_store();
    let none: Vec<String> = vec![];
    let got = store.query_matching(&none, 7).expect("must not error");
    assert!(got.is_empty());
}

#[test]
fn blank_query_finds_nothing_without_error() {
    let store = fresh_store();
    store.save_conversation(&entry("hello world", "hi", 1)).expect("append");
    let got = store.find_similar_responses("   ", 5).expect("must not error");
    assert!(got.is_empty());
}

#[test]
fn search_matches_on_shared_tokens_only() {
    let store = fresh_store();
    store.save_conversation(&entry("hello world", "greeting", 1)).expect("append");
    store.save_conversation(&entry("goodbye moon", "farewell", 2)).expect("append");
    let got = store.find_similar_responses("hello there friend", 10).expect("search");
    assert_eq!(got.len(), 1);
    assert_eq!(got[0].prompt, "hello world");
}

#[test]
fn search_matches_responses_too_and_caps_results() {
    let store = fresh_store();
    store.save_conversation(&entry("a", "tide tables", 1)).expect("append");
    store.save_conversation(&entry("tide charts", "b", 2)).expect("append");
    store.save_conversation(&entry("c", "d", 3)).expect("append");
    let all = store.find_similar_responses("tide", 10).expect("search");
    assert_eq!(all.len(), 2);
    assert_eq!(all[0].prompt, "tide charts");
    assert_eq!(all[1].prompt, "a");
    let capped = store.find_similar_responses("tide", 1).expect("search");
    assert_eq!(capped.len(), 1);
    assert_eq!(capped[0].prompt, "tide charts");
}

#[test]
fn rag_context_identity_without_suggestions() {
    let store = fresh_store();
    let none: Vec<ConversationEntry> = vec![];
    assert_eq!(store.create_rag_context(&none, "just this"), "just this");
}

#[test]
fn rag_context_renders_two_suggestions_in_order() {
    let store = fresh_store();
    let suggestions = vec![entry("q1", "a1", 1), entry("q2", "a2", 2), entry("q3", "a3", 3)];
    let got = store.create_rag_context(&suggestions, "now");
    let want = "Previous context:\nQ: q1\nA: a1\n\nPrevious context:\nQ: q2\nA: a2\n\n\nCurrent question: now";
    assert_eq!(got, want);
    let one = store.create_rag_context(&suggestions[..1], "now");
    assert_eq!(one, "Previous context:\nQ: q1\nA: a1\n\n\nCurrent question: now");
}

#[test]
fn mirror_artifact_name_and_content() {
    let store = fresh_store();
    let e = ConversationEntry {
        id: 1,
        timestamp: Timestamp {
            year: 2024,
            month: 1,
            day: 5,
            hour: 7,
            minute: 8,
            second: 9,
            offset_seconds: 0,
        },
        prompt: String::from("ask"),
        response: String::from("ans"),
        model_used: String::from("m1"),
        response_time_ms: 1234,
        file_context: None,
    };
    assert_eq!(store.mirror_file_name(&e), "/tmp/response_20240105_070809.txt");
    let want = "Timestamp: 2024-01-05 07:08:09\nModel: m1\nResponse Time: 1234ms\n\nPrompt:\nask\n\nResponse:\nans\n";
    assert_eq!(mirror_file_content(&e), want);
}

#[test]
fn unreachable_backing_location_is_an_error() {
    let r = RagSystem::new(String::from("/tmp/no/such/directory/here"));
    assert!(r.is_err());
    let e = r.err().unwrap();
    assert!(!e.0.is_empty());
}

#[test]
fn corrupt_stored_timestamp_fails_the_read() {
    let store = fresh_store();
    store.save_conversation(&entry("p", "r", 1)).expect("append");
    let conn = rusqlite::Connection::open("/tmp/conversations.db").expect("open db");
    conn.execute(
        "INSERT INTO conversations (timestamp, prompt, response, model_used, response_time_ms, file_context)
         VALUES ('not a timestamp', 'p', 'r', 'm', 1, '')",
        (),
    )
    .expect("raw insert");
    drop(conn);
    let got = store.query_recent(10);
    assert!(got.is_err());
}

#[test]
fn entries_on_the_same_instant_are_all_returned() {
    let store = fresh_store();
    store.save_conversation(&entry("p1", "r1", 7)).expect("append");
    store.save_conversation(&entry("p2", "r2", 7)).expect("append");
    let got = store.query_recent(10).expect("query");
    assert_eq!(got.len(), 2);
    assert_eq!(got[0].timestamp, got[1].timestamp);
}
