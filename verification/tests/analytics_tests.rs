use tourist_core::analytics::AnalyticsEngine;
use tourist_core::analytics::compute_snapshot;
use tourist_core::models::Analytics;
use tourist_core::models::ConversationEntry;
use tourist_core::store::RagSystem;
use tourist_core::time::Timestamp;

fn ts(day: u8, hour: u8) -> Timestamp {
    Timestamp {
        year: 2024,
        month: 1,
        day,
        hour,
        minute: 0,
        second: 0,
        offset_seconds: 0,
    }
}

fn entry(model: &str, ms: i64, prompt: &str, response: &str, day: u8) -> ConversationEntry {
    ConversationEntry {
        id: 0,
        timestamp: ts(day, 6),
        prompt: String::from(prompt),
        response: String::from(response),
        model_used: String::from(model),
        response_time_ms: ms,
        file_context: None,
    }
}

#[test]
fn empty_log_yields_the_all_zero_snapshot() {
    let entries: Vec<ConversationEntry> = vec![];
    let snap = compute_snapshot(&entries, ts(5, 12));
    assert_eq!(snap.total_requests, 0);
    assert_eq!(snap.avg_response_time_ms, 0);
    assert_eq!(snap.response_time_total_ms, 0);
    assert_eq!(snap.most_used_model, "");
    assert_eq!(snap.total_tokens_approx, 0);
    assert_eq!(snap.sessions_today, 0);
    let f = snap.response_time_total_ms as f64;
    assert_eq!(f, 0.0);
}

#[test]
fn snapshot_counts_averages_and_estimates() {
    let entries = vec![
        entry("m1", 100, "abcd", "efgh", 5),
        entry("m2", 101, "ij", "kl", 5),
        entry("m1", 102, "mnop", "q", 6),
    ];
    let snap = compute_snapshot(&entries, ts(5, 23));
    assert_eq!(snap.total_requests, 3);
    assert_eq!(snap.response_time_total_ms, 303);
    assert_eq!(snap.avg_response_time_ms, 101);
    // 8 + 4 + 5 characters, divided by four, truncated.
    assert_eq!(snap.total_tokens_approx, 4);
    assert_eq!(snap.most_used_model, "m1");
    assert_eq!(snap.sessions_today, 2);
    assert_eq!(snap.cache_hits, 0);
    assert_eq!(snap.cache_misses, 0);
}

#[test]
fn average_truncates_toward_zero() {
    let entries = vec![entry("m", 3, "a", "b", 5), entry("m", 4, "c", "d", 5)];
    let snap = compute_snapshot(&entries, ts(1, 0));
    assert_eq!(snap.response_time_total_ms, 7);
    assert_eq!(snap.avg_response_time_ms, 3);
    assert_eq!(snap.sessions_today, 0);
}

#[test]
fn default_snapshot_shape() {
    let snap = Analytics::empty();
    assert_eq!(snap.total_requests, 0);
    assert_eq!(snap.most_used_model, "");
}

#[test]
fn engine_reads_the_real_log() {
    let conn = rusqlite::Connection::open("/tmp/conversations.db").expect("open db");
    conn.execute("DROP TABLE IF EXISTS conversations", ()).expect("drop");
    conn.execute("DROP TABLE IF EXISTS embeddings_cache", ()).expect("drop");
    drop(conn);
    let store = RagSystem::new(String::from("/tmp")).expect("store");
    store.save_conversation(&entry("m1", 100, "abcd", "efgh", 5)).expect("append");
    store.save_conversation(&entry("m1", 102, "ij", "kl", 6)).expect("append");
    store.save_conversation(&entry("m2", 104, "x", "y", 7)).expect("append");
    let engine = AnalyticsEngine::new(String::from("/tmp/conversations.db"));
    let snap = engine.get_analytics().expect("analytics");
    assert_eq!(snap.total_requests, 3);
    assert_eq!(snap.response_time_total_ms, 306);
    assert_eq!(snap.avg_response_time_ms, 102);
    assert_eq!(snap.most_used_model, "m1");
    // The log's entries predate the current day by years.
    assert_eq!(snap.sessions_today, 0);
    assert_eq!(snap.total_tokens_approx, (8 + 4 + 2) / 4);
}

#[test]
fn engine_without_a_log_reports_an_error() {
    let engine = AnalyticsEngine::new(String::from("/tmp/no/such/dir/conversations.db"));
    assert!(engine.get_analytics().is_err());
}

#[test]
fn latency_total_saturates_instead_of_wrapping() {
    let huge = i64::MAX;
    let entries = vec![
        entry("m", huge, "a", "b", 5),
        entry("m", huge, "c", "d", 5),
        entry("m", huge, "e", "f", 5),
    ];
    let snap = compute_snapshot(&entries, ts(1, 0));
    assert_eq!(snap.response_time_total_ms, u64::MAX);
    assert_eq!(snap.avg_response_time_ms, u64::MAX / 3);
}
