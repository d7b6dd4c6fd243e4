use smart_tavern::log_format::{LogRecordRef, LogRecordSummary, LogSourceRef};
use smart_tavern::log_listing::{listing_indices, page_log_records};

fn record(id: &str, created_at: &str) -> LogRecordSummary {
    LogRecordSummary {
        record_ref: LogRecordRef {
            record_kind: "event".to_string(),
            source: LogSourceRef { source_kind: "global".to_string(), world_id: None },
            id: id.to_string(),
        },
        created_at: created_at.to_string(),
        title: id.to_string(),
        summary: None,
        status: None,
        level: Some("info".to_string()),
        mode: None,
        provider: None,
        model: None,
        world_id: None,
        session_id: None,
        scene_turn_id: None,
        trace_id: None,
        request_id: None,
        character_id: None,
        llm_node: None,
        latency_ms: None,
        token_usage: None,
        stream_chunk_count: None,
        step_count: None,
        protected: None,
    }
}

fn sample() -> Vec<LogRecordSummary> {
    vec![
        record("a", "2024-01-01T00:00:00Z"),
        record("b", "2024-03-01T00:00:00Z"),
        record("c", "2024-02-01T00:00:00Z"),
        record("d", "2024-03-01T00:00:00Z"),
        record("e", "2023-12-31T23:59:59Z"),
    ]
}

fn ids(page: &[LogRecordSummary]) -> Vec<String> {
    page.iter().map(|r| r.record_ref.id.clone()).collect()
}

#[test]
fn listing_is_newest_first_and_keeps_ties_in_order() {
    let records = sample();
    assert_eq!(listing_indices(&records), vec![1, 3, 2, 0, 4]);
}

#[test]
fn first_page_holds_the_newest_records() {
    let page = page_log_records(sample(), 0, 2);
    assert_eq!(ids(&page.records), vec!["b", "d"]);
    assert_eq!(page.offset, 0);
    assert_eq!(page.limit, 2);
    assert!(page.has_more);
    assert_eq!(page.total_count, 5);
}

#[test]
fn consecutive_pages_continue_the_listing() {
    let first = page_log_records(sample(), 0, 2);
    let second = page_log_records(sample(), 2, 2);
    let both = page_log_records(sample(), 0, 4);
    let mut joined = ids(&first.records);
    joined.extend(ids(&second.records));
    assert_eq!(joined, ids(&both.records));
    assert_eq!(ids(&second.records), vec!["c", "a"]);
}

#[test]
fn last_page_is_short_and_has_no_more() {
    let page = page_log_records(sample(), 4, 2);
    assert_eq!(ids(&page.records), vec!["e"]);
    assert!(!page.has_more);
    let exact = page_log_records(sample(), 3, 2);
    assert_eq!(ids(&exact.records), vec!["a", "e"]);
    assert!(!exact.has_more);
}

#[test]
fn page_past_the_end_is_empty() {
    let page = page_log_records(sample(), 9, 3);
    assert!(page.records.is_empty());
    assert!(!page.has_more);
    assert_eq!(page.total_count, 5);
}

#[test]
fn empty_listing_has_one_empty_page() {
    let page = page_log_records(Vec::new(), 0, 50);
    assert!(page.records.is_empty());
    assert!(!page.has_more);
    assert_eq!(page.total_count, 0);
}
