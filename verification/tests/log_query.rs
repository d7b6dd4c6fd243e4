use smart_tavern::log_format::LogRecordFilter;
use smart_tavern::log_query::{event_where, llm_where, trace_where};

#[test]
fn an_empty_filter_has_no_clause() {
    let f = LogRecordFilter::default();
    let w = llm_where(&f);
    assert_eq!(w.sql, "");
    assert!(w.binds.is_empty());
    assert_eq!(trace_where(&f).sql, "");
}

#[test]
fn model_call_conditions_come_in_order() {
    let mut f = LogRecordFilter::default();
    f.world_id = Some(" w1 ".to_string());
    f.provider = Some("openai".to_string());
    f.status = Some("   ".to_string());
    f.since = Some("2024-01-01".to_string());
    let w = llm_where(&f);
    assert_eq!(
        w.sql,
        " WHERE l.world_id = ? AND l.created_at >= ? AND l.provider = ?"
    );
    assert_eq!(w.binds, vec!["w1", "2024-01-01", "openai"]);
}

#[test]
fn search_binds_each_column() {
    let mut f = LogRecordFilter::default();
    f.search = Some("  boom ".to_string());
    let w = event_where(&f);
    assert_eq!(
        w.sql,
        " WHERE  (e.event_id LIKE ? OR e.event_type LIKE ? OR e.message LIKE ? OR e.source_module LIKE ?)"
    );
    assert_eq!(w.binds, vec!["%boom%"; 4]);
    f.level = Some("error".to_string());
    let w = event_where(&f);
    assert!(w.sql.starts_with(" WHERE e.level = ? AND  (e.event_id LIKE ?"));
    assert_eq!(w.binds.len(), 5);
}

#[test]
fn traces_filter_on_runtime_status() {
    let mut f = LogRecordFilter::default();
    f.status = Some("completed".to_string());
    f.until = Some("2024-12-31".to_string());
    f.search = Some("turn".to_string());
    let w = trace_where(&f);
    assert_eq!(
        w.sql,
        " WHERE t.runtime_turn_status = ? AND t.created_at <= ? AND  (t.trace_id LIKE ? OR t.scene_turn_id LIKE ? OR t.summary LIKE ?)"
    );
    assert_eq!(w.binds, vec!["completed", "2024-12-31", "%turn%", "%turn%", "%turn%"]);
}
