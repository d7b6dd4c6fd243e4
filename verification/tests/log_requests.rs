use smart_tavern::log_format::{LogRecordFilter, LogRecordRef, LogSourceRef};
use smart_tavern::log_requests::{
    check_cleanup_confirmation, check_retention_scope, check_world_log_id, cleanup_preview, cleanup_window,
    detail_route, export_filename, export_format, export_format_name, keep_world_entry, latest_timestamp_of,
    log_sources, pool_record_kinds, protection_not_found, protection_result, protection_table, protection_value,
    source_route, storage_is_stale, storage_summary, stored_protection, stream_chunk_fetch_limit, stream_chunk_page,
    ExportFormat, LogCleanupPreviewInput, LogDetailRoute, LogScopeStorageSummary, LogSources, LogStoreRoute,
    PoolRecordKinds, ProtectedTable, SetLogProtectionInput, StreamChunkDetail, GLOBAL_LOG_LIMIT_BYTES,
};

fn filter(scope: Option<&str>, kind: Option<&str>, world: Option<&str>) -> LogRecordFilter {
    LogRecordFilter {
        source_scope: scope.map(|s| s.to_string()),
        record_kind: kind.map(|s| s.to_string()),
        world_id: world.map(|s| s.to_string()),
        ..Default::default()
    }
}

#[test]
fn all_scope_reads_every_store() {
    assert_eq!(log_sources(&filter(None, None, None)), LogSources { global: true, world: true, trace: true });
    assert_eq!(log_sources(&filter(Some("all"), None, None)), LogSources { global: true, world: true, trace: true });
}

#[test]
fn naming_a_world_skips_the_global_store() {
    assert_eq!(
        log_sources(&filter(Some("all"), None, Some("w1"))),
        LogSources { global: false, world: true, trace: true }
    );
    assert_eq!(
        log_sources(&filter(Some("global"), None, Some("w1"))),
        LogSources { global: false, world: false, trace: false }
    );
}

#[test]
fn single_scopes_read_one_kind_of_store() {
    assert_eq!(log_sources(&filter(Some("global"), None, None)), LogSources { global: true, world: false, trace: false });
    assert_eq!(log_sources(&filter(Some("world"), None, None)), LogSources { global: false, world: true, trace: false });
    assert_eq!(log_sources(&filter(Some("trace"), None, None)), LogSources { global: false, world: false, trace: true });
    assert_eq!(log_sources(&filter(Some("other"), None, None)), LogSources { global: false, world: false, trace: false });
}

#[test]
fn record_kinds_select_tables() {
    assert_eq!(pool_record_kinds(&filter(None, None, None)), PoolRecordKinds { llm: true, event: true });
    assert_eq!(pool_record_kinds(&filter(None, Some("all"), None)), PoolRecordKinds { llm: true, event: true });
    assert_eq!(pool_record_kinds(&filter(None, Some("llm"), None)), PoolRecordKinds { llm: true, event: false });
    assert_eq!(pool_record_kinds(&filter(None, Some("event"), None)), PoolRecordKinds { llm: false, event: true });
    assert_eq!(pool_record_kinds(&filter(None, Some("trace"), None)), PoolRecordKinds { llm: false, event: false });
}

#[test]
fn world_log_ids_must_be_path_components() {
    assert!(check_world_log_id("w-1").is_ok());
    assert_eq!(
        check_world_log_id("../x"),
        Err("Invalid world_id '../x': Invalid path component: ../x".to_string())
    );
    assert!(keep_world_entry("w-1", true, true));
    assert!(!keep_world_entry("w-1", false, true));
    assert!(!keep_world_entry("..", true, true));
    assert!(!keep_world_entry("w-1", true, false));
}

#[test]
fn sources_route_to_their_store() {
    let global = LogSourceRef { source_kind: "global".to_string(), world_id: None };
    assert_eq!(source_route(&global), Ok(LogStoreRoute::Global));
    let trace = LogSourceRef { source_kind: "trace".to_string(), world_id: Some("w".to_string()) };
    assert_eq!(source_route(&trace), Ok(LogStoreRoute::World("w".to_string())));
    let world = LogSourceRef { source_kind: "world".to_string(), world_id: None };
    assert_eq!(source_route(&world), Err("World log source requires world_id".to_string()));
    let other = LogSourceRef { source_kind: "disk".to_string(), world_id: None };
    assert_eq!(source_route(&other), Err("Unsupported log source: disk".to_string()));
}

fn record_ref(kind: &str, world: Option<&str>) -> LogRecordRef {
    LogRecordRef {
        record_kind: kind.to_string(),
        source: LogSourceRef { source_kind: "world".to_string(), world_id: world.map(|s| s.to_string()) },
        id: "r1".to_string(),
    }
}

#[test]
fn details_route_by_kind() {
    assert_eq!(detail_route(&record_ref("llm", None)), Ok(LogDetailRoute::Llm));
    assert_eq!(detail_route(&record_ref("event", None)), Ok(LogDetailRoute::Event));
    assert_eq!(detail_route(&record_ref("trace", Some("w"))), Ok(LogDetailRoute::Trace("w".to_string())));
    assert_eq!(detail_route(&record_ref("trace", None)), Err("Trace detail requires world_id".to_string()));
    assert_eq!(detail_route(&record_ref("chunk", None)), Err("Unsupported log record kind: chunk".to_string()));
}

#[test]
fn retention_runs_on_the_global_store_only() {
    assert!(check_retention_scope(&None).is_ok());
    assert!(check_retention_scope(&Some("global".to_string())).is_ok());
    assert_eq!(
        check_retention_scope(&Some("world".to_string())),
        Err("Only global log retention can be run automatically".to_string())
    );
}

#[test]
fn cleanup_confirmation_needs_a_plan() {
    assert_eq!(check_cleanup_confirmation("  ", &None), Err("Cleanup plan_id must not be empty".to_string()));
    assert!(check_cleanup_confirmation("plan-1", &None).is_ok());
    assert_eq!(
        check_cleanup_confirmation("plan-1", &Some("world".to_string())),
        Err("Only global log retention can be run automatically".to_string())
    );
}

#[test]
fn cleanup_window_defaults_and_clamps() {
    let w = cleanup_window(None).unwrap();
    assert_eq!(w.scope, "global");
    assert_eq!(w.older_than_days, 30);
    let w = cleanup_window(Some(LogCleanupPreviewInput { scope: None, older_than_days: Some(0) })).unwrap();
    assert_eq!(w.older_than_days, 1);
    let w = cleanup_window(Some(LogCleanupPreviewInput { scope: None, older_than_days: Some(99999) })).unwrap();
    assert_eq!(w.older_than_days, 3650);
    let w = cleanup_window(Some(LogCleanupPreviewInput { scope: None, older_than_days: None })).unwrap();
    assert_eq!(w.older_than_days, 30);
    assert_eq!(
        cleanup_window(Some(LogCleanupPreviewInput { scope: Some("world".to_string()), older_than_days: Some(7) }))
            .err(),
        Some("Only global log cleanup preview is supported in MVP".to_string())
    );
}

#[test]
fn cleanup_preview_counts_no_protected_traces() {
    let w = cleanup_window(None).unwrap();
    let p = cleanup_preview("plan".to_string(), w, 3, 4, 5);
    assert_eq!(p.plan_id, "plan");
    assert_eq!(p.scope, "global");
    assert_eq!(p.older_than_days, 30);
    assert_eq!((p.llm_logs_to_delete, p.event_logs_to_delete, p.stream_chunks_affected), (3, 4, 5));
    assert_eq!(p.protected_trace_records, 0);
    assert_eq!(p.notes.len(), 2);
    assert_eq!(p.notes[0], "仅清理全局运行 Logs，不自动删除 World 内 Agent Trace");
}

#[test]
fn protection_routes_by_kind() {
    assert_eq!(protection_table("llm"), Ok(ProtectedTable::LlmCalls));
    assert_eq!(protection_table("event"), Ok(ProtectedTable::AppEvents));
    assert_eq!(protection_table("trace"), Err("Unsupported log kind for protection: trace".to_string()));
    assert_eq!(protection_value(true), 1);
    assert_eq!(protection_value(false), 0);
    assert!(stored_protection(1));
    assert!(stored_protection(-3));
    assert!(!stored_protection(0));
    assert_eq!(protection_not_found(ProtectedTable::LlmCalls, "r9"), "LLM log not found: r9");
    assert_eq!(protection_not_found(ProtectedTable::AppEvents, "e9"), "Event log not found: e9");
    let r = protection_result(SetLogProtectionInput {
        record_kind: "llm".to_string(),
        record_id: "r1".to_string(),
        protected: true,
    });
    assert_eq!((r.record_kind.as_str(), r.record_id.as_str(), r.protected), ("llm", "r1", true));
}

#[test]
fn exports_know_three_formats() {
    assert_eq!(export_format_name(&None), "json");
    assert_eq!(export_format_name(&Some("csv".to_string())), "csv");
    assert_eq!(export_format("jsonl"), Ok(ExportFormat::Jsonl));
    assert_eq!(export_format("csv"), Ok(ExportFormat::Csv));
    assert_eq!(export_format("json"), Ok(ExportFormat::Json));
    assert_eq!(export_format("xml"), Err("Unsupported export format: xml".to_string()));
    assert_eq!(export_filename("20240101-120000", "csv"), "rst-logs-20240101-120000.csv");
}

fn chunk(i: i64) -> StreamChunkDetail {
    StreamChunkDetail {
        chunk_id: format!("c{}", i),
        request_id: "req".to_string(),
        chunk_index: i,
        raw_chunk: "data".to_string(),
        received_at: "t".to_string(),
    }
}

#[test]
fn stream_chunk_pages_read_one_row_ahead() {
    assert_eq!(stream_chunk_fetch_limit(50), 51);
    let page = stream_chunk_page(vec![chunk(0), chunk(1), chunk(2)], 0, 2);
    assert!(page.has_more);
    assert_eq!(page.chunks.iter().map(|c| c.chunk_index).collect::<Vec<_>>(), vec![0, 1]);
    let page = stream_chunk_page(vec![chunk(5), chunk(6)], 5, 2);
    assert!(!page.has_more);
    assert_eq!(page.chunks.len(), 2);
    assert_eq!(page.offset, 5);
}

#[test]
fn latest_timestamp_is_the_greatest() {
    assert_eq!(latest_timestamp_of(&vec![]), None);
    let c = vec!["2024-01-02".to_string(), "2024-03-01".to_string(), "2024-02-01".to_string()];
    assert_eq!(latest_timestamp_of(&c), Some("2024-03-01".to_string()));
}

#[test]
fn stale_worlds_are_large_and_old() {
    let big = GLOBAL_LOG_LIMIT_BYTES / 10 + 1;
    assert!(storage_is_stale("world", big, Some((2_592_001, 0))));
    assert!(storage_is_stale("world", big, Some((2_592_000, 1))));
    assert!(!storage_is_stale("world", big, Some((2_592_000, 0))));
    assert!(!storage_is_stale("world", GLOBAL_LOG_LIMIT_BYTES / 10, Some((9_999_999, 0))));
    assert!(!storage_is_stale("global", big, Some((9_999_999, 0))));
    assert!(!storage_is_stale("world", big, None));
}

fn store(id: &str, size: u64) -> LogScopeStorageSummary {
    LogScopeStorageSummary {
        scope: "world".to_string(),
        world_id: Some(id.to_string()),
        size_bytes: size,
        size_limit_bytes: None,
        llm_count: 0,
        event_count: 0,
        trace_count: 0,
        stream_chunk_count: 0,
        last_updated_at: None,
        stale_prompt_required: false,
    }
}

#[test]
fn world_stores_are_shown_largest_first() {
    let global = store("g", 1);
    let s = storage_summary(global, vec![store("a", 10), store("b", 30), store("c", 10), store("d", 20)]);
    let order: Vec<String> = s.worlds.iter().map(|w| w.world_id.clone().unwrap()).collect();
    assert_eq!(order, vec!["b", "d", "a", "c"]);
    assert_eq!(s.global.world_id, Some("g".to_string()));
}
