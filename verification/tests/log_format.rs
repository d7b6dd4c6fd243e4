use smart_tavern::json::JsonValue;
use smart_tavern::log_format::{
    trace_summary_text, build_request_url, clamp_log_limit, clean_search, csv_escape, export_csv, normalize_page,
    short_id, validate_filter_ids, ApiConfig, LogPageInput, LogRecordFilter, LogRecordRef,
    LogRecordSummary, LogSourceRef,
};

#[test]
fn search_text_is_trimmed_and_capped() {
    assert_eq!(clean_search(&None), None);
    assert_eq!(clean_search(&Some("   ".to_string())), None);
    assert_eq!(clean_search(&Some("  hero  ".to_string())), Some("hero".to_string()));
    let long = "x".repeat(200);
    assert_eq!(clean_search(&Some(long)).map(|s| s.chars().count()), Some(128));
}

#[test]
fn pages_default_and_clamp() {
    assert_eq!(normalize_page(None), (0, 50));
    assert_eq!(normalize_page(Some(LogPageInput { offset: Some(-5), limit: Some(0) })), (0, 1));
    assert_eq!(normalize_page(Some(LogPageInput { offset: Some(30), limit: Some(900) })), (30, 200));
    assert_eq!(normalize_page(Some(LogPageInput { offset: None, limit: Some(20) })), (0, 20));
    assert_eq!(clamp_log_limit(-1), 1);
    assert_eq!(clamp_log_limit(1000), 500);
    assert_eq!(clamp_log_limit(42), 42);
}

#[test]
fn filter_ids_may_not_hold_path_separators() {
    let mut filter = LogRecordFilter::default();
    assert_eq!(validate_filter_ids(&filter), Ok(()));
    filter.session_id = Some("session-1".to_string());
    assert_eq!(validate_filter_ids(&filter), Ok(()));
    filter.trace_id = Some("a/b".to_string());
    assert_eq!(
        validate_filter_ids(&filter),
        Err("Log filter IDs must not contain path separators".to_string())
    );
    filter.trace_id = None;
    filter.world_id = Some("w\\x".to_string());
    assert!(validate_filter_ids(&filter).is_err());
    filter.world_id = Some("w\0".to_string());
    assert!(validate_filter_ids(&filter).is_err());
    filter.world_id = None;
    filter.search = Some("a/b".to_string());
    assert_eq!(validate_filter_ids(&filter), Ok(()));
}

#[test]
fn short_ids_keep_eight_characters() {
    assert_eq!(short_id("abc"), "abc");
    assert_eq!(short_id("0123456789"), "01234567");
    assert_eq!(short_id("世界世界世界世界世界"), "世界世界世界世界");
}

#[test]
fn csv_fields_are_quoted_where_needed() {
    assert_eq!(csv_escape("plain"), "plain");
    assert_eq!(csv_escape("a,b"), "\"a,b\"");
    assert_eq!(csv_escape("say \"hi\""), "\"say \"\"hi\"\"\"");
    assert_eq!(csv_escape("two\nlines"), "\"two\nlines\"");
    assert_eq!(csv_escape(""), "");
}

fn record(id: &str, title: &str) -> LogRecordSummary {
    LogRecordSummary {
        record_ref: LogRecordRef {
            record_kind: "llm".to_string(),
            source: LogSourceRef { source_kind: "world".to_string(), world_id: None },
            id: id.to_string(),
        },
        created_at: "2024-01-01T00:00:00Z".to_string(),
        title: title.to_string(),
        summary: None,
        status: Some("ok".to_string()),
        level: None,
        mode: None,
        provider: Some("openai_chat".to_string()),
        model: None,
        world_id: None,
        session_id: None,
        scene_turn_id: None,
        trace_id: None,
        request_id: Some("req-1".to_string()),
        character_id: None,
        llm_node: None,
        latency_ms: Some(12),
        token_usage: None,
        stream_chunk_count: None,
        step_count: None,
        protected: None,
    }
}

#[test]
fn csv_export_has_header_and_one_line_per_record() {
    let header = "created_at,source,kind,id,title,status,level,mode,provider,model,world_id,session_id,scene_turn_id,trace_id,request_id";
    assert_eq!(export_csv(&[]), header);
    let out = export_csv(&[record("r1", "first"), record("r2", "a, b")]);
    let lines: Vec<&str> = out.split('\n').collect();
    assert_eq!(lines.len(), 3);
    assert_eq!(lines[0], header);
    assert_eq!(lines[1], "2024-01-01T00:00:00Z,world,llm,r1,first,ok,,,openai_chat,,,,,,req-1");
    assert_eq!(lines[2], "2024-01-01T00:00:00Z,world,llm,r2,\"a, b\",ok,,,openai_chat,,,,,,req-1");
}

fn config(provider: &str, base_url: Option<&str>, model: &str) -> ApiConfig {
    ApiConfig {
        provider: provider.to_string(),
        base_url: base_url.map(|s| s.to_string()),
        api_key: None,
        model: model.to_string(),
    }
}

#[test]
fn request_urls_follow_the_provider() {
    assert_eq!(
        build_request_url(&config("openai_chat", None, "gpt")),
        Some("https://api.openai.com/v1/chat/completions".to_string())
    );
    assert_eq!(
        build_request_url(&config("anthropic", None, "model-a")),
        Some("https://api.anthropic.com/v1/messages".to_string())
    );
    assert_eq!(
        build_request_url(&config("gemini", None, "gemini-pro")),
        Some("https://generativelanguage.googleapis.com/v1beta:gemini-pro".to_string())
    );
    assert_eq!(
        build_request_url(&config("deepseek", Some("https://proxy.test"), "m")),
        Some("https://proxy.test/chat/completions".to_string())
    );
    assert_eq!(build_request_url(&config("custom", None, "m")), None);
    assert_eq!(
        build_request_url(&config("custom", Some("https://own.test"), "m")),
        Some("https://own.test".to_string())
    );
}

#[test]
fn trace_summaries_prefer_summary_then_text() {
    let both = JsonValue::Object(vec![
        ("text".to_string(), JsonValue::String("t".to_string())),
        ("summary".to_string(), JsonValue::String("s".to_string())),
    ]);
    assert_eq!(trace_summary_text(&both, "kind".to_string()), "s");
    let text_only = JsonValue::Object(vec![("text".to_string(), JsonValue::String("t".to_string()))]);
    assert_eq!(trace_summary_text(&text_only, "kind".to_string()), "t");
    let neither = JsonValue::Object(vec![("summary".to_string(), JsonValue::Bool(true))]);
    assert_eq!(trace_summary_text(&neither, "kind".to_string()), "kind");
    assert_eq!(trace_summary_text(&JsonValue::Null, "fallback".to_string()), "fallback");
}
