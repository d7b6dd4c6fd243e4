//! The decisions behind the log commands: which stores a listing reads,
//! where a record is looked up, which cleanups and exports are accepted,
//! and how stream chunks and storage summaries are paged and ordered.

use vstd::prelude::*;
use crate::log_format::{LogRecordFilter, LogRecordRef, LogSourceRef};
use crate::stable_order::{lemma_insert_ordered, lemma_ordered_unique, ordered_by, strict_order};
use crate::text::{
    chars_to_string, extend_chars, join_str, lemma_lex_asymmetric, lemma_lex_irreflexive, lemma_lex_total,
    lex_lt, str_chars, str_eq, str_lt, trim, trim_chars,
};
use crate::world_ids::{invalid_component_message, is_safe_component, validate_path_component};

verus! {

/// The text of an optional string, or `default` where there is none.
pub open spec fn text_or(o: Option<String>, default: Seq<char>) -> Seq<char> {
    match o {
        Some(s) => s@,
        None => default,
    }
}

fn str_or(o: &Option<String>, default: &str) -> (r: String)
    ensures
        r@ == text_or(*o, default@),
{
    match o {
        Some(s) => s.clone(),
        None => default.to_owned(),
    }
}

// ---------------------------------------------------------------------------
// Which stores a listing reads
// ---------------------------------------------------------------------------

/// The stores that a listing reads: the global log store, the log tables
/// of each world, and the agent traces of each world.
#[derive(Debug, Clone, Copy, PartialEq, Eq)]
pub struct LogSources {
    pub global: bool,
    pub world: bool,
    pub trace: bool,
}

/// The source scope of a filter, `all` where none is given.
pub open spec fn source_scope_of(filter: LogRecordFilter) -> Seq<char> {
    text_or(filter.source_scope, "all"@)
}

/// The stores a listing reads: the global store for the scopes `all` and
/// `global` unless a world is named; world logs for `all` and `world`;
/// traces for `all` and `trace`.
pub fn log_sources(filter: &LogRecordFilter) -> (r: LogSources)
    ensures
        r.global == ((source_scope_of(*filter) == "all"@ || source_scope_of(*filter) == "global"@)
            && filter.world_id is None),
        r.world == (source_scope_of(*filter) == "all"@ || source_scope_of(*filter) == "world"@),
        r.trace == (source_scope_of(*filter) == "all"@ || source_scope_of(*filter) == "trace"@),
{
    let scope = str_or(&filter.source_scope, "all");
    let all = str_eq(scope.as_str(), "all");
    let global = (all || str_eq(scope.as_str(), "global")) && filter.world_id.is_none();
    let world = all || str_eq(scope.as_str(), "world");
    let trace = all || str_eq(scope.as_str(), "trace");
    LogSources { global, world, trace }
}

/// The kinds of record read from one store.
#[derive(Debug, Clone, Copy, PartialEq, Eq)]
pub struct PoolRecordKinds {
    pub llm: bool,
    pub event: bool,
}

/// A store's model calls are read where the filter names no kind, `all`
/// or `llm`; its events where it names no kind, `all` or `event`.
pub fn pool_record_kinds(filter: &LogRecordFilter) -> (r: PoolRecordKinds)
    ensures
        r.llm == match filter.record_kind {
            None => true,
            Some(k) => k@ == "all"@ || k@ == "llm"@,
        },
        r.event == match filter.record_kind {
            None => true,
            Some(k) => k@ == "all"@ || k@ == "event"@,
        },
{
    match &filter.record_kind {
        None => PoolRecordKinds { llm: true, event: true },
        Some(k) => {
            let all = str_eq(k.as_str(), "all");
            PoolRecordKinds { llm: all || str_eq(k.as_str(), "llm"), event: all || str_eq(k.as_str(), "event") }
        },
    }
}

// ---------------------------------------------------------------------------
// Where a record is looked up
// ---------------------------------------------------------------------------

pub open spec fn invalid_world_message(id: Seq<char>) -> Seq<char> {
    "Invalid world_id '"@ + id + "': "@ + invalid_component_message(id)
}

/// A world's log store lies below the data root under the world's id, which
/// must be a single path component.
pub fn check_world_log_id(world_id: &str) -> (r: Result<(), String>)
    ensures
        r is Ok <==> is_safe_component(world_id@),
        r matches Err(e) ==> e@ == invalid_world_message(world_id@),
{
    match validate_path_component(world_id) {
        Ok(()) => Ok(()),
        Err(e) => {
            let mut v = str_chars("Invalid world_id '");
            extend_chars(&mut v, &str_chars(world_id));
            extend_chars(&mut v, &str_chars("': "));
            extend_chars(&mut v, &str_chars(e.as_str()));
            Err(chars_to_string(&v))
        },
    }
}

/// A directory of the worlds folder is listed when it is a directory, its
/// name is a single path component and it holds a world store.
pub fn keep_world_entry(name: &str, is_dir: bool, has_store: bool) -> (r: bool)
    ensures
        r == (is_dir && is_safe_component(name@) && has_store),
{
    if !is_dir {
        return false;
    }
    if validate_path_component(name).is_err() {
        return false;
    }
    has_store
}

/// The store a log source names.
#[derive(Debug, Clone, PartialEq, Eq)]
pub enum LogStoreRoute {
    Global,
    World(String),
}

pub open spec fn source_route_of(source: LogSourceRef) -> Result<Option<Seq<char>>, Seq<char>> {
    let k = source.source_kind@;
    if k == "global"@ {
        Ok(None)
    } else if k == "world"@ || k == "trace"@ {
        match source.world_id {
            Some(w) => Ok(Some(w@)),
            None => Err("World log source requires world_id"@),
        }
    } else {
        Err("Unsupported log source: "@ + k)
    }
}

pub open spec fn store_route_view(r: LogStoreRoute) -> Option<Seq<char>> {
    match r {
        LogStoreRoute::Global => None,
        LogStoreRoute::World(w) => Some(w@),
    }
}

/// The store of a log source: the global store, or that of the named world
/// for world logs and traces.
pub fn source_route(source: &LogSourceRef) -> (r: Result<LogStoreRoute, String>)
    ensures
        match source_route_of(*source) {
            Ok(v) => r matches Ok(x) && store_route_view(x) == v,
            Err(e) => r matches Err(m) && m@ == e,
        },
{
    let k = source.source_kind.as_str();
    if str_eq(k, "global") {
        return Ok(LogStoreRoute::Global);
    }
    if str_eq(k, "world") || str_eq(k, "trace") {
        return match &source.world_id {
            Some(w) => Ok(LogStoreRoute::World(w.clone())),
            None => Err("World log source requires world_id".to_owned()),
        };
    }
    Err(join_str("Unsupported log source: ", k))
}

/// Where the detail of a record is read.
#[derive(Debug, Clone, PartialEq, Eq)]
pub enum LogDetailRoute {
    Llm,
    Event,
    Trace(String),
}

pub open spec fn detail_route_of(r: LogRecordRef) -> Result<LogDetailRoute, Seq<char>> {
    let k = r.record_kind@;
    if k == "llm"@ {
        Ok(LogDetailRoute::Llm)
    } else if k == "event"@ {
        Ok(LogDetailRoute::Event)
    } else if k == "trace"@ {
        match r.source.world_id {
            Some(w) => Ok(LogDetailRoute::Trace(w)),
            None => Err("Trace detail requires world_id"@),
        }
    } else {
        Err("Unsupported log record kind: "@ + k)
    }
}

/// Where the detail of a record is read: model calls and events from the
/// store of their source, traces from their world.
pub fn detail_route(record_ref: &LogRecordRef) -> (r: Result<LogDetailRoute, String>)
    ensures
        match detail_route_of(*record_ref) {
            Ok(v) => r matches Ok(x) && x == v,
            Err(e) => r matches Err(m) && m@ == e,
        },
{
    let k = record_ref.record_kind.as_str();
    if str_eq(k, "llm") {
        return Ok(LogDetailRoute::Llm);
    }
    if str_eq(k, "event") {
        return Ok(LogDetailRoute::Event);
    }
    if str_eq(k, "trace") {
        return match &record_ref.source.world_id {
            Some(w) => Ok(LogDetailRoute::Trace(w.clone())),
            None => Err("Trace detail requires world_id".to_owned()),
        };
    }
    Err(join_str("Unsupported log record kind: ", k))
}

// ---------------------------------------------------------------------------
// Retention and cleanup
// ---------------------------------------------------------------------------

pub open spec fn retention_scope_message() -> Seq<char> {
    "Only global log retention can be run automatically"@
}

/// Retention runs on the global store only; no scope means the global one.
pub fn check_retention_scope(scope: &Option<String>) -> (r: Result<(), String>)
    ensures
        r is Ok <==> text_or(*scope, "global"@) == "global"@,
        r matches Err(e) ==> e@ == retention_scope_message(),
{
    match scope {
        Some(s) => if str_eq(s.as_str(), "global") {
            Ok(())
        } else {
            Err("Only global log retention can be run automatically".to_owned())
        },
        None => Ok(()),
    }
}

/// A cleanup is confirmed by the id of its plan, which must not be blank,
/// and then runs as retention does.
pub fn check_cleanup_confirmation(plan_id: &str, scope: &Option<String>) -> (r: Result<(), String>)
    ensures
        r is Ok <==> (trim(plan_id@).len() > 0 && text_or(*scope, "global"@) == "global"@),
        r matches Err(e) ==> e@ == (if trim(plan_id@).len() == 0 {
            "Cleanup plan_id must not be empty"@
        } else {
            retention_scope_message()
        }),
{
    let t = trim_chars(&str_chars(plan_id));
    if t.len() == 0 {
        return Err("Cleanup plan_id must not be empty".to_owned());
    }
    check_retention_scope(scope)
}

/// What a cleanup preview is asked for.
#[derive(Debug, Clone, Default)]
pub struct LogCleanupPreviewInput {
    pub scope: Option<String>,
    pub older_than_days: Option<i64>,
}

/// The scope and age of the records that a cleanup would remove.
#[derive(Debug, Clone)]
pub struct CleanupWindow {
    pub scope: String,
    pub older_than_days: i64,
}

pub open spec fn window_scope(input: Option<LogCleanupPreviewInput>) -> Seq<char> {
    match input {
        None => "global"@,
        Some(i) => text_or(i.scope, "global"@),
    }
}

pub open spec fn window_days(input: Option<LogCleanupPreviewInput>) -> int {
    let d = match input {
        None => 30,
        Some(i) => match i.older_than_days {
            Some(d) => d as int,
            None => 30,
        },
    };
    if d < 1 {
        1
    } else if d > 3650 {
        3650
    } else {
        d
    }
}

/// The records a cleanup preview counts: only the global store can be
/// cleaned; the age is 30 days where none is given, kept within
/// `1..=3650`.
pub fn cleanup_window(input: Option<LogCleanupPreviewInput>) -> (r: Result<CleanupWindow, String>)
    ensures
        r is Ok <==> window_scope(input) == "global"@,
        r matches Ok(w) ==> w.scope@ == window_scope(input) && w.older_than_days == window_days(input),
        r matches Err(e) ==> e@ == "Only global log cleanup preview is supported in MVP"@,
{
    let (scope, days): (Option<String>, Option<i64>) = match input {
        None => (None, None),
        Some(i) => (i.scope, i.older_than_days),
    };
    let scope = str_or(&scope, "global");
    if !str_eq(scope.as_str(), "global") {
        return Err("Only global log cleanup preview is supported in MVP".to_owned());
    }
    let d: i64 = match days {
        Some(d) => d,
        None => 30,
    };
    let d = if d < 1 {
        1
    } else if d > 3650 {
        3650
    } else {
        d
    };
    Ok(CleanupWindow { scope, older_than_days: d })
}

/// What a cleanup would remove.
#[derive(Debug, Clone)]
pub struct LogCleanupPreview {
    pub plan_id: String,
    pub scope: String,
    pub older_than_days: i64,
    pub llm_logs_to_delete: i64,
    pub event_logs_to_delete: i64,
    pub stream_chunks_affected: i64,
    pub protected_trace_records: i64,
    pub notes: Vec<String>,
}

pub open spec fn cleanup_note_global_only() -> Seq<char> {
    "仅清理全局运行 Logs，不自动删除 World 内 Agent Trace"@
}

pub open spec fn cleanup_note_redaction() -> Seq<char> {
    "凭证脱敏发生在写入层；导出和清理不会提供未脱敏内容入口"@
}

/// The preview of a cleanup: its plan, window and counts; no trace record
/// is ever counted as protected, and two notes say what is left alone.
pub fn cleanup_preview(
    plan_id: String,
    window: CleanupWindow,
    llm_logs_to_delete: i64,
    event_logs_to_delete: i64,
    stream_chunks_affected: i64,
) -> (r: LogCleanupPreview)
    ensures
        r.plan_id == plan_id,
        r.scope == window.scope,
        r.older_than_days == window.older_than_days,
        r.llm_logs_to_delete == llm_logs_to_delete,
        r.event_logs_to_delete == event_logs_to_delete,
        r.stream_chunks_affected == stream_chunks_affected,
        r.protected_trace_records == 0,
        r.notes@.len() == 2,
        r.notes@[0]@ == cleanup_note_global_only(),
        r.notes@[1]@ == cleanup_note_redaction(),
{
    let mut notes: Vec<String> = Vec::new();
    notes.push("仅清理全局运行 Logs，不自动删除 World 内 Agent Trace".to_owned());
    notes.push("凭证脱敏发生在写入层；导出和清理不会提供未脱敏内容入口".to_owned());
    LogCleanupPreview {
        plan_id,
        scope: window.scope,
        older_than_days: window.older_than_days,
        llm_logs_to_delete,
        event_logs_to_delete,
        stream_chunks_affected,
        protected_trace_records: 0,
        notes,
    }
}

// ---------------------------------------------------------------------------
// Protection of records against cleanup
// ---------------------------------------------------------------------------

/// A request to protect a record from cleanup, or to lift that.
#[derive(Debug, Clone)]
pub struct SetLogProtectionInput {
    pub record_kind: String,
    pub record_id: String,
    pub protected: bool,
}

/// The protection a record was given.
#[derive(Debug, Clone)]
pub struct SetLogProtectionResult {
    pub record_kind: String,
    pub record_id: String,
    pub protected: bool,
}

/// The table that holds the protection flag of a kind of record.
#[derive(Debug, Clone, Copy, PartialEq, Eq)]
pub enum ProtectedTable {
    LlmCalls,
    AppEvents,
}

/// Model calls and events can be protected; no other kind.
pub fn protection_table(record_kind: &str) -> (r: Result<ProtectedTable, String>)
    ensures
        record_kind@ == "llm"@ ==> (r matches Ok(t) && t == ProtectedTable::LlmCalls),
        record_kind@ == "event"@ ==> (r matches Ok(t) && t == ProtectedTable::AppEvents),
        record_kind@ != "llm"@ && record_kind@ != "event"@ ==> (r matches Err(e) && e@
            == "Unsupported log kind for protection: "@ + record_kind@),
{
    proof {
        reveal_strlit("llm");
        reveal_strlit("event");
        assert("llm"@.len() != "event"@.len());
    }
    if str_eq(record_kind, "llm") {
        return Ok(ProtectedTable::LlmCalls);
    }
    if str_eq(record_kind, "event") {
        return Ok(ProtectedTable::AppEvents);
    }
    Err(join_str("Unsupported log kind for protection: ", record_kind))
}

/// The stored value of a protection flag: 1 when protected, else 0.
pub fn protection_value(protected: bool) -> (r: i64)
    ensures
        r == (if protected {
            1int
        } else {
            0int
        }),
{
    if protected {
        1
    } else {
        0
    }
}

/// A stored protection flag: any value but 0 protects.
pub fn stored_protection(value: i64) -> (r: bool)
    ensures
        r == (value != 0),
{
    value != 0
}

pub open spec fn not_found_message(table: ProtectedTable, id: Seq<char>) -> Seq<char> {
    match table {
        ProtectedTable::LlmCalls => "LLM log not found: "@ + id,
        ProtectedTable::AppEvents => "Event log not found: "@ + id,
    }
}

/// The answer where no record of the table has the id.
pub fn protection_not_found(table: ProtectedTable, record_id: &str) -> (r: String)
    ensures
        r@ == not_found_message(table, record_id@),
{
    match table {
        ProtectedTable::LlmCalls => join_str("LLM log not found: ", record_id),
        ProtectedTable::AppEvents => join_str("Event log not found: ", record_id),
    }
}

/// The answer to a protection request once the flag is stored: the request
/// itself.
pub fn protection_result(input: SetLogProtectionInput) -> (r: SetLogProtectionResult)
    ensures
        r.record_kind == input.record_kind,
        r.record_id == input.record_id,
        r.protected == input.protected,
{
    SetLogProtectionResult { record_kind: input.record_kind, record_id: input.record_id, protected: input.protected }
}

// ---------------------------------------------------------------------------
// Exports
// ---------------------------------------------------------------------------

/// The formats logs can be exported in.
#[derive(Debug, Clone, Copy, PartialEq, Eq)]
pub enum ExportFormat {
    Jsonl,
    Csv,
    Json,
}

pub open spec fn export_format_of(name: Seq<char>) -> Option<ExportFormat> {
    if name == "jsonl"@ {
        Some(ExportFormat::Jsonl)
    } else if name == "csv"@ {
        Some(ExportFormat::Csv)
    } else if name == "json"@ {
        Some(ExportFormat::Json)
    } else {
        None
    }
}

/// The name of the export format asked for, `json` where none is.
pub fn export_format_name(format: &Option<String>) -> (r: String)
    ensures
        r@ == text_or(*format, "json"@),
{
    str_or(format, "json")
}

/// The export format of a name: `jsonl`, `csv` or `json`.
pub fn export_format(name: &str) -> (r: Result<ExportFormat, String>)
    ensures
        match export_format_of(name@) {
            Some(f) => r matches Ok(x) && x == f,
            None => r matches Err(e) && e@ == "Unsupported export format: "@ + name@,
        },
{
    if str_eq(name, "jsonl") {
        return Ok(ExportFormat::Jsonl);
    }
    if str_eq(name, "csv") {
        return Ok(ExportFormat::Csv);
    }
    if str_eq(name, "json") {
        return Ok(ExportFormat::Json);
    }
    Err(join_str("Unsupported export format: ", name))
}

/// The file name of an export made at the time `stamp`.
pub fn export_filename(stamp: &str, format: &str) -> (r: String)
    ensures
        r@ == "rst-logs-"@ + stamp@ + "."@ + format@,
{
    let mut v = str_chars("rst-logs-");
    extend_chars(&mut v, &str_chars(stamp));
    extend_chars(&mut v, &str_chars("."));
    extend_chars(&mut v, &str_chars(format));
    chars_to_string(&v)
}

/// An export of log records.
#[derive(Debug, Clone)]
pub struct ExportLogsResult {
    pub format: String,
    pub filename: String,
    pub content: String,
    pub record_count: usize,
}

// ---------------------------------------------------------------------------
// Stream chunks
// ---------------------------------------------------------------------------

/// One chunk of a streamed model response.
#[derive(Debug, Clone)]
pub struct StreamChunkDetail {
    pub chunk_id: String,
    pub request_id: String,
    pub chunk_index: i64,
    pub raw_chunk: String,
    pub received_at: String,
}

/// A page of the chunks of a streamed response.
#[derive(Debug)]
pub struct StreamChunkPage {
    pub chunks: Vec<StreamChunkDetail>,
    pub offset: i64,
    pub limit: i64,
    pub has_more: bool,
}

/// A page of chunks is read one row past its size, to learn whether more
/// follow.
pub fn stream_chunk_fetch_limit(limit: i64) -> (r: i64)
    requires
        limit < i64::MAX,
    ensures
        r == limit + 1,
{
    limit + 1
}

/// The page made of the rows read for it: the first `limit` rows, and
/// whether there were more.
pub fn stream_chunk_page(rows: Vec<StreamChunkDetail>, offset: i64, limit: i64) -> (r: StreamChunkPage)
    requires
        0 <= limit,
    ensures
        r.offset == offset,
        r.limit == limit,
        r.has_more == (rows@.len() > limit),
        r.chunks@ == (if rows@.len() > limit {
            rows@.take(limit as int)
        } else {
            rows@
        }),
{
    let mut chunks = rows;
    let n = chunks.len();
    let has_more = (n as u64) > (limit as u64);
    if has_more {
        chunks.truncate(limit as usize);
    }
    StreamChunkPage { chunks, offset, limit, has_more }
}

// ---------------------------------------------------------------------------
// Storage summaries
// ---------------------------------------------------------------------------

/// The size of the global log store above which it is trimmed (1 GiB).
pub const GLOBAL_LOG_LIMIT_BYTES: u64 = 1073741824;

/// A world's logs are stale after 30 days without a new record, in seconds.
pub const WORLD_STALE_SECONDS: i64 = 2592000;

/// What one log store holds.
#[derive(Debug, Clone)]
pub struct LogScopeStorageSummary {
    pub scope: String,
    pub world_id: Option<String>,
    pub size_bytes: u64,
    pub size_limit_bytes: Option<u64>,
    pub llm_count: i64,
    pub event_count: i64,
    pub trace_count: i64,
    pub stream_chunk_count: i64,
    pub last_updated_at: Option<String>,
    pub stale_prompt_required: bool,
}

/// What the log stores hold: the global store and each world's.
#[derive(Debug)]
pub struct LogStorageSummary {
    pub global: LogScopeStorageSummary,
    pub worlds: Vec<LogScopeStorageSummary>,
}

/// The latest of some timestamps: the greatest text, none where there is
/// no timestamp.
pub fn latest_timestamp_of(candidates: &Vec<String>) -> (r: Option<String>)
    ensures
        r is None <==> candidates@.len() == 0,
        r matches Some(m) ==> (exists|i: int| 0 <= i < candidates@.len() && candidates@[i]@ == m@)
            && forall|i: int| 0 <= i < candidates@.len() ==> !lex_lt(m@, #[trigger] candidates@[i]@),
{
    if candidates.len() == 0 {
        return None;
    }
    let mut best: usize = 0;
    let mut i: usize = 1;
    proof {
        lemma_lex_irreflexive(candidates@[0]@);
    }
    while i < candidates.len()
        invariant
            1 <= i <= candidates.len(),
            best < i,
            forall|k: int| 0 <= k < i ==> !lex_lt(candidates@[best as int]@, #[trigger] candidates@[k]@),
        decreases candidates.len() - i,
    {
        if !str_lt(candidates[i].as_str(), candidates[best].as_str()) {
            proof {
                let b = candidates@[best as int]@;
                let c = candidates@[i as int]@;
                lemma_lex_total(b, c);
                lemma_lex_irreflexive(c);
                assert forall|k: int| 0 <= k < i + 1 implies !lex_lt(c, #[trigger] candidates@[k]@) by {
                    if k < i {
                        let d = candidates@[k]@;
                        if lex_lt(c, d) {
                            if b == c {
                            } else {
                                crate::text::lemma_lex_transitive(b, c, d);
                            }
                        }
                    }
                }
            }
            best = i;
        } else {
            proof {
                lemma_lex_asymmetric(candidates@[best as int]@, candidates@[i as int]@);
            }
        }
        i += 1;
    }
    Some(candidates[best].clone())
}

/// A world's store asks to be cleaned when it is over a tenth of the
/// global limit and its last record is more than 30 days old. `age` is the
/// time since that record as whole seconds and the nanoseconds past them,
/// ordered as seconds first; none where the time is unknown.
pub fn storage_is_stale(scope: &str, size_bytes: u64, age: Option<(i64, i32)>) -> (r: bool)
    ensures
        r == (scope@ == "world"@ && size_bytes > GLOBAL_LOG_LIMIT_BYTES / 10 && match age {
            Some(a) => a.0 > WORLD_STALE_SECONDS || (a.0 == WORLD_STALE_SECONDS && a.1 > 0),
            None => false,
        }),
{
    if !str_eq(scope, "world") {
        return false;
    }
    if size_bytes <= GLOBAL_LOG_LIMIT_BYTES / 10 {
        return false;
    }
    match age {
        Some((secs, nanos)) => secs > WORLD_STALE_SECONDS || (secs == WORLD_STALE_SECONDS && nanos > 0),
        None => false,
    }
}

pub open spec fn world_sizes(s: Seq<LogScopeStorageSummary>) -> Seq<u64> {
    s.map_values(|w: LogScopeStorageSummary| w.size_bytes)
}

/// Store `i` is shown before store `j`: it is larger, or as large and came
/// first.
pub open spec fn size_prec(sizes: Seq<u64>) -> spec_fn(int, int) -> bool {
    |i: int, j: int| sizes[j] < sizes[i] || (sizes[i] == sizes[j] && i < j)
}

/// The order in which world stores are shown: largest first, stores of
/// equal size in the order given.
pub open spec fn size_order(sizes: Seq<u64>) -> Seq<int> {
    choose|o: Seq<int>| ordered_by(size_prec(sizes), o) && o.to_set() == Set::new(|i: int| 0 <= i < sizes.len())
}

proof fn lemma_size_strict(sizes: Seq<u64>)
    ensures
        strict_order(size_prec(sizes)),
{
}

/// The summary of the log stores, the world stores largest first and those
/// of equal size in the order given.
pub fn storage_summary(global: LogScopeStorageSummary, worlds: Vec<LogScopeStorageSummary>) -> (r: LogStorageSummary)
    ensures
        r.global == global,
        r.worlds@.len() == worlds@.len(),
        forall|k: int| 0 <= k < worlds@.len() ==> #[trigger] r.worlds@[k] == worlds@[size_order(world_sizes(worlds@))[k]],
        forall|k: int, l: int| 0 <= k < l < worlds@.len() ==> #[trigger] r.worlds@[k].size_bytes >= #[trigger] r.worlds@[l].size_bytes,
{
    let ghost src = worlds@;
    let ghost sizes = world_sizes(src);
    let ghost prec = size_prec(sizes);
    let n: usize = worlds.len();
    let mut rest = worlds;
    let mut out: Vec<LogScopeStorageSummary> = Vec::new();
    let ghost mut orig: Seq<int> = Seq::empty();
    let mut i: usize = 0;
    proof {
        lemma_size_strict(sizes);
    }
    while rest.len() > 0
        invariant
            i + rest@.len() == src.len(),
            src.len() == n,
            out@.len() == i,
            rest@ == src.skip(i as int),
            sizes == world_sizes(src),
            prec == size_prec(sizes),
            strict_order(prec),
            out@.len() == orig.len(),
            ordered_by(prec, orig),
            orig.to_set() == Set::new(|j: int| 0 <= j < i),
            forall|k: int| 0 <= k < orig.len() ==> 0 <= #[trigger] orig[k] < i,
            forall|k: int| 0 <= k < out@.len() ==> #[trigger] out@[k] == src[orig[k]],
        decreases rest@.len(),
    {
        let x = rest.remove(0);
        assert(x == src[i as int]);
        let mut p: usize = 0;
        while p < out.len() && out[p].size_bytes >= x.size_bytes
            invariant
                p <= out@.len(),
                out@.len() == orig.len(),
                x == src[i as int],
                sizes == world_sizes(src),
                prec == size_prec(sizes),
                i < src.len(),
                forall|k: int| 0 <= k < orig.len() ==> 0 <= #[trigger] orig[k] < i,
                forall|k: int| 0 <= k < out@.len() ==> #[trigger] out@[k] == src[orig[k]],
                forall|q: int| 0 <= q < p ==> #[trigger] prec(orig[q], i as int),
            decreases out@.len() - p,
        {
            assert(out@[p as int] == src[orig[p as int]]);
            assert(sizes[orig[p as int]] == src[orig[p as int]].size_bytes);
            assert(sizes[i as int] == x.size_bytes);
            assert(orig[p as int] < i);
            p += 1;
        }
        proof {
            if p < out@.len() {
                assert(out@[p as int] == src[orig[p as int]]);
                assert(sizes[orig[p as int]] == src[orig[p as int]].size_bytes);
                assert(sizes[i as int] == x.size_bytes);
                assert(prec(i as int, orig[p as int]));
            }
            lemma_insert_ordered(prec, orig, p as int, i as int);
        }
        let ghost old_out = out@;
        let ghost old_orig = orig;
        out.insert(p, x);
        proof {
            orig = old_orig.take(p as int).push(i as int) + old_orig.skip(p as int);
            assert(Set::new(|j: int| 0 <= j < i).insert(i as int) =~= Set::new(|j: int| 0 <= j < i + 1));
            assert forall|k: int| 0 <= k < out@.len() implies #[trigger] out@[k] == src[orig[k]] by {
                if k < p {
                    assert(out@[k] == old_out[k] && orig[k] == old_orig[k]);
                } else if k > p {
                    assert(out@[k] == old_out[k - 1] && orig[k] == old_orig[k - 1]);
                }
            }
            assert forall|k: int| 0 <= k < orig.len() implies 0 <= #[trigger] orig[k] < i + 1 by {
                if k < p {
                    assert(orig[k] == old_orig[k]);
                } else if k > p {
                    assert(orig[k] == old_orig[k - 1]);
                }
            }
            assert(rest@ =~= src.skip(i + 1));
        }
        i += 1;
    }
    proof {
        assert(sizes.len() == src.len());
        assert(Set::new(|j: int| 0 <= j < i) =~= Set::new(|j: int| 0 <= j < sizes.len()));
        let c = size_order(sizes);
        assert(ordered_by(prec, orig) && orig.to_set() == Set::new(|j: int| 0 <= j < sizes.len()));
        lemma_ordered_unique(prec, orig, c);
        assert forall|k: int, l: int| 0 <= k < l < src.len() implies #[trigger] out@[k].size_bytes >= #[trigger] out@[l].size_bytes by {
            assert(prec(orig[k], orig[l]));
            assert(sizes[orig[k]] == src[orig[k]].size_bytes);
            assert(sizes[orig[l]] == src[orig[l]].size_bytes);
        }
    }
    LogStorageSummary { global, worlds: out }
}

} // verus!
