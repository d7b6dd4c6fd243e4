//! Log queries and exports: search text, paging, filter ids, short ids,
//! CSV lines, and the endpoint a request went to.

use vstd::prelude::*;
use crate::json::{json_view, vget_str, vjson_get_str, JsonValue};
use crate::text::{
    chars_to_string, contains, join_str, join_strings, join_with, str_chars, str_eq, strings_view,
    sub_chars, trim, trim_chars,
};

verus! {

/// Which log records to list.
#[derive(Debug, Clone, Default)]
pub struct LogRecordFilter {
    pub source_scope: Option<String>,
    pub record_kind: Option<String>,
    pub level: Option<String>,
    pub status: Option<String>,
    pub mode: Option<String>,
    pub provider: Option<String>,
    pub model: Option<String>,
    pub world_id: Option<String>,
    pub session_id: Option<String>,
    pub scene_turn_id: Option<String>,
    pub trace_id: Option<String>,
    pub request_id: Option<String>,
    pub character_id: Option<String>,
    pub llm_node: Option<String>,
    pub search: Option<String>,
    pub since: Option<String>,
    pub until: Option<String>,
}

/// A page of a listing.
#[derive(Debug, Clone, Copy, Default)]
pub struct LogPageInput {
    pub offset: Option<i64>,
    pub limit: Option<i64>,
}

/// Where a log record is stored.
#[derive(Debug, Clone)]
pub struct LogSourceRef {
    pub source_kind: String,
    pub world_id: Option<String>,
}

/// A log record, by its kind, source and id.
#[derive(Debug, Clone)]
pub struct LogRecordRef {
    pub record_kind: String,
    pub source: LogSourceRef,
    pub id: String,
}

/// A log record as a listing shows it.
#[derive(Debug)]
pub struct LogRecordSummary {
    pub record_ref: LogRecordRef,
    pub created_at: String,
    pub title: String,
    pub summary: Option<String>,
    pub status: Option<String>,
    pub level: Option<String>,
    pub mode: Option<String>,
    pub provider: Option<String>,
    pub model: Option<String>,
    pub world_id: Option<String>,
    pub session_id: Option<String>,
    pub scene_turn_id: Option<String>,
    pub trace_id: Option<String>,
    pub request_id: Option<String>,
    pub character_id: Option<String>,
    pub llm_node: Option<String>,
    pub latency_ms: Option<i64>,
    pub token_usage: Option<JsonValue>,
    pub stream_chunk_count: Option<i64>,
    pub step_count: Option<i64>,
    pub protected: Option<bool>,
}

/// How requests reach a model provider.
#[derive(Debug, Clone)]
pub struct ApiConfig {
    pub provider: String,
    pub base_url: Option<String>,
    pub api_key: Option<String>,
    pub model: String,
}

/// The page size where none is asked for.
pub const DEFAULT_PAGE_SIZE: i64 = 50;

/// The largest page.
pub const MAX_PAGE_SIZE: i64 = 200;

pub open spec fn clamp(v: int, lo: int, hi: int) -> int {
    if v < lo {
        lo
    } else if v > hi {
        hi
    } else {
        v
    }
}

/// A search text: trimmed, at most 128 characters; none where blank.
pub open spec fn search_text(v: Option<String>) -> Option<Seq<char>> {
    match v {
        None => None,
        Some(s) => {
            let t = trim(s@);
            if t.len() == 0 {
                None
            } else if t.len() <= 128 {
                Some(t)
            } else {
                Some(t.take(128))
            }
        },
    }
}

/// The search text of a filter.
pub fn clean_search(value: &Option<String>) -> (r: Option<String>)
    ensures
        match r {
            Some(s) => search_text(*value) == Some(s@),
            None => search_text(*value) is None,
        },
{
    match value {
        None => None,
        Some(s) => {
            let t = trim_chars(&str_chars(s.as_str()));
            if t.len() == 0 {
                None
            } else if t.len() <= 128 {
                Some(chars_to_string(&t))
            } else {
                Some(chars_to_string(&sub_chars(&t, 0, 128)))
            }
        },
    }
}

/// The offset and size of a page: the offset not below zero (zero where
/// none is given), the size within `1..=200` (50 where none is given).
pub fn normalize_page(page: Option<LogPageInput>) -> (r: (i64, i64))
    ensures
        r.0 == (match page {
            Some(p) => match p.offset {
                Some(o) => if o < 0 {
                    0
                } else {
                    o as int
                },
                None => 0,
            },
            None => 0,
        }),
        r.1 == clamp(
            match page {
                Some(p) => match p.limit {
                    Some(l) => l as int,
                    None => DEFAULT_PAGE_SIZE as int,
                },
                None => DEFAULT_PAGE_SIZE as int,
            },
            1,
            MAX_PAGE_SIZE as int,
        ),
{
    let offset: i64 = match page {
        Some(p) => match p.offset {
            Some(o) => o,
            None => 0,
        },
        None => 0,
    };
    let offset = if offset < 0 {
        0
    } else {
        offset
    };
    let limit: i64 = match page {
        Some(p) => match p.limit {
            Some(l) => l,
            None => DEFAULT_PAGE_SIZE,
        },
        None => DEFAULT_PAGE_SIZE,
    };
    let limit = if limit < 1 {
        1
    } else if limit > MAX_PAGE_SIZE {
        MAX_PAGE_SIZE
    } else {
        limit
    };
    (offset, limit)
}

/// A log listing's size, within `1..=500`.
pub fn clamp_log_limit(limit: i64) -> (r: i64)
    ensures
        r == clamp(limit as int, 1, 500),
{
    if limit < 1 {
        1
    } else if limit > 500 {
        500
    } else {
        limit
    }
}

/// The id holds a path separator or a NUL.
pub open spec fn unsafe_id(id: Seq<char>) -> bool {
    id.contains('/') || id.contains('\\') || id.contains('\0')
}

pub open spec fn unsafe_opt(o: Option<String>) -> bool {
    match o {
        Some(s) => unsafe_id(s@),
        None => false,
    }
}

fn id_is_unsafe(o: &Option<String>) -> (r: bool)
    ensures
        r == unsafe_opt(*o),
{
    match o {
        None => false,
        Some(s) => {
            let v = str_chars(s.as_str());
            let mut i: usize = 0;
            while i < v.len()
                invariant
                    i <= v.len(),
                    v@ == s@,
                    *o == Some(*s),
                    forall|k: int| 0 <= k < i ==> v@[k] != '/' && v@[k] != '\\' && v@[k] != '\0',
                decreases v.len() - i,
            {
                let c = v[i];
                if c == '/' || c == '\\' || c == '\0' {
                    assert(s@[i as int] == c);
                    assert(s@.contains(c));
                    assert(unsafe_id(s@));
                    return true;
                }
                i += 1;
            }
            false
        },
    }
}

/// The ids a filter names (world, session, scene turn, trace, request,
/// character) must not hold a path separator or a NUL.
pub fn validate_filter_ids(filter: &LogRecordFilter) -> (r: Result<(), String>)
    ensures
        match r {
            Ok(_) => !unsafe_opt(filter.world_id) && !unsafe_opt(filter.session_id) && !unsafe_opt(
                filter.scene_turn_id,
            ) && !unsafe_opt(filter.trace_id) && !unsafe_opt(filter.request_id) && !unsafe_opt(
                filter.character_id,
            ),
            Err(e) => e@ == "Log filter IDs must not contain path separators"@ && (unsafe_opt(
                filter.world_id,
            ) || unsafe_opt(filter.session_id) || unsafe_opt(filter.scene_turn_id) || unsafe_opt(
                filter.trace_id,
            ) || unsafe_opt(filter.request_id) || unsafe_opt(filter.character_id)),
        },
{
    if id_is_unsafe(&filter.world_id) || id_is_unsafe(&filter.session_id) || id_is_unsafe(
        &filter.scene_turn_id,
    ) || id_is_unsafe(&filter.trace_id) || id_is_unsafe(&filter.request_id) || id_is_unsafe(
        &filter.character_id,
    ) {
        return Err("Log filter IDs must not contain path separators".to_owned());
    }
    Ok(())
}

/// The first eight characters of an id.
pub fn short_id(id: &str) -> (r: String)
    ensures
        r@ == if id@.len() <= 8 {
            id@
        } else {
            id@.take(8)
        },
{
    let v = str_chars(id);
    if v.len() <= 8 {
        id.to_owned()
    } else {
        chars_to_string(&sub_chars(&v, 0, 8))
    }
}

/// Each double quote doubled.
pub open spec fn double_quotes(s: Seq<char>) -> Seq<char>
    decreases s.len(),
{
    if s.len() == 0 {
        Seq::empty()
    } else {
        double_quotes(s.drop_last()) + if s.last() == '"' {
            seq!['"', '"']
        } else {
            seq![s.last()]
        }
    }
}

/// A CSV field: quoted, with its quotes doubled, where it holds a comma,
/// a quote or a line break; else as it is.
pub open spec fn csv_field(s: Seq<char>) -> Seq<char> {
    if s.contains(',') || s.contains('"') || s.contains('\n') || s.contains('\r') {
        seq!['"'] + double_quotes(s) + seq!['"']
    } else {
        s
    }
}

/// A CSV field.
pub fn csv_escape(value: &str) -> (r: String)
    ensures
        r@ == csv_field(value@),
{
    let v = str_chars(value);
    let mut special = false;
    let mut out: Vec<char> = Vec::new();
    out.push('"');
    let mut i: usize = 0;
    while i < v.len()
        invariant
            i <= v.len(),
            v@ == value@,
            out@ == seq!['"'] + double_quotes(v@.take(i as int)),
            special == (v@.take(i as int).contains(',') || v@.take(i as int).contains('"')
                || v@.take(i as int).contains('\n') || v@.take(i as int).contains('\r')),
        decreases v.len() - i,
    {
        let c = v[i];
        assert(v@.take((i + 1) as int).drop_last() =~= v@.take(i as int));
        assert(v@.take((i + 1) as int) =~= v@.take(i as int).push(c));
        if c == ',' || c == '"' || c == '\n' || c == '\r' {
            special = true;
        }
        if c == '"' {
            out.push('"');
            out.push('"');
        } else {
            out.push(c);
        }
        proof {
            let t = v@.take((i + 1) as int);
            assert(t.last() == c);
            assert forall|x: char| t.contains(x) <==> (v@.take(i as int).contains(x) || x == c) by {
                if t.contains(x) {
                    let k = choose|k: int| 0 <= k < t.len() && t[k] == x;
                    if k < i {
                        assert(v@.take(i as int)[k] == x);
                    }
                }
                if v@.take(i as int).contains(x) {
                    let k = choose|k: int| 0 <= k < i && v@.take(i as int)[k] == x;
                    assert(t[k] == x);
                }
                if x == c {
                    assert(t[i as int] == x);
                }
            }
        }
        i += 1;
    }
    assert(v@.take(v.len() as int) =~= v@);
    if special {
        out.push('"');
        chars_to_string(&out)
    } else {
        proof {
            lemma_double_quotes_plain(v@);
        }
        value.to_owned()
    }
}

proof fn lemma_double_quotes_plain(s: Seq<char>)
    requires
        !s.contains('"'),
    ensures
        double_quotes(s) == s,
    decreases s.len(),
{
    if s.len() > 0 {
        assert(!s.drop_last().contains('"')) by {
            if s.drop_last().contains('"') {
                let k = choose|k: int| 0 <= k < s.drop_last().len() && s.drop_last()[k] == '"';
                assert(s[k] == '"');
            }
        }
        lemma_double_quotes_plain(s.drop_last());
        assert(s.last() != '"') by {
            assert(s[s.len() - 1] == s.last());
        }
        assert(s.drop_last() + seq![s.last()] =~= s);
    }
}

pub open spec fn opt_or_empty(o: Option<String>) -> Seq<char> {
    match o {
        Some(s) => s@,
        None => Seq::empty(),
    }
}

/// The columns of a record in an export, in order.
pub open spec fn record_fields(r: LogRecordSummary) -> Seq<Seq<char>> {
    seq![
        r.created_at@,
        r.record_ref.source.source_kind@,
        r.record_ref.record_kind@,
        r.record_ref.id@,
        r.title@,
        opt_or_empty(r.status),
        opt_or_empty(r.level),
        opt_or_empty(r.mode),
        opt_or_empty(r.provider),
        opt_or_empty(r.model),
        opt_or_empty(r.world_id),
        opt_or_empty(r.session_id),
        opt_or_empty(r.scene_turn_id),
        opt_or_empty(r.trace_id),
        opt_or_empty(r.request_id),
    ]
}

pub open spec fn csv_line(fields: Seq<Seq<char>>) -> Seq<char> {
    join_with(fields.map_values(|f: Seq<char>| csv_field(f)), ","@)
}

pub open spec fn csv_header() -> Seq<char> {
    "created_at,source,kind,id,title,status,level,mode,provider,model,world_id,session_id,scene_turn_id,trace_id,request_id"@
}

/// An export of records as CSV: the header, then one line per record.
pub open spec fn csv_export(rs: Seq<LogRecordSummary>) -> Seq<char> {
    join_with(
        seq![csv_header()] + rs.map_values(|r: LogRecordSummary| csv_line(record_fields(r))),
        "\n"@,
    )
}

fn opt_text(o: &Option<String>) -> (r: &str)
    ensures
        r@ == opt_or_empty(*o),
{
    match o {
        Some(s) => s.as_str(),
        None => {
            proof {
                reveal_strlit("");
            }
            ""
        },
    }
}

fn record_line(r: &LogRecordSummary) -> (s: String)
    ensures
        s@ == csv_line(record_fields(*r)),
{
    let fields: Vec<&str> = vec![
        r.created_at.as_str(),
        r.record_ref.source.source_kind.as_str(),
        r.record_ref.record_kind.as_str(),
        r.record_ref.id.as_str(),
        r.title.as_str(),
        opt_text(&r.status),
        opt_text(&r.level),
        opt_text(&r.mode),
        opt_text(&r.provider),
        opt_text(&r.model),
        opt_text(&r.world_id),
        opt_text(&r.session_id),
        opt_text(&r.scene_turn_id),
        opt_text(&r.trace_id),
        opt_text(&r.request_id),
    ];
    let ghost want = record_fields(*r);
    assert(fields@.map_values(|f: &str| f@) =~= want);
    let mut escaped: Vec<String> = Vec::new();
    let mut i: usize = 0;
    while i < fields.len()
        invariant
            i <= fields.len(),
            fields@.len() == want.len(),
            forall|k: int| 0 <= k < fields@.len() ==> (#[trigger] fields@[k])@ == want[k],
            strings_view(escaped@) == want.take(i as int).map_values(|f: Seq<char>| csv_field(f)),
        decreases fields.len() - i,
    {
        let ghost before = escaped@;
        let e = csv_escape(fields[i]);
        escaped.push(e);
        assert(e@ == csv_field(want[i as int]));
        assert(strings_view(escaped@) =~= strings_view(before).push(e@));
        assert(want.take((i + 1) as int).map_values(|f: Seq<char>| csv_field(f)) =~= want.take(
            i as int,
        ).map_values(|f: Seq<char>| csv_field(f)).push(csv_field(want[i as int])));
        i += 1;
    }
    assert(want.take(fields.len() as int) =~= want);
    join_strings(&escaped, ",")
}

/// An export of records as CSV.
pub fn export_csv(records: &[LogRecordSummary]) -> (r: String)
    ensures
        r@ == csv_export(records@),
{
    let mut lines: Vec<String> = Vec::new();
    lines.push(
        "created_at,source,kind,id,title,status,level,mode,provider,model,world_id,session_id,scene_turn_id,trace_id,request_id".to_owned(),
    );
    let mut i: usize = 0;
    while i < records.len()
        invariant
            i <= records.len(),
            strings_view(lines@) == seq![csv_header()] + records@.take(i as int).map_values(
                |r: LogRecordSummary| csv_line(record_fields(r)),
            ),
        decreases records.len() - i,
    {
        let ghost before = lines@;
        let l = record_line(&records[i]);
        lines.push(l);
        assert(strings_view(lines@) =~= strings_view(before).push(l@));
        assert(records@.take((i + 1) as int).map_values(|r: LogRecordSummary| csv_line(record_fields(r)))
            =~= records@.take(i as int).map_values(|r: LogRecordSummary| csv_line(record_fields(r))).push(
            csv_line(record_fields(records@[i as int])),
        ));
        i += 1;
    }
    assert(records@.take(records.len() as int) =~= records@);
    join_strings(&lines, "\n")
}

// ---------------------------------------------------------------------------
// Request endpoints
// ---------------------------------------------------------------------------

/// The base URL a provider uses where none is configured.
pub open spec fn default_base_url(provider: Seq<char>) -> Option<Seq<char>> {
    if provider == "openai_chat"@ || provider == "openai_responses"@ {
        Some("https://api.openai.com/v1"@)
    } else if provider == "anthropic"@ {
        Some("https://api.anthropic.com/v1"@)
    } else if provider == "gemini"@ {
        Some("https://generativelanguage.googleapis.com/v1beta"@)
    } else if provider == "deepseek"@ {
        Some("https://api.deepseek.com"@)
    } else if provider == "claude_code"@ {
        Some("http://localhost:8080"@)
    } else {
        None
    }
}

/// The endpoint path a provider's chat requests go to.
pub open spec fn endpoint(provider: Seq<char>, model: Seq<char>) -> Option<Seq<char>> {
    if provider == "openai_chat"@ {
        Some("/chat/completions"@)
    } else if provider == "openai_responses"@ {
        Some("/responses"@)
    } else if provider == "anthropic"@ {
        Some("/messages"@)
    } else if provider == "gemini"@ {
        Some(":"@ + model)
    } else if provider == "deepseek"@ {
        Some("/chat/completions"@)
    } else if provider == "claude_code"@ {
        Some("/v1/chat"@)
    } else {
        None
    }
}

/// The URL a chat request goes to, for the log: the configured or default
/// base URL, then the provider's endpoint; none for an unknown provider
/// without a base URL.
pub open spec fn request_url(c: ApiConfig) -> Option<Seq<char>> {
    let base = match c.base_url {
        Some(u) => Some(u@),
        None => default_base_url(c.provider@),
    };
    match base {
        None => None,
        Some(b) => match endpoint(c.provider@, c.model@) {
            Some(e) => Some(b + e),
            None => Some(b),
        },
    }
}

/// The URL a chat request goes to, for the log.
pub fn build_request_url(api_config: &ApiConfig) -> (r: Option<String>)
    ensures
        match r {
            Some(u) => request_url(*api_config) == Some(u@),
            None => request_url(*api_config) is None,
        },
{
    let p = api_config.provider.as_str();
    let base: String = match &api_config.base_url {
        Some(u) => u.clone(),
        None => {
            if str_eq(p, "openai_chat") || str_eq(p, "openai_responses") {
                "https://api.openai.com/v1".to_owned()
            } else if str_eq(p, "anthropic") {
                "https://api.anthropic.com/v1".to_owned()
            } else if str_eq(p, "gemini") {
                "https://generativelanguage.googleapis.com/v1beta".to_owned()
            } else if str_eq(p, "deepseek") {
                "https://api.deepseek.com".to_owned()
            } else if str_eq(p, "claude_code") {
                "http://localhost:8080".to_owned()
            } else {
                return None;
            }
        },
    };
    let endpoint: String = if str_eq(p, "openai_chat") {
        "/chat/completions".to_owned()
    } else if str_eq(p, "openai_responses") {
        "/responses".to_owned()
    } else if str_eq(p, "anthropic") {
        "/messages".to_owned()
    } else if str_eq(p, "gemini") {
        join_str(":", api_config.model.as_str())
    } else if str_eq(p, "deepseek") {
        "/chat/completions".to_owned()
    } else if str_eq(p, "claude_code") {
        "/v1/chat".to_owned()
    } else {
        return Some(base);
    };
    Some(join_str(base.as_str(), endpoint.as_str()))
}

// ---------------------------------------------------------------------------
// Trace summaries
// ---------------------------------------------------------------------------

/// The text a trace's summary shows: its `summary` string, else its `text`
/// string, else the fallback.
pub open spec fn trace_summary_of(summary: crate::json::JsonView, fallback: Seq<char>) -> Seq<char> {
    match vget_str(summary, "summary"@) {
        Some(t) => t,
        None => match vget_str(summary, "text"@) {
            Some(t) => t,
            None => fallback,
        },
    }
}

/// The text a trace's summary shows.
pub fn trace_summary_text(summary: &JsonValue, fallback: String) -> (r: String)
    ensures
        r@ == trace_summary_of(json_view(*summary), fallback@),
{
    match vjson_get_str(summary, "summary") {
        Some(t) => t.clone(),
        None => match vjson_get_str(summary, "text") {
            Some(t) => t.clone(),
            None => fallback,
        },
    }
}

} // verus!
