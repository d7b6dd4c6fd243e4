//! The `WHERE` clauses of log listings: which of a filter's fields become
//! conditions, in what order, and the values bound to them.

use vstd::prelude::*;
use crate::log_format::{clean_search, search_text, LogRecordFilter};
use crate::text::{chars_to_string, extend_chars, str_chars, trim, trim_chars};

verus! {

/// A `WHERE` clause with `?` placeholders, and the values bound to them in
/// order.
#[derive(Debug, Clone)]
pub struct SqlWhere {
    pub sql: String,
    pub binds: Vec<String>,
}

/// One condition: its text, and the values it binds.
pub type CondView = (Seq<char>, Seq<Seq<char>>);

/// The value of a text field as a condition takes it: trimmed; none where
/// missing or blank.
pub open spec fn field_value(v: Option<String>) -> Option<Seq<char>> {
    match v {
        Some(s) => if trim(s@).len() > 0 {
            Some(trim(s@))
        } else {
            None
        },
        None => None,
    }
}

/// `prefix.column = ?` where the field has a value.
pub open spec fn eq_cond(prefix: Seq<char>, column: Seq<char>, v: Option<String>) -> Seq<CondView> {
    match field_value(v) {
        Some(t) => seq![(prefix + "."@ + column + " = ?"@, seq![t])],
        None => Seq::empty(),
    }
}

/// `prefix.column op ?` where the field has a value.
pub open spec fn time_cond(prefix: Seq<char>, column: Seq<char>, op: Seq<char>, v: Option<String>) -> Seq<CondView> {
    match field_value(v) {
        Some(t) => seq![(prefix + "."@ + column + " "@ + op + " ?"@, seq![t])],
        None => Seq::empty(),
    }
}

/// The context a record belongs to: world, session, scene turn, trace and
/// character, then the time bounds.
pub open spec fn common_conds(prefix: Seq<char>, f: LogRecordFilter) -> Seq<CondView> {
    eq_cond(prefix, "world_id"@, f.world_id) + eq_cond(prefix, "session_id"@, f.session_id) + eq_cond(
        prefix,
        "scene_turn_id"@,
        f.scene_turn_id,
    ) + eq_cond(prefix, "trace_id"@, f.trace_id) + eq_cond(prefix, "character_id"@, f.character_id)
        + time_cond(prefix, "created_at"@, ">="@, f.since) + time_cond(prefix, "created_at"@, "<="@, f.until)
}

/// `(c1 LIKE ? OR c2 LIKE ? ...)` over the columns, each bound to the
/// search text within `%`.
pub open spec fn like_text(cols: Seq<Seq<char>>) -> Seq<char>
    decreases cols.len(),
{
    if cols.len() == 0 {
        Seq::empty()
    } else if cols.len() == 1 {
        cols[0] + " LIKE ?"@
    } else {
        like_text(cols.drop_last()) + " OR "@ + cols.last() + " LIKE ?"@
    }
}

pub open spec fn search_cond(cols: Seq<Seq<char>>, f: LogRecordFilter) -> Seq<CondView> {
    match search_text(f.search) {
        Some(s) => seq![(" ("@ + like_text(cols) + ")"@, Seq::new(cols.len(), |i: int| "%"@ + s + "%"@))],
        None => Seq::empty(),
    }
}

pub open spec fn llm_search_columns() -> Seq<Seq<char>> {
    seq!["l.request_id"@, "l.provider"@, "l.model"@, "l.llm_node"@, "l.error_summary"@]
}

pub open spec fn event_search_columns() -> Seq<Seq<char>> {
    seq!["e.event_id"@, "e.event_type"@, "e.message"@, "e.source_module"@]
}

pub open spec fn trace_search_columns() -> Seq<Seq<char>> {
    seq!["t.trace_id"@, "t.scene_turn_id"@, "t.summary"@]
}

/// Model calls: the context, then request, status, mode, provider, model
/// and node, then the search over request id, provider, model, node and
/// error summary.
pub open spec fn llm_conds(f: LogRecordFilter) -> Seq<CondView> {
    common_conds("l"@, f) + eq_cond("l"@, "request_id"@, f.request_id) + eq_cond("l"@, "status"@, f.status)
        + eq_cond("l"@, "mode"@, f.mode) + eq_cond("l"@, "provider"@, f.provider) + eq_cond(
        "l"@,
        "model"@,
        f.model,
    ) + eq_cond("l"@, "llm_node"@, f.llm_node) + search_cond(llm_search_columns(), f)
}

/// Events: the context, then request and level, then the search over id,
/// type, message and source module.
pub open spec fn event_conds(f: LogRecordFilter) -> Seq<CondView> {
    common_conds("e"@, f) + eq_cond("e"@, "request_id"@, f.request_id) + eq_cond("e"@, "level"@, f.level)
        + search_cond(event_search_columns(), f)
}

/// Traces: session, scene turn, trace, character, and the filter's status
/// as the turn's runtime status, then the time bounds, then the search over
/// trace id, scene turn and summary.
pub open spec fn trace_conds(f: LogRecordFilter) -> Seq<CondView> {
    eq_cond("t"@, "session_id"@, f.session_id) + eq_cond("t"@, "scene_turn_id"@, f.scene_turn_id) + eq_cond(
        "t"@,
        "trace_id"@,
        f.trace_id,
    ) + eq_cond("t"@, "character_id"@, f.character_id) + eq_cond("t"@, "runtime_turn_status"@, f.status)
        + time_cond("t"@, "created_at"@, ">="@, f.since) + time_cond("t"@, "created_at"@, "<="@, f.until)
        + search_cond(trace_search_columns(), f)
}

/// The clause of a list of conditions: ` WHERE ` before the first, ` AND `
/// before each other.
pub open spec fn clause_sql(cs: Seq<CondView>) -> Seq<char>
    decreases cs.len(),
{
    if cs.len() == 0 {
        Seq::empty()
    } else {
        clause_sql(cs.drop_last()) + (if cs.len() == 1 {
            " WHERE "@
        } else {
            " AND "@
        }) + cs.last().0
    }
}

pub open spec fn clause_binds(cs: Seq<CondView>) -> Seq<Seq<char>>
    decreases cs.len(),
{
    if cs.len() == 0 {
        Seq::empty()
    } else {
        clause_binds(cs.drop_last()) + cs.last().1
    }
}

pub open spec fn where_view(w: SqlWhere) -> (Seq<char>, Seq<Seq<char>>) {
    (w.sql@, w.binds@.map_values(|b: String| b@))
}

pub open spec fn clause_of(cs: Seq<CondView>) -> (Seq<char>, Seq<Seq<char>>) {
    (clause_sql(cs), clause_binds(cs))
}

/// A condition: its text and the values it binds.
#[derive(Debug, Clone)]
pub struct SqlCond {
    pub text: String,
    pub binds: Vec<String>,
}

pub open spec fn strs(s: Seq<String>) -> Seq<Seq<char>> {
    s.map_values(|b: String| b@)
}

pub open spec fn cond_view(c: SqlCond) -> CondView {
    (c.text@, strs(c.binds@))
}

pub open spec fn conds_view(s: Seq<SqlCond>) -> Seq<CondView> {
    s.map_values(|c: SqlCond| cond_view(c))
}

fn push_one(out: &mut Vec<SqlCond>, c: SqlCond)
    ensures
        conds_view(final(out)@) == conds_view(old(out)@).push(cond_view(c)),
{
    let ghost v = cond_view(c);
    out.push(c);
    assert(conds_view(out@) =~= conds_view(old(out)@).push(v));
}

fn trimmed_value(v: &Option<String>) -> (r: Option<String>)
    ensures
        match r {
            Some(t) => field_value(*v) == Some(t@),
            None => field_value(*v) is None,
        },
{
    match v {
        Some(s) => {
            let t = trim_chars(&str_chars(s.as_str()));
            if t.len() > 0 {
                Some(chars_to_string(&t))
            } else {
                None
            }
        },
        None => None,
    }
}

fn cond_text(parts: &Vec<&str>) -> (r: String)
    ensures
        r@ == concat_all(parts@.map_values(|p: &str| p@)),
{
    let mut v: Vec<char> = Vec::new();
    let mut i: usize = 0;
    while i < parts.len()
        invariant
            i <= parts.len(),
            v@ == concat_all(parts@.take(i as int).map_values(|p: &str| p@)),
        decreases parts.len() - i,
    {
        assert(parts@.take((i + 1) as int).map_values(|p: &str| p@).drop_last() =~= parts@.take(
            i as int,
        ).map_values(|p: &str| p@));
        extend_chars(&mut v, &str_chars(parts[i]));
        i += 1;
    }
    assert(parts@.take(parts.len() as int) =~= parts@);
    chars_to_string(&v)
}

pub open spec fn concat_all(s: Seq<Seq<char>>) -> Seq<char>
    decreases s.len(),
{
    if s.len() == 0 {
        Seq::empty()
    } else {
        concat_all(s.drop_last()) + s.last()
    }
}

fn push_eq(out: &mut Vec<SqlCond>, prefix: &str, column: &str, value: &Option<String>)
    ensures
        conds_view(final(out)@) == conds_view(old(out)@) + eq_cond(prefix@, column@, *value),
{
    match trimmed_value(value) {
        Some(t) => {
            let text = cond_text(&vec![prefix, ".", column, " = ?"]);
            proof {
                reveal_with_fuel(concat_all, 5);
            }
            let binds = vec![t];
            assert(strs(binds@) =~= seq![binds@[0]@]);
            push_one(out, SqlCond { text, binds });
            assert(conds_view(out@) =~= conds_view(old(out)@) + eq_cond(prefix@, column@, *value));
        },
        None => {
            assert(conds_view(out@) =~= conds_view(old(out)@) + eq_cond(prefix@, column@, *value));
        },
    }
}

fn push_time(out: &mut Vec<SqlCond>, prefix: &str, column: &str, op: &str, value: &Option<String>)
    ensures
        conds_view(final(out)@) == conds_view(old(out)@) + time_cond(prefix@, column@, op@, *value),
{
    match trimmed_value(value) {
        Some(t) => {
            let text = cond_text(&vec![prefix, ".", column, " ", op, " ?"]);
            proof {
                reveal_with_fuel(concat_all, 7);
            }
            let binds = vec![t];
            assert(strs(binds@) =~= seq![binds@[0]@]);
            push_one(out, SqlCond { text, binds });
            assert(conds_view(out@) =~= conds_view(old(out)@) + time_cond(prefix@, column@, op@, *value));
        },
        None => {
            assert(conds_view(out@) =~= conds_view(old(out)@) + time_cond(prefix@, column@, op@, *value));
        },
    }
}

fn push_search(out: &mut Vec<SqlCond>, cols: &Vec<&str>, filter: &LogRecordFilter)
    requires
        cols.len() > 0,
    ensures
        conds_view(final(out)@) == conds_view(old(out)@) + search_cond(cols@.map_values(|c: &str| c@), *filter),
{
    let ghost cv = cols@.map_values(|c: &str| c@);
    match clean_search(&filter.search) {
        Some(s) => {
            let mut like = str_chars("%");
            extend_chars(&mut like, &str_chars(s.as_str()));
            extend_chars(&mut like, &str_chars("%"));
            let like_s = chars_to_string(&like);
            let mut text = str_chars(" (");
            let mut binds: Vec<String> = Vec::new();
            let mut i: usize = 0;
            while i < cols.len()
                invariant
                    0 < cols.len(),
                    i <= cols.len(),
                    cv == cols@.map_values(|c: &str| c@),
                    text@ == " ("@ + like_text(cv.take(i as int)),
                    strs(binds@) == Seq::new(i as nat, |k: int| like_s@),
                decreases cols.len() - i,
            {
                let ghost t0 = text@;
                let ghost b0 = binds@;
                assert(cv.take((i + 1) as int).drop_last() =~= cv.take(i as int));
                if i > 0 {
                    extend_chars(&mut text, &str_chars(" OR "));
                } else {
                    assert(like_text(cv.take(0)) =~= Seq::<char>::empty());
                    assert(text@ =~= " ("@);
                }
                extend_chars(&mut text, &str_chars(cols[i]));
                extend_chars(&mut text, &str_chars(" LIKE ?"));
                binds.push(like_s.clone());
                assert(strs(binds@) =~= strs(b0).push(like_s@));
                assert(strs(binds@) =~= Seq::new((i + 1) as nat, |k: int| like_s@));
                if i > 0 {
                    assert(text@ =~= " ("@ + like_text(cv.take((i + 1) as int)));
                } else {
                    assert(cv.take(1).len() == 1);
                    assert(text@ =~= " ("@ + like_text(cv.take((i + 1) as int)));
                }
                i += 1;
            }
            assert(cv.take(cols.len() as int) =~= cv);
            extend_chars(&mut text, &str_chars(")"));
            let c = SqlCond { text: chars_to_string(&text), binds };
            push_one(out, c);
            assert(conds_view(out@) =~= conds_view(old(out)@) + search_cond(cv, *filter));
        },
        None => {
            assert(conds_view(out@) =~= conds_view(old(out)@) + search_cond(cv, *filter));
        },
    }
}

fn push_common(out: &mut Vec<SqlCond>, prefix: &str, f: &LogRecordFilter)
    ensures
        conds_view(final(out)@) == conds_view(old(out)@) + common_conds(prefix@, *f),
{
    push_eq(out, prefix, "world_id", &f.world_id);
    push_eq(out, prefix, "session_id", &f.session_id);
    push_eq(out, prefix, "scene_turn_id", &f.scene_turn_id);
    push_eq(out, prefix, "trace_id", &f.trace_id);
    push_eq(out, prefix, "character_id", &f.character_id);
    push_time(out, prefix, "created_at", ">=", &f.since);
    push_time(out, prefix, "created_at", "<=", &f.until);
    assert(conds_view(out@) =~= conds_view(old(out)@) + common_conds(prefix@, *f));
}

/// The clause of a list of conditions.
pub fn render_where(conds: &Vec<SqlCond>) -> (r: SqlWhere)
    ensures
        where_view(r) == clause_of(conds_view(conds@)),
{
    let mut sql: Vec<char> = Vec::new();
    let mut binds: Vec<String> = Vec::new();
    let mut i: usize = 0;
    while i < conds.len()
        invariant
            i <= conds.len(),
            sql@ == clause_sql(conds_view(conds@).take(i as int)),
            strs(binds@) == clause_binds(conds_view(conds@).take(i as int)),
        decreases conds.len() - i,
    {
        let ghost cs = conds_view(conds@).take((i + 1) as int);
        assert(cs.drop_last() =~= conds_view(conds@).take(i as int));
        if i == 0 {
            extend_chars(&mut sql, &str_chars(" WHERE "));
        } else {
            extend_chars(&mut sql, &str_chars(" AND "));
        }
        extend_chars(&mut sql, &str_chars(conds[i].text.as_str()));
        let ghost b0 = binds@;
        let bs = &conds[i].binds;
        let mut j: usize = 0;
        while j < bs.len()
            invariant
                j <= bs.len(),
                strs(binds@) == strs(b0) + strs(bs@.take(j as int)),
            decreases bs.len() - j,
        {
            let ghost before = binds@;
            binds.push(bs[j].clone());
            assert(strs(binds@) =~= strs(before).push(bs@[j as int]@));
            assert(strs(bs@.take((j + 1) as int)) =~= strs(bs@.take(j as int)).push(bs@[j as int]@));
            j += 1;
        }
        assert(bs@.take(bs.len() as int) =~= bs@);
        assert(cs.last() == cond_view(conds@[i as int]));
        i += 1;
    }
    assert(conds_view(conds@).take(conds.len() as int) =~= conds_view(conds@));
    let r = SqlWhere { sql: chars_to_string(&sql), binds };
    assert(strs(r.binds@) =~= r.binds@.map_values(|b: String| b@));
    r
}

/// The `WHERE` clause of a listing of model calls.
pub fn llm_where(filter: &LogRecordFilter) -> (r: SqlWhere)
    ensures
        where_view(r) == clause_of(llm_conds(*filter)),
{
    let mut conds: Vec<SqlCond> = Vec::new();
    assert(conds_view(conds@) =~= Seq::empty());
    push_common(&mut conds, "l", filter);
    push_eq(&mut conds, "l", "request_id", &filter.request_id);
    push_eq(&mut conds, "l", "status", &filter.status);
    push_eq(&mut conds, "l", "mode", &filter.mode);
    push_eq(&mut conds, "l", "provider", &filter.provider);
    push_eq(&mut conds, "l", "model", &filter.model);
    push_eq(&mut conds, "l", "llm_node", &filter.llm_node);
    let cols = vec!["l.request_id", "l.provider", "l.model", "l.llm_node", "l.error_summary"];
    assert(cols@.map_values(|c: &str| c@) =~= llm_search_columns());
    push_search(&mut conds, &cols, filter);
    assert(conds_view(conds@) =~= llm_conds(*filter));
    render_where(&conds)
}

/// The `WHERE` clause of a listing of events.
pub fn event_where(filter: &LogRecordFilter) -> (r: SqlWhere)
    ensures
        where_view(r) == clause_of(event_conds(*filter)),
{
    let mut conds: Vec<SqlCond> = Vec::new();
    assert(conds_view(conds@) =~= Seq::empty());
    push_common(&mut conds, "e", filter);
    push_eq(&mut conds, "e", "request_id", &filter.request_id);
    push_eq(&mut conds, "e", "level", &filter.level);
    let cols = vec!["e.event_id", "e.event_type", "e.message", "e.source_module"];
    assert(cols@.map_values(|c: &str| c@) =~= event_search_columns());
    push_search(&mut conds, &cols, filter);
    assert(conds_view(conds@) =~= event_conds(*filter));
    render_where(&conds)
}

/// The `WHERE` clause of a listing of turn traces.
pub fn trace_where(filter: &LogRecordFilter) -> (r: SqlWhere)
    ensures
        where_view(r) == clause_of(trace_conds(*filter)),
{
    let mut conds: Vec<SqlCond> = Vec::new();
    assert(conds_view(conds@) =~= Seq::empty());
    push_eq(&mut conds, "t", "session_id", &filter.session_id);
    push_eq(&mut conds, "t", "scene_turn_id", &filter.scene_turn_id);
    push_eq(&mut conds, "t", "trace_id", &filter.trace_id);
    push_eq(&mut conds, "t", "character_id", &filter.character_id);
    push_eq(&mut conds, "t", "runtime_turn_status", &filter.status);
    push_time(&mut conds, "t", "created_at", ">=", &filter.since);
    push_time(&mut conds, "t", "created_at", "<=", &filter.until);
    let cols = vec!["t.trace_id", "t.scene_turn_id", "t.summary"];
    assert(cols@.map_values(|c: &str| c@) =~= trace_search_columns());
    push_search(&mut conds, &cols, filter);
    assert(conds_view(conds@) =~= trace_conds(*filter));
    render_where(&conds)
}

} // verus!
