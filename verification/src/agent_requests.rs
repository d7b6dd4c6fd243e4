//! The checks and choices of the agent commands: new worlds and how worlds
//! are listed, sessions and their player modes, where a session stands on
//! the timeline, the messages of session turns, time anchors, and the
//! requests about past lines.

use vstd::prelude::*;
use crate::json::{json_view, JsonValue, JsonView};
use crate::provider_bodies::members_view;
use crate::stable_order::{lemma_insert_ordered, lemma_ordered_unique, ordered_by, strict_order};
use crate::temporal_validator::{TimeAnchor, TimePrecision};
use crate::text::{
    chars_to_string, lemma_lex_irreflexive, lemma_lex_total, lemma_lex_transitive, lemma_lex_asymmetric,
    lex_lt, str_chars, str_eq, str_lt, trim, trim_chars,
};

verus! {

// ---------------------------------------------------------------------------
// Worlds
// ---------------------------------------------------------------------------

/// A world in the list of agent worlds.
#[derive(Debug, Clone)]
pub struct AgentWorldListItem {
    pub world_id: String,
    pub session_count: i64,
    pub active_session_count: i64,
    pub character_count: i64,
    pub mainline_time_anchor: Option<TimeAnchor>,
    pub updated_at: Option<String>,
}

/// A request to make a world.
#[derive(Debug, Clone)]
pub struct CreateAgentWorldInput {
    pub name: String,
}

/// A world is made under its trimmed name, which must not be blank.
pub fn check_world_name(input: &CreateAgentWorldInput) -> (r: Result<String, String>)
    ensures
        trim(input.name@).len() > 0 ==> (r matches Ok(n) && n@ == trim(input.name@)),
        trim(input.name@).len() == 0 ==> (r matches Err(e) && e@ == "World name must not be empty"@),
{
    let t = trim_chars(&str_chars(input.name.as_str()));
    if t.len() == 0 {
        Err("World name must not be empty".to_owned())
    } else {
        Ok(chars_to_string(&t))
    }
}

/// A world just made: no sessions or characters yet, at its mainline's
/// time, updated when its mainline was.
pub fn new_world_item(world_id: String, mainline_time_anchor: TimeAnchor, updated_at: String) -> (r: AgentWorldListItem)
    ensures
        r.world_id == world_id,
        r.session_count == 0,
        r.active_session_count == 0,
        r.character_count == 0,
        r.mainline_time_anchor == Some(mainline_time_anchor),
        r.updated_at == Some(updated_at),
{
    AgentWorldListItem {
        world_id,
        session_count: 0,
        active_session_count: 0,
        character_count: 0,
        mainline_time_anchor: Some(mainline_time_anchor),
        updated_at: Some(updated_at),
    }
}

pub open spec fn opt_view(o: Option<String>) -> Option<Seq<char>> {
    match o {
        Some(s) => Some(s@),
        None => None,
    }
}

/// The order of optional texts: none first, then texts in order.
pub open spec fn opt_lt(a: Option<Seq<char>>, b: Option<Seq<char>>) -> bool {
    match (a, b) {
        (None, Some(_)) => true,
        (Some(x), Some(y)) => lex_lt(x, y),
        _ => false,
    }
}

/// World `i` is listed before world `j`: it was updated later, or at the
/// same time and its id comes first, or the ids are the same and it came
/// first.
pub open spec fn world_prec(s: Seq<AgentWorldListItem>) -> spec_fn(int, int) -> bool {
    |i: int, j: int|
        opt_lt(opt_view(s[j].updated_at), opt_view(s[i].updated_at)) || (opt_view(s[i].updated_at) == opt_view(
            s[j].updated_at,
        ) && (lex_lt(s[i].world_id@, s[j].world_id@) || (s[i].world_id@ == s[j].world_id@ && i < j)))
}

/// The order in which worlds are listed.
pub open spec fn world_order(s: Seq<AgentWorldListItem>) -> Seq<int> {
    choose|o: Seq<int>| ordered_by(world_prec(s), o) && o.to_set() == Set::new(|i: int| 0 <= i < s.len())
}

proof fn lemma_opt_lt_props(a: Option<Seq<char>>, b: Option<Seq<char>>, c: Option<Seq<char>>)
    ensures
        !opt_lt(a, a),
        opt_lt(a, b) && opt_lt(b, c) ==> opt_lt(a, c),
        !(opt_lt(a, b) && opt_lt(b, a)),
        a == b || opt_lt(a, b) || opt_lt(b, a),
{
    match (a, b, c) {
        (Some(x), Some(y), Some(z)) => {
            lemma_lex_irreflexive(x);
            if lex_lt(x, y) && lex_lt(y, z) {
                lemma_lex_transitive(x, y, z);
            }
            lemma_lex_asymmetric(x, y);
            lemma_lex_total(x, y);
        },
        (Some(x), Some(y), None) => {
            lemma_lex_irreflexive(x);
            lemma_lex_asymmetric(x, y);
            lemma_lex_total(x, y);
        },
        (Some(x), _, _) => {
            lemma_lex_irreflexive(x);
        },
        _ => {},
    }
}

proof fn lemma_world_strict(s: Seq<AgentWorldListItem>)
    ensures
        strict_order(world_prec(s)),
{
    let prec = world_prec(s);
    assert forall|i: int| !#[trigger] prec(i, i) by {
        lemma_opt_lt_props(opt_view(s[i].updated_at), opt_view(s[i].updated_at), opt_view(s[i].updated_at));
        lemma_lex_irreflexive(s[i].world_id@);
    }
    assert forall|i: int, j: int, k: int| #[trigger] prec(i, j) && #[trigger] prec(j, k) implies prec(i, k) by {
        let ui = opt_view(s[i].updated_at);
        let uj = opt_view(s[j].updated_at);
        let uk = opt_view(s[k].updated_at);
        lemma_opt_lt_props(uk, uj, ui);
        lemma_opt_lt_props(uj, ui, uk);
        lemma_opt_lt_props(ui, uk, uj);
        if lex_lt(s[i].world_id@, s[j].world_id@) && lex_lt(s[j].world_id@, s[k].world_id@) {
            lemma_lex_transitive(s[i].world_id@, s[j].world_id@, s[k].world_id@);
        }
    }
}

fn opt_str_lt(a: &Option<String>, b: &Option<String>) -> (r: bool)
    ensures
        r == opt_lt(opt_view(*a), opt_view(*b)),
{
    match (a, b) {
        (None, Some(_)) => true,
        (Some(x), Some(y)) => str_lt(x.as_str(), y.as_str()),
        _ => false,
    }
}

fn opt_str_eq(a: &Option<String>, b: &Option<String>) -> (r: bool)
    ensures
        r == (opt_view(*a) == opt_view(*b)),
{
    match (a, b) {
        (None, None) => true,
        (Some(x), Some(y)) => str_eq(x.as_str(), y.as_str()),
        _ => false,
    }
}

/// World `a` comes before world `b`, their positions aside.
fn world_before(a: &AgentWorldListItem, b: &AgentWorldListItem) -> (r: bool)
    ensures
        r == (opt_lt(opt_view(b.updated_at), opt_view(a.updated_at)) || (opt_view(a.updated_at) == opt_view(
            b.updated_at,
        ) && lex_lt(a.world_id@, b.world_id@))),
{
    opt_str_lt(&b.updated_at, &a.updated_at) || (opt_str_eq(&a.updated_at, &b.updated_at) && str_lt(
        a.world_id.as_str(),
        b.world_id.as_str(),
    ))
}

/// The worlds as listed: the most recently updated first (worlds never
/// updated last), then by id; worlds alike in both keep their order.
pub fn sort_agent_worlds(worlds: Vec<AgentWorldListItem>) -> (r: Vec<AgentWorldListItem>)
    ensures
        r@.len() == worlds@.len(),
        forall|k: int| 0 <= k < worlds@.len() ==> #[trigger] r@[k] == worlds@[world_order(worlds@)[k]],
{
    let ghost src = worlds@;
    let ghost prec = world_prec(src);
    let n: usize = worlds.len();
    let mut rest = worlds;
    let mut out: Vec<AgentWorldListItem> = Vec::new();
    let ghost mut orig: Seq<int> = Seq::empty();
    let mut i: usize = 0;
    proof {
        lemma_world_strict(src);
    }
    while rest.len() > 0
        invariant
            i + rest@.len() == src.len(),
            src.len() == n,
            out@.len() == i,
            rest@ == src.skip(i as int),
            prec == world_prec(src),
            strict_order(prec),
            out@.len() == orig.len(),
            ordered_by(prec, orig),
            orig.to_set() == Set::new(|j: int| 0 <= j < i),
            forall|k: int| 0 <= k < orig.len() ==> 0 <= #[trigger] orig[k] < i,
            forall|k: int| 0 <= k < out@.len() ==> #[trigger] out@[k] == src[orig[k]],
        decreases rest@.len(),
    {
        let x = rest.remove(0);
        assert(x == src[i as int]);
        let mut p: usize = 0;
        while p < out.len() && !world_before(&x, &out[p])
            invariant
                p <= out@.len(),
                out@.len() == orig.len(),
                x == src[i as int],
                prec == world_prec(src),
                i < src.len(),
                forall|k: int| 0 <= k < orig.len() ==> 0 <= #[trigger] orig[k] < i,
                forall|k: int| 0 <= k < out@.len() ==> #[trigger] out@[k] == src[orig[k]],
                forall|q: int| 0 <= q < p ==> #[trigger] prec(orig[q], i as int),
            decreases out@.len() - p,
        {
            assert(out@[p as int] == src[orig[p as int]]);
            assert(orig[p as int] < i);
            proof {
                let y = src[orig[p as int]];
                lemma_opt_lt_props(opt_view(x.updated_at), opt_view(y.updated_at), opt_view(x.updated_at));
                lemma_lex_total(x.world_id@, y.world_id@);
            }
            p += 1;
        }
        proof {
            if p < out@.len() {
                assert(out@[p as int] == src[orig[p as int]]);
                assert(prec(i as int, orig[p as int]));
            }
            lemma_insert_ordered(prec, orig, p as int, i as int);
        }
        let ghost old_out = out@;
        let ghost old_orig = orig;
        out.insert(p, x);
        proof {
            orig = old_orig.take(p as int).push(i as int) + old_orig.skip(p as int);
            assert(Set::new(|j: int| 0 <= j < i).insert(i as int) =~= Set::new(|j: int| 0 <= j < i + 1));
            assert forall|k: int| 0 <= k < out@.len() implies #[trigger] out@[k] == src[orig[k]] by {
                if k < p {
                    assert(out@[k] == old_out[k] && orig[k] == old_orig[k]);
                } else if k > p {
                    assert(out@[k] == old_out[k - 1] && orig[k] == old_orig[k - 1]);
                }
            }
            assert forall|k: int| 0 <= k < orig.len() implies 0 <= #[trigger] orig[k] < i + 1 by {
                if k < p {
                    assert(orig[k] == old_orig[k]);
                } else if k > p {
                    assert(orig[k] == old_orig[k - 1]);
                }
            }
            assert(rest@ =~= src.skip(i + 1));
        }
        i += 1;
    }
    proof {
        assert(Set::new(|j: int| 0 <= j < i) =~= Set::new(|j: int| 0 <= j < src.len()));
        let c = world_order(src);
        assert(ordered_by(prec, orig) && orig.to_set() == Set::new(|j: int| 0 <= j < src.len()));
        lemma_ordered_unique(prec, orig, c);
    }
    out
}

// ---------------------------------------------------------------------------
// Sessions
// ---------------------------------------------------------------------------

/// Whom the player plays in a session.
#[derive(Debug, Clone, Copy, PartialEq, Eq)]
pub enum PlayerMode {
    Character,
    Director,
}

/// Where a session stands against the world's mainline.
#[derive(Debug, Clone, Copy, PartialEq, Eq)]
pub enum AgentSessionKind {
    Mainline,
    Retrospective,
    FuturePreview,
}

/// A request to open a session.
#[derive(Debug, Clone)]
pub struct CreateSessionInput {
    pub world_id: String,
    pub title: String,
    pub player_mode: PlayerMode,
    pub player_character_id: Option<String>,
    pub period_anchor: TimeAnchor,
}

/// A request to change whom the player plays.
#[derive(Debug, Clone)]
pub struct UpdatePlayerModeInput {
    pub world_id: String,
    pub session_id: String,
    pub player_mode: PlayerMode,
    pub player_character_id: Option<String>,
}

/// A player who plays a character names it; a director names none.
pub fn check_player_mode(mode: PlayerMode, player_character_id: &Option<String>) -> (r: Result<(), String>)
    ensures
        match mode {
            PlayerMode::Character => if player_character_id is None {
                r matches Err(e) && e@ == "Character mode requires player_character_id"@
            } else {
                r is Ok
            },
            PlayerMode::Director => if player_character_id is Some {
                r matches Err(e) && e@ == "Director mode must not have player_character_id"@
            } else {
                r is Ok
            },
        },
{
    match mode {
        PlayerMode::Character => if player_character_id.is_none() {
            Err("Character mode requires player_character_id".to_owned())
        } else {
            Ok(())
        },
        PlayerMode::Director => if player_character_id.is_some() {
            Err("Director mode must not have player_character_id".to_owned())
        } else {
            Ok(())
        },
    }
}

/// A session before the mainline's time looks back, one after it looks
/// ahead, one at it follows the mainline.
pub fn session_kind_for(period_ordinal: i64, mainline_ordinal: i64) -> (r: AgentSessionKind)
    ensures
        period_ordinal < mainline_ordinal ==> r == AgentSessionKind::Retrospective,
        period_ordinal > mainline_ordinal ==> r == AgentSessionKind::FuturePreview,
        period_ordinal == mainline_ordinal ==> r == AgentSessionKind::Mainline,
{
    if period_ordinal < mainline_ordinal {
        AgentSessionKind::Retrospective
    } else if period_ordinal > mainline_ordinal {
        AgentSessionKind::FuturePreview
    } else {
        AgentSessionKind::Mainline
    }
}

/// A session is reached only through its own world.
pub fn check_session_world(session_world_id: &str, requested_world_id: &str) -> (r: Result<(), String>)
    ensures
        r is Ok <==> session_world_id@ == requested_world_id@,
        r matches Err(e) ==> e@ == "Session does not belong to requested world"@,
{
    if str_eq(session_world_id, requested_world_id) {
        Ok(())
    } else {
        Err("Session does not belong to requested world".to_owned())
    }
}

/// A request to change the text of a session turn.
#[derive(Debug, Clone)]
pub struct UpdateAgentSessionTurnInput {
    pub world_id: String,
    pub session_id: String,
    pub session_turn_id: String,
    pub content: String,
}

/// A request to delete a session turn.
#[derive(Debug, Clone)]
pub struct DeleteAgentSessionTurnInput {
    pub world_id: String,
    pub session_id: String,
    pub session_turn_id: String,
}

/// A request to delete a session.
#[derive(Debug, Clone)]
pub struct DeleteAgentSessionInput {
    pub world_id: String,
    pub session_id: String,
}

/// A request to run a turn of a session.
#[derive(Debug, Clone)]
pub struct ProcessAgentTurnInput {
    pub world_id: String,
    pub session_id: String,
    pub content: String,
}

/// The text of a turn the player sends: trimmed, and not blank.
pub fn check_turn_content(content: &str) -> (r: Result<String, String>)
    ensures
        trim(content@).len() > 0 ==> (r matches Ok(t) && t@ == trim(content@)),
        trim(content@).len() == 0 ==> (r matches Err(e) && e@ == "Agent turn content must not be empty"@),
{
    let t = trim_chars(&str_chars(content));
    if t.len() == 0 {
        Err("Agent turn content must not be empty".to_owned())
    } else {
        Ok(chars_to_string(&t))
    }
}

/// How the player's text is read: as a character's speech and action, or
/// as a director's word on the scene.
pub fn input_kind_of(mode: PlayerMode) -> (r: &'static str)
    ensures
        r@ == (match mode {
            PlayerMode::Character => "character_roleplay"@,
            PlayerMode::Director => "director_or_scene"@,
        }),
{
    match mode {
        PlayerMode::Character => "character_roleplay",
        PlayerMode::Director => "director_or_scene",
    }
}

/// The members with `key` set to `value`: in place where the key is there,
/// else added at the end.
pub open spec fn set_member(m: Seq<(Seq<char>, JsonView)>, key: Seq<char>, value: JsonView) -> Seq<(Seq<char>, JsonView)> {
    match crate::json::vmember_index_from(m, key, 0) {
        Some(i) => m.update(i, (key, value)),
        None => m.push((key, value)),
    }
}

/// The message of a session turn with its text changed: an object gets the
/// text as its `content`, a string becomes the text, anything else becomes
/// an object holding only the text as `content`.
pub open spec fn turn_message_with(message: JsonView, content: Seq<char>) -> JsonView {
    match message {
        JsonView::Object(m) => JsonView::Object(set_member(m, "content"@, JsonView::Str(content))),
        JsonView::Str(_) => JsonView::Str(content),
        _ => JsonView::Object(seq![("content"@, JsonView::Str(content))]),
    }
}

proof fn lemma_vmember_range(m: Seq<(Seq<char>, JsonView)>, key: Seq<char>, i: int)
    requires
        0 <= i,
    ensures
        crate::json::vmember_index_from(m, key, i) matches Some(j) ==> i <= j < m.len() && m[j].0 == key,
    decreases m.len() - i,
{
    if i < m.len() {
        lemma_vmember_range(m, key, i + 1);
    }
}

/// The message of a session turn with its text changed.
pub fn updated_turn_message(message: JsonValue, content: String) -> (r: JsonValue)
    ensures
        json_view(r) == turn_message_with(json_view(message), content@),
{
    let ghost c = content@;
    match message {
        JsonValue::Object(m) => {
            let ghost mv = members_view(m@);
            assert(json_view(JsonValue::Object(m))->Object_0 =~= mv);
            proof {
                lemma_vmember_range(mv, "content"@, 0);
            }
            let mut m = m;
            let mut i: usize = 0;
            while i < m.len() && !str_eq(m[i].0.as_str(), "content")
                invariant
                    i <= m.len(),
                    mv == members_view(m@),
                    crate::json::vmember_index_from(mv, "content"@, 0) == crate::json::vmember_index_from(
                        mv,
                        "content"@,
                        i as int,
                    ),
                decreases m.len() - i,
            {
                assert(mv[i as int].0 == m@[i as int].0@);
                i += 1;
            }
            if i < m.len() {
                assert(mv[i as int].0 == m@[i as int].0@);
                let (k, _old) = m.remove(i);
                m.insert(i, (k, JsonValue::String(content)));
                assert(members_view(m@) =~= mv.update(i as int, ("content"@, JsonView::Str(c))));
            } else {
                m.push(("content".to_owned(), JsonValue::String(content)));
                assert(members_view(m@) =~= mv.push(("content"@, JsonView::Str(c))));
            }
            let r = JsonValue::Object(m);
            assert(json_view(r)->Object_0 =~= members_view(m@));
            r
        },
        JsonValue::String(_) => JsonValue::String(content),
        _ => {
            let mut m: Vec<(String, JsonValue)> = Vec::new();
            m.push(("content".to_owned(), JsonValue::String(content)));
            assert(members_view(m@) =~= seq![("content"@, JsonView::Str(c))]);
            let r = JsonValue::Object(m);
            assert(json_view(r)->Object_0 =~= members_view(m@));
            r
        },
    }
}

// ---------------------------------------------------------------------------
// Time anchors
// ---------------------------------------------------------------------------

/// A request to move a world's mainline to a turn.
#[derive(Debug, Clone)]
pub struct AdvanceMainlineInput {
    pub world_id: String,
    pub turn_id: String,
    pub new_time_anchor: TimeAnchor,
}

/// A request for a time anchor.
#[derive(Debug, Clone)]
pub struct CreateTimeAnchorInput {
    pub ordinal: i64,
    pub display_text: String,
    pub precision: Option<TimePrecision>,
    pub calendar_id: Option<String>,
}

/// A time anchor: on the default calendar and exact where the request does
/// not say.
pub fn create_time_anchor(input: CreateTimeAnchorInput) -> (r: TimeAnchor)
    ensures
        r.calendar_id@ == (match input.calendar_id {
            Some(c) => c@,
            None => "default"@,
        }),
        r.ordinal == input.ordinal,
        r.precision == (match input.precision {
            Some(p) => p,
            None => TimePrecision::Exact,
        }),
        r.display_text == input.display_text,
{
    TimeAnchor {
        calendar_id: match input.calendar_id {
            Some(c) => c,
            None => "default".to_owned(),
        },
        ordinal: input.ordinal,
        precision: match input.precision {
            Some(p) => p,
            None => TimePrecision::Exact,
        },
        display_text: input.display_text,
    }
}

/// Two time anchors to compare.
#[derive(Debug, Clone)]
pub struct CompareTimeAnchorsInput {
    pub anchor1: TimeAnchor,
    pub anchor2: TimeAnchor,
}

/// How far the first anchor lies after the second, in ordinals.
pub fn compare_time_anchors(input: CompareTimeAnchorsInput) -> (r: i64)
    requires
        i64::MIN <= input.anchor1.ordinal - input.anchor2.ordinal <= i64::MAX,
    ensures
        r == input.anchor1.ordinal - input.anchor2.ordinal,
{
    input.anchor1.ordinal - input.anchor2.ordinal
}

// ---------------------------------------------------------------------------
// Past lines
// ---------------------------------------------------------------------------

/// A request for the truth guidance of a session of the past.
#[derive(Debug, Clone)]
pub struct GetTruthGuidanceInput {
    pub world_id: String,
    pub session_id: String,
}

/// A request for the open detail slots of a session of the past.
#[derive(Debug, Clone)]
pub struct GetOpenDetailSlotsInput {
    pub world_id: String,
    pub session_id: String,
}

/// The kinds of detail a slot of a past event leaves open.
#[derive(Debug, Clone, Copy, PartialEq, Eq)]
pub enum DetailKind {
    Motive,
    Dialogue,
    Witness,
    Route,
    LocalCause,
}

/// A request to fill an open detail slot.
#[derive(Debug)]
pub struct FillDetailSlotInput {
    pub world_id: String,
    pub session_id: String,
    pub session_turn_id: String,
    pub scene_turn_id: Option<String>,
    pub event_id: String,
    pub slot_id: String,
    pub detail_kind: String,
    pub fill_content: JsonValue,
}

pub open spec fn detail_kind_of(name: Seq<char>) -> Option<DetailKind> {
    if name == "motive"@ {
        Some(DetailKind::Motive)
    } else if name == "dialogue"@ {
        Some(DetailKind::Dialogue)
    } else if name == "witness"@ {
        Some(DetailKind::Witness)
    } else if name == "route"@ {
        Some(DetailKind::Route)
    } else if name == "local_cause"@ {
        Some(DetailKind::LocalCause)
    } else {
        None
    }
}

/// The kind of detail a fill names.
pub fn parse_detail_kind(name: &str) -> (r: Result<DetailKind, String>)
    ensures
        match detail_kind_of(name@) {
            Some(k) => r matches Ok(x) && x == k,
            None => r matches Err(e) && e@ == "Unknown detail kind: "@ + name@,
        },
{
    if str_eq(name, "motive") {
        Ok(DetailKind::Motive)
    } else if str_eq(name, "dialogue") {
        Ok(DetailKind::Dialogue)
    } else if str_eq(name, "witness") {
        Ok(DetailKind::Witness)
    } else if str_eq(name, "route") {
        Ok(DetailKind::Route)
    } else if str_eq(name, "local_cause") {
        Ok(DetailKind::LocalCause)
    } else {
        Err(crate::text::join_str("Unknown detail kind: ", name))
    }
}

/// A request for the candidate truths of a session.
#[derive(Debug, Clone)]
pub struct GetProvisionalCandidatesInput {
    pub world_id: String,
    pub session_id: String,
    pub status_filter: Option<String>,
}

/// Which candidate truths are listed.
#[derive(Debug, Clone, Copy, PartialEq, Eq)]
pub enum CandidateFilter {
    Pending,
    All,
}

/// Only the pending candidates where the filter says `pending`; all of the
/// session's otherwise.
pub fn candidate_filter(input: &GetProvisionalCandidatesInput) -> (r: CandidateFilter)
    ensures
        r == (match input.status_filter {
            Some(s) if s@ == "pending"@ => CandidateFilter::Pending,
            _ => CandidateFilter::All,
        }),
{
    match &input.status_filter {
        Some(s) => if str_eq(s.as_str(), "pending") {
            CandidateFilter::Pending
        } else {
            CandidateFilter::All
        },
        None => CandidateFilter::All,
    }
}

/// A request to make candidate truths canon.
#[derive(Debug, Clone)]
pub struct PromoteCandidatesInput {
    pub world_id: String,
    pub provisional_ids: Vec<String>,
    pub scene_turn_id: String,
}

/// A request to mark a candidate truth as not canon.
#[derive(Debug, Clone)]
pub struct MarkNonCanonInput {
    pub world_id: String,
    pub provisional_id: String,
}

/// A request to weigh whether a session's truths can become canon.
#[derive(Debug, Clone)]
pub struct EvaluateCanonEligibilityInput {
    pub world_id: String,
    pub session_id: String,
}

/// A request to make a session's eligible truths canon.
#[derive(Debug, Clone)]
pub struct PromoteToCanonInput {
    pub world_id: String,
    pub session_id: String,
    pub scene_turn_id: String,
}

/// A request for the conflicts of a session.
#[derive(Debug, Clone)]
pub struct GetSessionConflictsInput {
    pub world_id: String,
    pub session_id: String,
}

} // verus!
