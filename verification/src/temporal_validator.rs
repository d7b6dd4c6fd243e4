//! The temporal consistency validator: checks proposed truths about the
//! past against the hard constraints the timeline already fixes.

use vstd::prelude::*;
use crate::json::{json_eq, json_view, vas_str, vget, vget_array, vget_i64, vget_str, views, vjson_as_str, vjson_get, vjson_get_array, vjson_get_i64, vjson_get_str, JsonNumber, JsonValue, JsonView};
use crate::quantity::Real;
use crate::text::{contains, contains_seq, join_str, seq_eq, starts_with, str_chars, str_eq, strings_view, sub_chars, has_prefix};
use crate::turn_rules::{lowercase, to_lowercase};
use crate::words::{count_common, distinct, split_words, seqs_view, word_set, words};

verus! {

/// The temporal consistency validator.
pub struct TemporalConsistencyValidator;

#[derive(Debug, Clone, Copy, PartialEq, Eq, Structural)]
pub enum TimePrecision {
    Exact,
    Hour,
    Day,
    Month,
    Year,
}

/// A point of story time on a calendar.
#[derive(Debug, Clone)]
pub struct TimeAnchor {
    pub calendar_id: String,
    pub ordinal: i64,
    pub precision: TimePrecision,
    pub display_text: String,
}

#[derive(Debug, Clone, Copy, PartialEq, Eq, Structural)]
pub enum TruthConstraintKind {
    RequiredOutcome,
    ForbiddenOutcome,
    KnownAfterEffect,
}

/// A fact about the past that a proposed truth must respect.
#[derive(Debug)]
pub struct TruthConstraint {
    pub constraint_id: String,
    pub source_knowledge_id: String,
    pub constraint_kind: TruthConstraintKind,
    pub applies_to_refs: Vec<String>,
    pub structured_payload: JsonValue,
}

/// What the timeline fixes for a period.
#[derive(Debug)]
pub struct TruthGuidance {
    pub session_id: String,
    pub period_anchor: TimeAnchor,
    pub related_event_ids: Vec<String>,
    pub hard_constraints: Vec<TruthConstraint>,
}

/// A truth a session proposes before it is canon.
#[derive(Debug)]
pub struct ProvisionalTruthCandidate {
    pub provisional_id: String,
    pub source_session_id: String,
    pub source_session_turn_id: String,
    pub source_scene_turn_id: Option<String>,
    pub source_kind: String,
    pub payload: JsonValue,
    pub confidence: Real,
}

#[derive(Debug, Clone, Copy, PartialEq, Eq, Structural)]
pub enum ConflictSeverity {
    Hard,
    Soft,
}

/// A conflict between a proposed truth and the timeline.
#[derive(Debug)]
pub struct ConflictReport {
    pub conflict_id: String,
    pub session_id: String,
    pub session_turn_id: String,
    pub scene_turn_id: Option<String>,
    pub severity: ConflictSeverity,
    pub source_constraint_ids: Vec<String>,
    pub affected_provisional_ids: Vec<String>,
    pub summary: JsonValue,
    /// When the conflict was found, in RFC 3339.
    pub created_at: String,
    pub resolved_at: Option<String>,
}

/// An outcome a historical event requires or forbids.
#[derive(Debug, Clone)]
pub struct EventOutcome {
    pub outcome_id: String,
    /// The name of the outcome's domain.
    pub domain: String,
    pub subject_id: String,
    pub target_id: Option<String>,
    pub description: String,
}

/// A fact that holds from a point of story time after an event.
#[derive(Debug, Clone)]
pub struct AfterEffect {
    pub fact_ref: String,
    pub valid_from_ordinal: i64,
}

/// What a historical event fixes.
#[derive(Debug, Clone)]
pub struct HistoricalEventContent {
    pub event_id: String,
    pub required_outcomes: Vec<EventOutcome>,
    pub forbidden_outcomes: Vec<EventOutcome>,
    pub known_after_effects: Vec<AfterEffect>,
}

// ---------------------------------------------------------------------------
// Text
// ---------------------------------------------------------------------------

/// Negative and positive openings of the same statement.
pub open spec fn negation_pairs() -> Seq<(Seq<char>, Seq<char>)> {
    seq![
        ("not "@, ""@),
        ("never "@, ""@),
        ("fails to "@, ""@),
        ("cannot "@, "can "@),
        ("won't "@, "will "@),
        ("didn't "@, "did "@),
        ("doesn't "@, "does "@),
        ("isn't "@, "is "@),
        ("wasn't "@, "was "@),
    ]
}

/// `a` opens with `neg`, `b` with `pos`, and the rest is the same.
pub open spec fn negates_with(a: Seq<char>, b: Seq<char>, neg: Seq<char>, pos: Seq<char>) -> bool {
    starts_with(a, neg) && starts_with(b, pos) && a.skip(neg.len() as int) == b.skip(pos.len() as int)
}

/// One text negates the other, ignoring case: one opens with a negation
/// where the other opens with its positive form, and the rest is the same.
pub open spec fn negation_of(a: Seq<char>, b: Seq<char>) -> bool {
    let la = lowercase(a);
    let lb = lowercase(b);
    exists|k: int|
        0 <= k < negation_pairs().len() && (negates_with(
            la,
            lb,
            #[trigger] negation_pairs()[k].0,
            negation_pairs()[k].1,
        ) || negates_with(lb, la, negation_pairs()[k].0, negation_pairs()[k].1))
}

/// Two descriptions name the same outcome, ignoring case: equal, one
/// within the other, or sharing more than half of all their words.
pub open spec fn similar(a: Seq<char>, b: Seq<char>) -> bool {
    let la = lowercase(a);
    let lb = lowercase(b);
    let wa = word_set(la);
    let wb = word_set(lb);
    la == lb || contains(la, lb) || contains(lb, la) || (wa.len() > 0 && wb.len() > 0 && 2
        * wa.intersect(wb).len() > (wa + wb).len())
}

fn opens_and_rest(a: &Vec<char>, b: &Vec<char>, neg: &str, pos: &str) -> (r: bool)
    ensures
        r == negates_with(a@, b@, neg@, pos@),
{
    let n = str_chars(neg);
    let p = str_chars(pos);
    if !has_prefix(a, &n) || !has_prefix(b, &p) {
        return false;
    }
    let ra = sub_chars(a, n.len(), a.len());
    let rb = sub_chars(b, p.len(), b.len());
    assert(ra@ =~= a@.skip(n.len() as int));
    assert(rb@ =~= b@.skip(p.len() as int));
    seq_eq(&ra, &rb)
}

impl TemporalConsistencyValidator {
    /// Whether one text negates the other.
    pub fn is_negation_of(text_a: &str, text_b: &str) -> (r: bool)
        ensures
            r == negation_of(text_a@, text_b@),
    {
        let la = str_chars(to_lowercase(text_a).as_str());
        let lb = str_chars(to_lowercase(text_b).as_str());
        let pairs: Vec<(&str, &str)> = vec![
            ("not ", ""),
            ("never ", ""),
            ("fails to ", ""),
            ("cannot ", "can "),
            ("won't ", "will "),
            ("didn't ", "did "),
            ("doesn't ", "does "),
            ("isn't ", "is "),
            ("wasn't ", "was "),
        ];
        assert(pairs@.len() == negation_pairs().len());
        assert(forall|k: int|
            0 <= k < pairs@.len() ==> (#[trigger] pairs@[k]).0@ == negation_pairs()[k].0
                && pairs@[k].1@ == negation_pairs()[k].1);
        let mut k: usize = 0;
        while k < pairs.len()
            invariant
                k <= pairs.len(),
                pairs@.len() == negation_pairs().len(),
                forall|j: int|
                    0 <= j < pairs@.len() ==> (#[trigger] pairs@[j]).0@ == negation_pairs()[j].0
                        && pairs@[j].1@ == negation_pairs()[j].1,
                la@ == lowercase(text_a@),
                lb@ == lowercase(text_b@),
                forall|j: int|
                    0 <= j < k ==> !(negates_with(
                        la@,
                        lb@,
                        #[trigger] negation_pairs()[j].0,
                        negation_pairs()[j].1,
                    ) || negates_with(lb@, la@, negation_pairs()[j].0, negation_pairs()[j].1)),
            decreases pairs.len() - k,
        {
            let (neg, pos) = pairs[k];
            if opens_and_rest(&la, &lb, neg, pos) || opens_and_rest(&lb, &la, neg, pos) {
                assert(negation_pairs()[k as int].0 == neg@);
                return true;
            }
            k += 1;
        }
        false
    }

    /// Whether two descriptions name the same outcome.
    pub fn descriptions_similar(a: &str, b: &str) -> (r: bool)
        ensures
            r == similar(a@, b@),
    {
        let la = str_chars(to_lowercase(a).as_str());
        let lb = str_chars(to_lowercase(b).as_str());
        if seq_eq(&la, &lb) || contains_seq(&la, &lb) || contains_seq(&lb, &la) {
            return true;
        }
        let wa = distinct(&split_words(&la));
        let wb = distinct(&split_words(&lb));
        proof {
            seqs_view(wa@).unique_seq_to_set();
            seqs_view(wb@).unique_seq_to_set();
        }
        if wa.len() == 0 || wb.len() == 0 {
            return false;
        }
        let common = count_common(&wa, &wb);
        proof {
            let sa = word_set(la@);
            let sb = word_set(lb@);
            vstd::set_lib::lemma_set_intersect_union_lens(sa, sb);
        }
        (common as u128) * 3 > (wa.len() as u128) + (wb.len() as u128)
    }
}

// ---------------------------------------------------------------------------
// Outcomes, state changes and facts
// ---------------------------------------------------------------------------

/// `a` and `b` contradict: booleans or numbers that differ, or texts of
/// which the first negates the second.
pub open spec fn values_contradict(a: JsonView, b: JsonView) -> bool {
    match (a, b) {
        (JsonView::Bool(x), JsonView::Bool(y)) => x != y,
        (JsonView::Number(x), JsonView::Number(y)) => x != y,
        (JsonView::Str(x), JsonView::Str(y)) => negation_of(x, y),
        _ => false,
    }
}

/// The member `key` of `o` is the text `want`, where `want` is given;
/// `absent` where it is not.
pub open spec fn field_is(o: JsonView, key: Seq<char>, want: Option<Seq<char>>, absent: bool) -> bool {
    match want {
        Some(w) => vget_str(o, key) == Some(w),
        None => absent,
    }
}

/// An outcome that contradicts a required one: same domain and subject
/// (both given), same target where given, and a description that negates it.
pub open spec fn contradicts_required_outcome(o: JsonView, p: JsonView) -> bool {
    field_is(o, "domain"@, vget_str(p, "domain"@), false) && field_is(
        o,
        "subject_id"@,
        vget_str(p, "subject_id"@),
        false,
    ) && field_is(o, "target_id"@, vget_str(p, "target_id"@), true) && match (
        vget_str(o, "description"@),
        vget_str(p, "description"@),
    ) {
        (Some(od), Some(rd)) => negation_of(od, rd),
        _ => false,
    }
}

/// A state change of the same subject and domain whose new value
/// contradicts the required value.
pub open spec fn contradicts_required_state(change: JsonView, p: JsonView) -> bool {
    vget_str(change, "subject_id"@) == vget_str(p, "subject_id"@) && vget_str(change, "domain"@)
        == vget_str(p, "domain"@) && match (vget(p, "required_value"@), vget(change, "new_value"@)) {
        (Some(rv), Some(cv)) => values_contradict(cv, rv),
        _ => false,
    }
}

/// An outcome that matches a forbidden one: domain, subject and target the
/// same where given, and a similar description where one is given.
pub open spec fn matches_forbidden_outcome(o: JsonView, p: JsonView) -> bool {
    field_is(o, "domain"@, vget_str(p, "domain"@), true) && field_is(
        o,
        "subject_id"@,
        vget_str(p, "subject_id"@),
        true,
    ) && field_is(o, "target_id"@, vget_str(p, "target_id"@), true) && match vget_str(
        p,
        "description"@,
    ) {
        Some(fd) => match vget_str(o, "description"@) {
            Some(od) => similar(od, fd),
            None => false,
        },
        None => true,
    }
}

/// A state change of the same subject and domain to the forbidden value.
pub open spec fn produces_forbidden_state(change: JsonView, p: JsonView) -> bool {
    vget_str(change, "subject_id"@) == vget_str(p, "subject_id"@) && vget_str(change, "domain"@)
        == vget_str(p, "domain"@) && match (vget(p, "forbidden_value"@), vget(change, "new_value"@)) {
        (Some(fv), Some(cv)) => cv == fv,
        _ => false,
    }
}

/// A fact with the after-effect's key whose value contradicts it.
pub open spec fn contradicts_after_effect(fact: JsonView, ae: JsonView) -> bool {
    match (vget_str(fact, "key"@), vget_str(ae, "key"@)) {
        (Some(fk), Some(ak)) => fk == ak && match (vget(fact, "value"@), vget(ae, "value"@)) {
            (Some(fv), Some(av)) => values_contradict(fv, av),
            _ => false,
        },
        _ => false,
    }
}

/// The array `key` of `v`, empty where there is none.
pub open spec fn items(v: JsonView, key: Seq<char>) -> Seq<JsonView> {
    match vget_array(v, key) {
        Some(a) => a,
        None => Seq::empty(),
    }
}

/// Some item is the text `s` (or, for `None`, no text).
pub open spec fn some_text_is(xs: Seq<JsonView>, s: Option<Seq<char>>) -> bool {
    exists|i: int| 0 <= i < xs.len() && vas_str(#[trigger] xs[i]) == s
}

pub open spec fn some_outcome_negates(xs: Seq<JsonView>, id: Seq<char>, p: JsonView) -> bool {
    exists|i: int|
        0 <= i < xs.len() && (vget_str(#[trigger] xs[i], "negates_outcome_id"@) == Some(id)
            || contradicts_required_outcome(xs[i], p))
}

pub open spec fn some_change_contradicts(xs: Seq<JsonView>, p: JsonView) -> bool {
    exists|i: int| 0 <= i < xs.len() && contradicts_required_state(#[trigger] xs[i], p)
}

pub open spec fn some_outcome_forbidden(xs: Seq<JsonView>, p: JsonView) -> bool {
    exists|i: int| 0 <= i < xs.len() && matches_forbidden_outcome(#[trigger] xs[i], p)
}

pub open spec fn some_change_forbidden(xs: Seq<JsonView>, p: JsonView) -> bool {
    exists|i: int| 0 <= i < xs.len() && produces_forbidden_state(#[trigger] xs[i], p)
}

pub open spec fn some_fact_contradicts(xs: Seq<JsonView>, ae: JsonView) -> bool {
    exists|i: int| 0 <= i < xs.len() && contradicts_after_effect(#[trigger] xs[i], ae)
}

/// The candidate negates, contradicts or prevents the required outcome.
pub open spec fn violates_required(cand: JsonView, id: Seq<char>, p: JsonView) -> bool {
    some_outcome_negates(items(cand, "outcomes"@), id, p) || some_change_contradicts(
        items(cand, "state_changes"@),
        p,
    ) || some_text_is(items(cand, "prevented_outcomes"@), Some(id))
}

/// The candidate produces or enables the forbidden outcome.
pub open spec fn violates_forbidden(cand: JsonView, id: Seq<char>, p: JsonView) -> bool {
    some_outcome_forbidden(items(cand, "outcomes"@), p) || some_change_forbidden(
        items(cand, "state_changes"@),
        p,
    ) || some_text_is(items(cand, "enabled_outcomes"@), Some(id))
}

/// The candidate changes the fact before it holds, contradicts its
/// content, or says it contradicts it.
pub open spec fn violates_after_effect(cand: JsonView, p: JsonView) -> bool {
    let fact_ref = vget_str(p, "fact_ref"@);
    (match (vget_i64(p, "valid_from_ordinal"@), vget_i64(cand, "story_time_ordinal"@)) {
        (Some(from), Some(t)) => t < from && some_text_is(items(cand, "affected_fact_refs"@), fact_ref),
        _ => false,
    }) || (match vget(p, "after_effect_content"@) {
        Some(ae) => some_fact_contradicts(items(cand, "established_facts"@), ae),
        None => false,
    }) || some_text_is(items(cand, "contradicts_facts"@), fact_ref)
}

/// A constraint as plain values: id, source, kind, payload.
pub type ConstraintView = (Seq<char>, Seq<char>, TruthConstraintKind, JsonView);

pub open spec fn constraint_view(c: TruthConstraint) -> ConstraintView {
    (c.constraint_id@, c.source_knowledge_id@, c.constraint_kind, json_view(c.structured_payload))
}

pub open spec fn violates(cand: JsonView, c: ConstraintView) -> bool {
    match c.2 {
        TruthConstraintKind::RequiredOutcome => violates_required(cand, c.0, c.3),
        TruthConstraintKind::ForbiddenOutcome => violates_forbidden(cand, c.0, c.3),
        TruthConstraintKind::KnownAfterEffect => violates_after_effect(cand, c.3),
    }
}

// ---------------------------------------------------------------------------
// Checks on JSON values
// ---------------------------------------------------------------------------

fn number_differs(x: JsonNumber, y: JsonNumber) -> (r: bool)
    ensures
        r == (x != y),
{
    !json_eq(&JsonValue::Number(x), &JsonValue::Number(y))
}

impl TemporalConsistencyValidator {
    fn values_contradict(a: &JsonValue, b: &JsonValue) -> (r: bool)
        ensures
            r == values_contradict(json_view(*a), json_view(*b)),
    {
        match (a, b) {
            (JsonValue::Bool(x), JsonValue::Bool(y)) => *x != *y,
            (JsonValue::Number(x), JsonValue::Number(y)) => number_differs(*x, *y),
            (JsonValue::String(x), JsonValue::String(y)) => Self::is_negation_of(x.as_str(), y.as_str()),
            _ => false,
        }
    }
}

fn same_opt(a: Option<&String>, b: Option<&String>) -> (r: bool)
    ensures
        r == ((match a {
            Some(x) => Some(x@),
            None => None::<Seq<char>>,
        }) == (match b {
            Some(x) => Some(x@),
            None => None::<Seq<char>>,
        })),
{
    match (a, b) {
        (Some(x), Some(y)) => str_eq(x.as_str(), y.as_str()),
        (None, None) => true,
        _ => false,
    }
}

fn field_matches(o: &JsonValue, key: &str, want: Option<&String>, absent: bool) -> (r: bool)
    ensures
        r == field_is(
            json_view(*o),
            key@,
            match want {
                Some(w) => Some(w@),
                None => None,
            },
            absent,
        ),
{
    match want {
        Some(w) => match vjson_get_str(o, key) {
            Some(x) => str_eq(x.as_str(), w.as_str()),
            None => false,
        },
        None => absent,
    }
}

fn contradicts_required_outcome_exec(o: &JsonValue, p: &JsonValue) -> (r: bool)
    ensures
        r == contradicts_required_outcome(json_view(*o), json_view(*p)),
{
    if !field_matches(o, "domain", vjson_get_str(p, "domain"), false) {
        return false;
    }
    if !field_matches(o, "subject_id", vjson_get_str(p, "subject_id"), false) {
        return false;
    }
    if !field_matches(o, "target_id", vjson_get_str(p, "target_id"), true) {
        return false;
    }
    match (vjson_get_str(o, "description"), vjson_get_str(p, "description")) {
        (Some(od), Some(rd)) => TemporalConsistencyValidator::is_negation_of(od.as_str(), rd.as_str()),
        _ => false,
    }
}

fn contradicts_required_state_exec(change: &JsonValue, p: &JsonValue) -> (r: bool)
    ensures
        r == contradicts_required_state(json_view(*change), json_view(*p)),
{
    if !same_opt(vjson_get_str(change, "subject_id"), vjson_get_str(p, "subject_id")) {
        return false;
    }
    if !same_opt(vjson_get_str(change, "domain"), vjson_get_str(p, "domain")) {
        return false;
    }
    match (vjson_get(p, "required_value"), vjson_get(change, "new_value")) {
        (Some(rv), Some(cv)) => TemporalConsistencyValidator::values_contradict(cv, rv),
        _ => false,
    }
}

fn matches_forbidden_outcome_exec(o: &JsonValue, p: &JsonValue) -> (r: bool)
    ensures
        r == matches_forbidden_outcome(json_view(*o), json_view(*p)),
{
    if !field_matches(o, "domain", vjson_get_str(p, "domain"), true) {
        return false;
    }
    if !field_matches(o, "subject_id", vjson_get_str(p, "subject_id"), true) {
        return false;
    }
    if !field_matches(o, "target_id", vjson_get_str(p, "target_id"), true) {
        return false;
    }
    match vjson_get_str(p, "description") {
        Some(fd) => match vjson_get_str(o, "description") {
            Some(od) => TemporalConsistencyValidator::descriptions_similar(od.as_str(), fd.as_str()),
            None => false,
        },
        None => true,
    }
}

fn produces_forbidden_state_exec(change: &JsonValue, p: &JsonValue) -> (r: bool)
    ensures
        r == produces_forbidden_state(json_view(*change), json_view(*p)),
{
    if !same_opt(vjson_get_str(change, "subject_id"), vjson_get_str(p, "subject_id")) {
        return false;
    }
    if !same_opt(vjson_get_str(change, "domain"), vjson_get_str(p, "domain")) {
        return false;
    }
    match (vjson_get(p, "forbidden_value"), vjson_get(change, "new_value")) {
        (Some(fv), Some(cv)) => json_eq(cv, fv),
        _ => false,
    }
}

fn contradicts_after_effect_exec(fact: &JsonValue, ae: &JsonValue) -> (r: bool)
    ensures
        r == contradicts_after_effect(json_view(*fact), json_view(*ae)),
{
    match (vjson_get_str(fact, "key"), vjson_get_str(ae, "key")) {
        (Some(fk), Some(ak)) => {
            if !str_eq(fk.as_str(), ak.as_str()) {
                return false;
            }
            match (vjson_get(fact, "value"), vjson_get(ae, "value")) {
                (Some(fv), Some(av)) => TemporalConsistencyValidator::values_contradict(fv, av),
                _ => false,
            }
        },
        _ => false,
    }
}

/// Whether some item of the array `key` of `v` is the text `s`.
fn any_text_is(v: &JsonValue, key: &str, s: Option<&String>) -> (r: bool)
    ensures
        r == some_text_is(
            items(json_view(*v), key@),
            match s {
                Some(x) => Some(x@),
                None => None,
            },
        ),
{
    let ghost want: Option<Seq<char>> = match s {
        Some(x) => Some(x@),
        None => None,
    };
    match vjson_get_array(v, key) {
        None => false,
        Some(a) => {
            let mut i: usize = 0;
            while i < a.len()
                invariant
                    i <= a.len(),
                    items(json_view(*v), key@) == views(a@),
                    want == match s {
                        Some(x) => Some(x@),
                        None => None::<Seq<char>>,
                    },
                    forall|j: int| 0 <= j < i ==> vas_str(#[trigger] views(a@)[j]) != want,
                decreases a.len() - i,
            {
                if same_opt(vjson_as_str(&a[i]), s) {
                    assert(views(a@)[i as int] == json_view(a@[i as int]));
                    assert(items(json_view(*v), key@) == views(a@));
                    assert(vas_str(items(json_view(*v), key@)[i as int]) == want);
                    return true;
                }
                i += 1;
            }
            false
        },
    }
}

impl TemporalConsistencyValidator {
    /// Whether the candidate negates, contradicts or prevents the required outcome.
    fn violates_required_outcome(candidate: &ProvisionalTruthCandidate, constraint: &TruthConstraint) -> (r:
        bool)
        ensures
            r == violates_required(
                json_view(candidate.payload),
                constraint.constraint_id@,
                json_view(constraint.structured_payload),
            ),
    {
        let payload = &constraint.structured_payload;
        let cand = &candidate.payload;
        let ghost p = json_view(*payload);
        match vjson_get_array(cand, "outcomes") {
            None => {},
            Some(a) => {
                let mut i: usize = 0;
                while i < a.len()
                    invariant
                        i <= a.len(),
                        items(json_view(*cand), "outcomes"@) == views(a@),
                        *cand == candidate.payload,
                        *payload == constraint.structured_payload,
                        p == json_view(*payload),
                        forall|j: int|
                            0 <= j < i ==> !(vget_str(#[trigger] views(a@)[j], "negates_outcome_id"@)
                                == Some(constraint.constraint_id@) || contradicts_required_outcome(
                                views(a@)[j],
                                p,
                            )),
                    decreases a.len() - i,
                {
                    assert(views(a@)[i as int] == json_view(a@[i as int]));
                    let negates = match vjson_get_str(&a[i], "negates_outcome_id") {
                        Some(n) => str_eq(n.as_str(), constraint.constraint_id.as_str()),
                        None => false,
                    };
                    if negates || contradicts_required_outcome_exec(&a[i], payload) {
                        assert(items(json_view(*cand), "outcomes"@) == views(a@));
                        assert(some_outcome_negates(
                            items(json_view(*cand), "outcomes"@),
                            constraint.constraint_id@,
                            p,
                        ));
                        return true;
                    }
                    i += 1;
                }
            },
        }
        match vjson_get_array(cand, "state_changes") {
            None => {},
            Some(a) => {
                let mut i: usize = 0;
                while i < a.len()
                    invariant
                        i <= a.len(),
                        items(json_view(*cand), "state_changes"@) == views(a@),
                        *cand == candidate.payload,
                        *payload == constraint.structured_payload,
                        p == json_view(*payload),
                        forall|j: int| 0 <= j < i ==> !contradicts_required_state(#[trigger] views(a@)[j], p),
                    decreases a.len() - i,
                {
                    assert(views(a@)[i as int] == json_view(a@[i as int]));
                    if contradicts_required_state_exec(&a[i], payload) {
                        assert(items(json_view(*cand), "state_changes"@) == views(a@));
                        assert(some_change_contradicts(items(json_view(*cand), "state_changes"@), p));
                        return true;
                    }
                    i += 1;
                }
            },
        }
        any_text_is(cand, "prevented_outcomes", Some(&constraint.constraint_id))
    }

    /// Whether the candidate produces or enables the forbidden outcome.
    fn violates_forbidden_outcome(candidate: &ProvisionalTruthCandidate, constraint: &TruthConstraint) -> (r:
        bool)
        ensures
            r == violates_forbidden(
                json_view(candidate.payload),
                constraint.constraint_id@,
                json_view(constraint.structured_payload),
            ),
    {
        let payload = &constraint.structured_payload;
        let cand = &candidate.payload;
        let ghost p = json_view(*payload);
        match vjson_get_array(cand, "outcomes") {
            None => {},
            Some(a) => {
                let mut i: usize = 0;
                while i < a.len()
                    invariant
                        i <= a.len(),
                        items(json_view(*cand), "outcomes"@) == views(a@),
                        *cand == candidate.payload,
                        *payload == constraint.structured_payload,
                        p == json_view(*payload),
                        forall|j: int| 0 <= j < i ==> !matches_forbidden_outcome(#[trigger] views(a@)[j], p),
                    decreases a.len() - i,
                {
                    assert(views(a@)[i as int] == json_view(a@[i as int]));
                    if matches_forbidden_outcome_exec(&a[i], payload) {
                        assert(items(json_view(*cand), "outcomes"@) == views(a@));
                        assert(some_outcome_forbidden(items(json_view(*cand), "outcomes"@), p));
                        return true;
                    }
                    i += 1;
                }
            },
        }
        match vjson_get_array(cand, "state_changes") {
            None => {},
            Some(a) => {
                let mut i: usize = 0;
                while i < a.len()
                    invariant
                        i <= a.len(),
                        items(json_view(*cand), "state_changes"@) == views(a@),
                        *cand == candidate.payload,
                        *payload == constraint.structured_payload,
                        p == json_view(*payload),
                        forall|j: int| 0 <= j < i ==> !produces_forbidden_state(#[trigger] views(a@)[j], p),
                    decreases a.len() - i,
                {
                    assert(views(a@)[i as int] == json_view(a@[i as int]));
                    if produces_forbidden_state_exec(&a[i], payload) {
                        assert(items(json_view(*cand), "state_changes"@) == views(a@));
                        assert(some_change_forbidden(items(json_view(*cand), "state_changes"@), p));
                        return true;
                    }
                    i += 1;
                }
            },
        }
        any_text_is(cand, "enabled_outcomes", Some(&constraint.constraint_id))
    }

    /// Whether the candidate changes the fact before it holds, contradicts
    /// its content, or says it contradicts it.
    fn violates_known_after_effect(candidate: &ProvisionalTruthCandidate, constraint: &TruthConstraint) -> (r:
        bool)
        ensures
            r == violates_after_effect(json_view(candidate.payload), json_view(constraint.structured_payload)),
    {
        let payload = &constraint.structured_payload;
        let cand = &candidate.payload;
        let fact_ref = vjson_get_str(payload, "fact_ref");
        match (vjson_get_i64(payload, "valid_from_ordinal"), vjson_get_i64(cand, "story_time_ordinal")) {
            (Some(valid_from), Some(candidate_time)) => {
                if candidate_time < valid_from && any_text_is(cand, "affected_fact_refs", fact_ref) {
                    return true;
                }
            },
            _ => {},
        }
        match vjson_get(payload, "after_effect_content") {
            None => {},
            Some(ae) => match vjson_get_array(cand, "established_facts") {
                None => {},
                Some(a) => {
                    let mut i: usize = 0;
                    while i < a.len()
                        invariant
                            i <= a.len(),
                            items(json_view(*cand), "established_facts"@) == views(a@),
                            *cand == candidate.payload,
                            *payload == constraint.structured_payload,
                            vget(json_view(*payload), "after_effect_content"@) == Some(json_view(*ae)),
                            forall|j: int|
                                0 <= j < i ==> !contradicts_after_effect(
                                    #[trigger] views(a@)[j],
                                    json_view(*ae),
                                ),
                        decreases a.len() - i,
                    {
                        assert(views(a@)[i as int] == json_view(a@[i as int]));
                        if contradicts_after_effect_exec(&a[i], ae) {
                            assert(items(json_view(*cand), "established_facts"@) == views(a@));
                            assert(some_fact_contradicts(
                                items(json_view(*cand), "established_facts"@),
                                json_view(*ae),
                            ));
                            return true;
                        }
                        i += 1;
                    }
                },
            },
        }
        any_text_is(cand, "contradicts_facts", fact_ref)
    }

    /// Whether a point of time lies within the bounds given, both included.
    pub fn is_time_valid(
        candidate_time: &TimeAnchor,
        valid_from: Option<&TimeAnchor>,
        valid_until: Option<&TimeAnchor>,
    ) -> (r: bool)
        ensures
            r == ((match valid_from {
                Some(f) => f.ordinal <= candidate_time.ordinal,
                None => true,
            }) && (match valid_until {
                Some(u) => candidate_time.ordinal <= u.ordinal,
                None => true,
            })),
    {
        if let Some(from) = valid_from {
            if candidate_time.ordinal < from.ordinal {
                return false;
            }
        }
        if let Some(until) = valid_until {
            if candidate_time.ordinal > until.ordinal {
                return false;
            }
        }
        true
    }
}

// ---------------------------------------------------------------------------
// Conflict reports
// ---------------------------------------------------------------------------

/// `uuid::Uuid::new_v4().to_string()`: a random version 4 UUID in its
/// hyphenated form, 36 characters. Which UUID comes back is left unsaid.
#[verifier::external_body]
fn uuid_v4() -> (r: String)
    ensures
        r@.len() == 36,
{
    uuid::Uuid::new_v4().to_string()
}

/// `chrono::Utc::now().to_rfc3339()`: the current time in RFC 3339. What
/// it holds depends on the clock and is left unsaid.
#[verifier::external_body]
fn now_rfc3339() -> (r: String) {
    chrono::Utc::now().to_rfc3339()
}

/// A fresh id: the prefix, an underscore, and a random UUID.
pub fn generate_id(prefix: &str) -> (r: String)
    ensures
        exists|u: Seq<char>| u.len() == 36 && r@ == prefix@ + "_"@ + u,
{
    let head = join_str(prefix, "_");
    let u = uuid_v4();
    let r = join_str(head.as_str(), u.as_str());
    assert(r@ == prefix@ + "_"@ + u@);
    r
}

/// The form of a conflict id: `"conflict_"` and a 36-character UUID.
pub open spec fn is_conflict_id(id: Seq<char>) -> bool {
    id.len() == "conflict_"@.len() + 36 && starts_with(id, "conflict_"@)
}

/// Every report carries a conflict id of that form.
pub open spec fn conflict_ids_formed(v: Seq<ConflictReport>) -> bool {
    forall|k: int| 0 <= k < v.len() ==> is_conflict_id(#[trigger] v[k].conflict_id@)
}

pub open spec fn kind_name(k: TruthConstraintKind) -> Seq<char> {
    match k {
        TruthConstraintKind::RequiredOutcome => "RequiredOutcome"@,
        TruthConstraintKind::ForbiddenOutcome => "ForbiddenOutcome"@,
        TruthConstraintKind::KnownAfterEffect => "KnownAfterEffect"@,
    }
}

fn kind_text(k: TruthConstraintKind) -> (r: &'static str)
    ensures
        r@ == kind_name(k),
{
    match k {
        TruthConstraintKind::RequiredOutcome => "RequiredOutcome",
        TruthConstraintKind::ForbiddenOutcome => "ForbiddenOutcome",
        TruthConstraintKind::KnownAfterEffect => "KnownAfterEffect",
    }
}

/// The summary of a conflict with a constraint, with its keys in order.
pub open spec fn summary_view(c: ConstraintView) -> JsonView {
    JsonView::Object(
        seq![
            ("constraint_kind"@, JsonView::Str(kind_name(c.2))),
            ("constraint_source"@, JsonView::Str(c.1)),
            ("message"@, JsonView::Str("Candidate violates constraint: "@ + c.0)),
        ],
    )
}

pub open spec fn opt_view(o: Option<String>) -> Option<Seq<char>> {
    match o {
        Some(s) => Some(s@),
        None => None,
    }
}

/// A report as plain values: session, session turn, scene turn, severity,
/// constraints, provisional truths, summary, and whether it is unresolved.
pub type ReportView = (
    Seq<char>,
    Seq<char>,
    Option<Seq<char>>,
    ConflictSeverity,
    Seq<Seq<char>>,
    Seq<Seq<char>>,
    JsonView,
    bool,
);

pub open spec fn report_view(r: ConflictReport) -> ReportView {
    (
        r.session_id@,
        r.session_turn_id@,
        opt_view(r.scene_turn_id),
        r.severity,
        strings_view(r.source_constraint_ids@),
        strings_view(r.affected_provisional_ids@),
        json_view(r.summary),
        r.resolved_at is None,
    )
}

pub open spec fn reports_view(s: Seq<ConflictReport>) -> Seq<ReportView> {
    s.map_values(|r: ConflictReport| report_view(r))
}

/// The report of a candidate that violates a constraint: a hard,
/// unresolved conflict from the candidate's session and turns.
pub open spec fn expected_report(cand: ProvisionalTruthCandidate, c: ConstraintView) -> ReportView {
    (
        cand.source_session_id@,
        cand.source_session_turn_id@,
        opt_view(cand.source_scene_turn_id),
        ConflictSeverity::Hard,
        seq![c.0],
        seq![cand.provisional_id@],
        summary_view(c),
        true,
    )
}

/// The reports of a candidate against constraints, in order.
pub open spec fn reports_for(cand: ProvisionalTruthCandidate, cs: Seq<ConstraintView>) -> Seq<ReportView>
    decreases cs.len(),
{
    if cs.len() == 0 {
        Seq::empty()
    } else {
        reports_for(cand, cs.drop_last()) + if violates(json_view(cand.payload), cs.last()) {
            seq![expected_report(cand, cs.last())]
        } else {
            Seq::empty()
        }
    }
}

pub open spec fn constraint_views(s: Seq<TruthConstraint>) -> Seq<ConstraintView> {
    s.map_values(|c: TruthConstraint| constraint_view(c))
}

/// The reports of each candidate against every constraint, candidate by candidate.
pub open spec fn expected_conflicts(cands: Seq<ProvisionalTruthCandidate>, cs: Seq<ConstraintView>) -> Seq<ReportView>
    decreases cands.len(),
{
    if cands.len() == 0 {
        Seq::empty()
    } else {
        expected_conflicts(cands.drop_last(), cs) + reports_for(cands.last(), cs)
    }
}

fn text(s: &str) -> (r: String)
    ensures
        r@ == s@,
{
    s.to_owned()
}

fn opt_copy(o: &Option<String>) -> (r: Option<String>)
    ensures
        opt_view(r) == opt_view(*o),
{
    match o {
        Some(s) => Some(s.clone()),
        None => None,
    }
}

impl TemporalConsistencyValidator {
    /// The conflict report of a candidate that violates a constraint, or
    /// `None` where it respects it.
    fn check_constraint_violation(candidate: &ProvisionalTruthCandidate, constraint: &TruthConstraint) -> (r:
        Option<ConflictReport>)
        ensures
            match r {
                Some(rep) => violates(json_view(candidate.payload), constraint_view(*constraint))
                    && report_view(rep) == expected_report(*candidate, constraint_view(*constraint))
                    && is_conflict_id(rep.conflict_id@),
                None => !violates(json_view(candidate.payload), constraint_view(*constraint)),
            },
    {
        let violated = match constraint.constraint_kind {
            TruthConstraintKind::RequiredOutcome => Self::violates_required_outcome(candidate, constraint),
            TruthConstraintKind::ForbiddenOutcome => Self::violates_forbidden_outcome(
                candidate,
                constraint,
            ),
            TruthConstraintKind::KnownAfterEffect => Self::violates_known_after_effect(
                candidate,
                constraint,
            ),
        };
        if !violated {
            return None;
        }
        let v1 = JsonValue::String(text(kind_text(constraint.constraint_kind)));
        let v2 = JsonValue::String(constraint.source_knowledge_id.clone());
        let v3 = JsonValue::String(join_str("Candidate violates constraint: ", constraint.constraint_id.as_str()));
        let ghost c = constraint_view(*constraint);
        assert(json_view(v1) == JsonView::Str(kind_name(c.2)));
        assert(json_view(v2) == JsonView::Str(c.1));
        assert(json_view(v3) == JsonView::Str("Candidate violates constraint: "@ + c.0));
        let members = vec![(text("constraint_kind"), v1), (text("constraint_source"), v2), (text("message"), v3)];
        assert(members@.len() == 3);
        let summary = JsonValue::Object(members);
        assert(json_view(summary)->Object_0 =~= summary_view(c)->Object_0);
        let conflict_id = generate_id("conflict");
        proof {
            let u = choose|u: Seq<char>| u.len() == 36 && conflict_id@ == "conflict"@ + "_"@ + u;
            reveal_strlit("conflict");
            reveal_strlit("_");
            reveal_strlit("conflict_");
            assert(conflict_id@.subrange(0, 9) =~= "conflict_"@);
            assert(conflict_id@.len() == 45);
        }
        let source_ids = vec![constraint.constraint_id.clone()];
        let affected = vec![candidate.provisional_id.clone()];
        assert(strings_view(source_ids@) =~= seq![constraint.constraint_id@]);
        assert(strings_view(affected@) =~= seq![candidate.provisional_id@]);
        Some(
            ConflictReport {
                conflict_id,
                session_id: candidate.source_session_id.clone(),
                session_turn_id: candidate.source_session_turn_id.clone(),
                scene_turn_id: opt_copy(&candidate.source_scene_turn_id),
                severity: ConflictSeverity::Hard,
                source_constraint_ids: source_ids,
                affected_provisional_ids: affected,
                summary,
                created_at: now_rfc3339(),
                resolved_at: None,
            },
        )
    }

    /// Checks each candidate against each hard constraint of the guidance:
    /// one hard conflict report per violation, candidate by candidate and
    /// constraint by constraint. Each report's id is `conflict_` and a random
    /// UUID; the time it records is the clock's and is left unsaid.
    pub fn validate(candidates: &[ProvisionalTruthCandidate], truth_guidance: &TruthGuidance) -> (r: Result<
        Vec<ConflictReport>,
        String,
    >)
        ensures
            r matches Ok(v) && reports_view(v@) == expected_conflicts(
                candidates@,
                constraint_views(truth_guidance.hard_constraints@),
            ),
            r matches Ok(v) && conflict_ids_formed(v@),
    {
        let cs = &truth_guidance.hard_constraints;
        let ghost cvs = constraint_views(cs@);
        let mut conflicts: Vec<ConflictReport> = Vec::new();
        let mut i: usize = 0;
        while i < candidates.len()
            invariant
                i <= candidates.len(),
                cs@ == truth_guidance.hard_constraints@,
                cvs == constraint_views(cs@),
                reports_view(conflicts@) == expected_conflicts(candidates@.take(i as int), cvs),
                conflict_ids_formed(conflicts@),
            decreases candidates.len() - i,
        {
            assert(candidates@.take((i + 1) as int).drop_last() =~= candidates@.take(i as int));
            let ghost start = reports_view(conflicts@);
            let candidate = &candidates[i];
            let mut j: usize = 0;
            while j < cs.len()
                invariant
                    j <= cs.len(),
                    i < candidates.len(),
                    candidate == &candidates@[i as int],
                    cvs == constraint_views(cs@),
                    reports_view(conflicts@) == start + reports_for(*candidate, cvs.take(j as int)),
                    conflict_ids_formed(conflicts@),
                decreases cs.len() - j,
            {
                assert(cvs.take((j + 1) as int).drop_last() =~= cvs.take(j as int));
                assert(cvs.take((j + 1) as int).last() == constraint_view(cs@[j as int]));
                let ghost before = reports_view(conflicts@);
                match Self::check_constraint_violation(candidate, &cs[j]) {
                    Some(rep) => {
                        conflicts.push(rep);
                        assert(reports_view(conflicts@) =~= before.push(report_view(rep)));
                    },
                    None => {
                        assert(reports_view(conflicts@) =~= before + Seq::<ReportView>::empty());
                    },
                }
                j += 1;
            }
            assert(cvs.take(cs.len() as int) =~= cvs);
            i += 1;
        }
        assert(candidates@.take(candidates.len() as int) =~= candidates@);
        Ok(conflicts)
    }
}

// ---------------------------------------------------------------------------
// Historical events
// ---------------------------------------------------------------------------

/// A JSON integer as `serde_json` holds it.
pub open spec fn int_number(v: i64) -> JsonNumber {
    if v >= 0 {
        JsonNumber::PosInt(v as u64)
    } else {
        JsonNumber::NegInt(v)
    }
}

/// The payload of an outcome constraint, with its keys in order.
pub open spec fn outcome_payload(o: EventOutcome) -> JsonView {
    JsonView::Object(
        seq![
            ("description"@, JsonView::Str(o.description@)),
            ("domain"@, JsonView::Str(o.domain@)),
            ("subject_id"@, JsonView::Str(o.subject_id@)),
            (
                "target_id"@,
                match o.target_id {
                    Some(t) => JsonView::Str(t@),
                    None => JsonView::Null,
                },
            ),
        ],
    )
}

/// The constraint an event's required (`required`) or forbidden outcome sets.
pub open spec fn outcome_constraint(event_id: Seq<char>, o: EventOutcome, required: bool) -> ConstraintView {
    (
        "event_"@ + event_id + if required {
            "_required_"@
        } else {
            "_forbidden_"@
        } + o.outcome_id@,
        event_id,
        if required {
            TruthConstraintKind::RequiredOutcome
        } else {
            TruthConstraintKind::ForbiddenOutcome
        },
        outcome_payload(o),
    )
}

/// The constraint an event's known after-effect sets.
pub open spec fn after_effect_constraint(event_id: Seq<char>, ae: AfterEffect) -> ConstraintView {
    (
        "event_"@ + event_id + "_aftereffect_"@ + ae.fact_ref@,
        event_id,
        TruthConstraintKind::KnownAfterEffect,
        JsonView::Object(
            seq![
                ("fact_ref"@, JsonView::Str(ae.fact_ref@)),
                ("valid_from_ordinal"@, JsonView::Number(int_number(ae.valid_from_ordinal))),
            ],
        ),
    )
}

/// The constraints an event sets: its required outcomes, its forbidden
/// outcomes, then its known after-effects.
pub open spec fn event_constraints(e: HistoricalEventContent) -> Seq<ConstraintView> {
    e.required_outcomes@.map_values(|o: EventOutcome| outcome_constraint(e.event_id@, o, true))
        + e.forbidden_outcomes@.map_values(|o: EventOutcome| outcome_constraint(e.event_id@, o, false))
        + e.known_after_effects@.map_values(|a: AfterEffect| after_effect_constraint(e.event_id@, a))
}

fn string_value(s: String) -> (r: JsonValue)
    ensures
        json_view(r) == JsonView::Str(s@),
{
    JsonValue::String(s)
}

fn build_outcome_constraint(event_id: &String, o: &EventOutcome, required: bool) -> (r: TruthConstraint)
    ensures
        constraint_view(r) == outcome_constraint(event_id@, *o, required),
{
    let head = join_str("event_", event_id.as_str());
    let mid = join_str(head.as_str(), if required {
        "_required_"
    } else {
        "_forbidden_"
    });
    let id = join_str(mid.as_str(), o.outcome_id.as_str());
    let target = match &o.target_id {
        Some(t) => string_value(t.clone()),
        None => JsonValue::Null,
    };
    let v1 = string_value(o.description.clone());
    let v2 = string_value(o.domain.clone());
    let v3 = string_value(o.subject_id.clone());
    assert(json_view(target) == match o.target_id {
        Some(t) => JsonView::Str(t@),
        None => JsonView::Null,
    });
    let members = vec![
        (text("description"), v1),
        (text("domain"), v2),
        (text("subject_id"), v3),
        (text("target_id"), target),
    ];
    assert(members@.len() == 4);
    let payload = JsonValue::Object(members);
    assert(json_view(payload)->Object_0 =~= outcome_payload(*o)->Object_0);
    TruthConstraint {
        constraint_id: id,
        source_knowledge_id: event_id.clone(),
        constraint_kind: if required {
            TruthConstraintKind::RequiredOutcome
        } else {
            TruthConstraintKind::ForbiddenOutcome
        },
        applies_to_refs: vec![o.subject_id.clone()],
        structured_payload: payload,
    }
}

fn build_after_effect_constraint(event_id: &String, ae: &AfterEffect) -> (r: TruthConstraint)
    ensures
        constraint_view(r) == after_effect_constraint(event_id@, *ae),
{
    let head = join_str("event_", event_id.as_str());
    let mid = join_str(head.as_str(), "_aftereffect_");
    let id = join_str(mid.as_str(), ae.fact_ref.as_str());
    let n = if ae.valid_from_ordinal >= 0 {
        JsonNumber::PosInt(ae.valid_from_ordinal as u64)
    } else {
        JsonNumber::NegInt(ae.valid_from_ordinal)
    };
    let v1 = string_value(ae.fact_ref.clone());
    let v2 = JsonValue::Number(n);
    assert(n == int_number(ae.valid_from_ordinal));
    assert(json_view(v2) == JsonView::Number(int_number(ae.valid_from_ordinal)));
    let members = vec![(text("fact_ref"), v1), (text("valid_from_ordinal"), v2)];
    assert(members@.len() == 2);
    let payload = JsonValue::Object(members);
    assert(json_view(payload)->Object_0 =~= after_effect_constraint(event_id@, *ae).3->Object_0);
    TruthConstraint {
        constraint_id: id,
        source_knowledge_id: event_id.clone(),
        constraint_kind: TruthConstraintKind::KnownAfterEffect,
        applies_to_refs: vec![ae.fact_ref.clone()],
        structured_payload: payload,
    }
}

proof fn lemma_reports_for_append(cand: ProvisionalTruthCandidate, a: Seq<ConstraintView>, b: Seq<ConstraintView>)
    ensures
        reports_for(cand, a + b) == reports_for(cand, a) + reports_for(cand, b),
    decreases b.len(),
{
    if b.len() == 0 {
        assert(a + b =~= a);
        assert(reports_for(cand, a) + reports_for(cand, b) =~= reports_for(cand, a));
    } else {
        assert((a + b).drop_last() =~= a + b.drop_last());
        lemma_reports_for_append(cand, a, b.drop_last());
        assert((a + b).last() == b.last());
    }
}

impl TemporalConsistencyValidator {
    /// Checks a candidate against the constraints a historical event sets:
    /// its required outcomes, its forbidden outcomes and its known
    /// after-effects, in that order.
    pub fn validate_against_historical_event(candidate: &ProvisionalTruthCandidate, event: &HistoricalEventContent) -> (r:
        Result<Vec<ConflictReport>, String>)
        ensures
            r matches Ok(v) && reports_view(v@) == reports_for(*candidate, event_constraints(*event)),
            r matches Ok(v) && conflict_ids_formed(v@),
    {
        let mut conflicts: Vec<ConflictReport> = Vec::new();
        let ghost req = event.required_outcomes@.map_values(
            |o: EventOutcome| outcome_constraint(event.event_id@, o, true),
        );
        let ghost forb = event.forbidden_outcomes@.map_values(
            |o: EventOutcome| outcome_constraint(event.event_id@, o, false),
        );
        let ghost aft = event.known_after_effects@.map_values(
            |a: AfterEffect| after_effect_constraint(event.event_id@, a),
        );
        let rs = &event.required_outcomes;
        let mut i: usize = 0;
        while i < rs.len()
            invariant
                i <= rs.len(),
                rs@ == event.required_outcomes@,
                req == rs@.map_values(|o: EventOutcome| outcome_constraint(event.event_id@, o, true)),
                reports_view(conflicts@) == reports_for(*candidate, req.take(i as int)),
                conflict_ids_formed(conflicts@),
            decreases rs.len() - i,
        {
            assert(req.take((i + 1) as int).drop_last() =~= req.take(i as int));
            let c = build_outcome_constraint(&event.event_id, &rs[i], true);
            let ghost before = reports_view(conflicts@);
            match Self::check_constraint_violation(candidate, &c) {
                Some(rep) => {
                    conflicts.push(rep);
                    assert(reports_view(conflicts@) =~= before.push(report_view(rep)));
                },
                None => {
                    assert(reports_view(conflicts@) =~= before + Seq::<ReportView>::empty());
                },
            }
            i += 1;
        }
        assert(req.take(rs.len() as int) =~= req);
        let ghost p1 = reports_view(conflicts@);
        let fs = &event.forbidden_outcomes;
        let mut i: usize = 0;
        while i < fs.len()
            invariant
                i <= fs.len(),
                fs@ == event.forbidden_outcomes@,
                forb == fs@.map_values(|o: EventOutcome| outcome_constraint(event.event_id@, o, false)),
                reports_view(conflicts@) == p1 + reports_for(*candidate, forb.take(i as int)),
                conflict_ids_formed(conflicts@),
            decreases fs.len() - i,
        {
            assert(forb.take((i + 1) as int).drop_last() =~= forb.take(i as int));
            let c = build_outcome_constraint(&event.event_id, &fs[i], false);
            let ghost before = reports_view(conflicts@);
            match Self::check_constraint_violation(candidate, &c) {
                Some(rep) => {
                    conflicts.push(rep);
                    assert(reports_view(conflicts@) =~= before.push(report_view(rep)));
                },
                None => {
                    assert(reports_view(conflicts@) =~= before + Seq::<ReportView>::empty());
                },
            }
            i += 1;
        }
        assert(forb.take(fs.len() as int) =~= forb);
        let ghost p2 = reports_view(conflicts@);
        let afs = &event.known_after_effects;
        let mut i: usize = 0;
        while i < afs.len()
            invariant
                i <= afs.len(),
                afs@ == event.known_after_effects@,
                aft == afs@.map_values(|a: AfterEffect| after_effect_constraint(event.event_id@, a)),
                reports_view(conflicts@) == p2 + reports_for(*candidate, aft.take(i as int)),
                conflict_ids_formed(conflicts@),
            decreases afs.len() - i,
        {
            assert(aft.take((i + 1) as int).drop_last() =~= aft.take(i as int));
            let c = build_after_effect_constraint(&event.event_id, &afs[i]);
            let ghost before = reports_view(conflicts@);
            match Self::check_constraint_violation(candidate, &c) {
                Some(rep) => {
                    conflicts.push(rep);
                    assert(reports_view(conflicts@) =~= before.push(report_view(rep)));
                },
                None => {
                    assert(reports_view(conflicts@) =~= before + Seq::<ReportView>::empty());
                },
            }
            i += 1;
        }
        assert(aft.take(afs.len() as int) =~= aft);
        proof {
            lemma_reports_for_append(*candidate, req, forb);
            lemma_reports_for_append(*candidate, req + forb, aft);
            assert(event_constraints(*event) == req + forb + aft);
        }
        Ok(conflicts)
    }
}

// ---------------------------------------------------------------------------
// Laws
// ---------------------------------------------------------------------------

/// A state change only produces a forbidden state by taking the forbidden
/// value: its new value is the constraint's forbidden value.
pub proof fn law_forbidden_state_is_the_forbidden_value(change: JsonView, p: JsonView)
    ensures
        produces_forbidden_state(change, p) ==> vget(p, "forbidden_value"@) is Some && vget(
            change,
            "new_value"@,
        ) == vget(p, "forbidden_value"@),
{
}

/// A candidate with a state change of the forbidden subject and domain to
/// the forbidden value violates the forbidden-outcome constraint.
pub proof fn law_forbidden_state_change_violates(cand: JsonView, c: ConstraintView, k: int)
    requires
        c.2 == TruthConstraintKind::ForbiddenOutcome,
        0 <= k < items(cand, "state_changes"@).len(),
        vget_str(items(cand, "state_changes"@)[k], "subject_id"@) == vget_str(c.3, "subject_id"@),
        vget_str(items(cand, "state_changes"@)[k], "domain"@) == vget_str(c.3, "domain"@),
        vget(c.3, "forbidden_value"@) is Some,
        vget(items(cand, "state_changes"@)[k], "new_value"@) == vget(c.3, "forbidden_value"@),
    ensures
        violates(cand, c),
{
    let xs = items(cand, "state_changes"@);
    assert(produces_forbidden_state(xs[k], c.3));
    assert(some_change_forbidden(xs, c.3));
}

proof fn lemma_reports_for_contains(cand: ProvisionalTruthCandidate, cs: Seq<ConstraintView>, j: int)
    requires
        0 <= j < cs.len(),
        violates(json_view(cand.payload), cs[j]),
    ensures
        reports_for(cand, cs).contains(expected_report(cand, cs[j])),
    decreases cs.len(),
{
    let r = reports_for(cand, cs);
    let p = reports_for(cand, cs.drop_last());
    if j == cs.len() - 1 {
        assert(r[p.len() as int] == expected_report(cand, cs[j]));
    } else {
        assert(cs.drop_last()[j] == cs[j]);
        lemma_reports_for_contains(cand, cs.drop_last(), j);
        let i = choose|i: int| 0 <= i < p.len() && p[i] == expected_report(cand, cs[j]);
        assert(r[i] == p[i]);
    }
}

/// Every violation is reported: when candidate `i` violates constraint
/// `j`, the conflicts hold the hard report of that pair.
pub proof fn law_every_violation_is_reported(
    cands: Seq<ProvisionalTruthCandidate>,
    cs: Seq<ConstraintView>,
    i: int,
    j: int,
)
    requires
        0 <= i < cands.len(),
        0 <= j < cs.len(),
        violates(json_view(cands[i].payload), cs[j]),
    ensures
        expected_conflicts(cands, cs).contains(expected_report(cands[i], cs[j])),
    decreases cands.len(),
{
    let r = expected_conflicts(cands, cs);
    let p = expected_conflicts(cands.drop_last(), cs);
    if i == cands.len() - 1 {
        lemma_reports_for_contains(cands[i], cs, j);
        let rf = reports_for(cands[i], cs);
        let k = choose|k: int| 0 <= k < rf.len() && rf[k] == expected_report(cands[i], cs[j]);
        assert(r[p.len() + k] == rf[k]);
    } else {
        assert(cands.drop_last()[i] == cands[i]);
        law_every_violation_is_reported(cands.drop_last(), cs, i, j);
        let k = choose|k: int| 0 <= k < p.len() && p[k] == expected_report(cands[i], cs[j]);
        assert(r[k] == p[k]);
    }
}

/// Validating two lists of candidates one after the other gives the
/// reports of the first list followed by those of the second: checking a
/// concatenation finds as many conflicts as checking each part.
pub proof fn law_conflicts_concatenate(
    c1: Seq<ProvisionalTruthCandidate>,
    c2: Seq<ProvisionalTruthCandidate>,
    cs: Seq<ConstraintView>,
)
    ensures
        expected_conflicts(c1 + c2, cs) == expected_conflicts(c1, cs) + expected_conflicts(c2, cs),
        expected_conflicts(c1 + c2, cs).len() == expected_conflicts(c1, cs).len()
            + expected_conflicts(c2, cs).len(),
    decreases c2.len(),
{
    if c2.len() == 0 {
        assert(c1 + c2 =~= c1);
        assert(expected_conflicts(c1, cs) + expected_conflicts(c2, cs) =~= expected_conflicts(c1, cs));
    } else {
        assert((c1 + c2).drop_last() =~= c1 + c2.drop_last());
        law_conflicts_concatenate(c1, c2.drop_last(), cs);
        assert((c1 + c2).last() == c2.last());
        assert(expected_conflicts(c1 + c2, cs) =~= expected_conflicts(c1, cs) + expected_conflicts(c2, cs));
    }
}

/// Case is ignored: texts with the same lower case as `a` and `b` negate
/// each other exactly when `a` and `b` do.
pub proof fn law_negation_ignores_case(a: Seq<char>, b: Seq<char>, a2: Seq<char>, b2: Seq<char>)
    requires
        lowercase(a) == lowercase(a2),
        lowercase(b) == lowercase(b2),
    ensures
        negation_of(a, b) == negation_of(a2, b2),
{
}

/// Similarity ignores case in the same way.
pub proof fn law_similarity_ignores_case(a: Seq<char>, b: Seq<char>, a2: Seq<char>, b2: Seq<char>)
    requires
        lowercase(a) == lowercase(a2),
        lowercase(b) == lowercase(b2),
    ensures
        similar(a, b) == similar(a2, b2),
{
}

/// Negation goes both ways: if one text negates the other, the other
/// negates the first.
pub proof fn law_negation_symmetric(a: Seq<char>, b: Seq<char>)
    ensures
        negation_of(a, b) == negation_of(b, a),
{
    if negation_of(a, b) {
        let k = choose|k: int|
            0 <= k < negation_pairs().len() && (negates_with(
                lowercase(a),
                lowercase(b),
                #[trigger] negation_pairs()[k].0,
                negation_pairs()[k].1,
            ) || negates_with(lowercase(b), lowercase(a), negation_pairs()[k].0, negation_pairs()[k].1));
        assert(negation_pairs()[k].0 == negation_pairs()[k].0);
    }
    if negation_of(b, a) {
        let k = choose|k: int|
            0 <= k < negation_pairs().len() && (negates_with(
                lowercase(b),
                lowercase(a),
                #[trigger] negation_pairs()[k].0,
                negation_pairs()[k].1,
            ) || negates_with(lowercase(a), lowercase(b), negation_pairs()[k].0, negation_pairs()[k].1));
        assert(negation_pairs()[k].0 == negation_pairs()[k].0);
    }
}

/// Similarity of descriptions goes both ways.
pub proof fn law_similarity_symmetric(a: Seq<char>, b: Seq<char>)
    ensures
        similar(a, b) == similar(b, a),
{
    let wa = word_set(lowercase(a));
    let wb = word_set(lowercase(b));
    assert(wa.intersect(wb) =~= wb.intersect(wa));
    assert(wa + wb =~= wb + wa);
}

/// Every description is similar to itself.
pub proof fn law_similarity_reflexive(a: Seq<char>)
    ensures
        similar(a, a),
{
}

/// A text never negates itself.
pub proof fn law_no_self_negation(a: Seq<char>)
    ensures
        !negation_of(a, a),
{
    if negation_of(a, a) {
        let la = lowercase(a);
        let k = choose|k: int|
            0 <= k < negation_pairs().len() && (negates_with(
                la,
                la,
                #[trigger] negation_pairs()[k].0,
                negation_pairs()[k].1,
            ) || negates_with(la, la, negation_pairs()[k].0, negation_pairs()[k].1));
        reveal_strlit("not ");
        reveal_strlit("never ");
        reveal_strlit("fails to ");
        reveal_strlit("cannot ");
        reveal_strlit("can ");
        reveal_strlit("won't ");
        reveal_strlit("will ");
        reveal_strlit("didn't ");
        reveal_strlit("did ");
        reveal_strlit("doesn't ");
        reveal_strlit("does ");
        reveal_strlit("isn't ");
        reveal_strlit("is ");
        reveal_strlit("wasn't ");
        reveal_strlit("was ");
        reveal_strlit("");
        let n = negation_pairs()[k].0;
        let p = negation_pairs()[k].1;
        assert(starts_with(la, n) && starts_with(la, p) && la.skip(n.len() as int) == la.skip(
            p.len() as int,
        ));
        assert(n.len() != p.len());
        assert(la.skip(n.len() as int).len() != la.skip(p.len() as int).len());
    }
}

} // verus!
