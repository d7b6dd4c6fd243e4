//! The effect validator: checks a turn's state update plan against the
//! characters, their skills and the scene, and the effects a skill allows.

use vstd::prelude::*;
use crate::effect_model::{
    delta_view, deltas_view, CharacterStateDelta, DeltaView, EffectIntensityTier, ObservableSignal,
    SceneDelta, SceneModel, Skill, StateDomain, StateUpdatePlan, TargetKind, holds_skill,
};
use crate::effect_rules::{
    constraints_verdict, entity_index, find_scene_entity, first_fail, outcome,
    validate_skill_constraints, Verdict,
};
use crate::json::{
    get, get_array, get_str, is_object, json_get, json_get_array, json_get_str, json_is_object,
    JsonNumber, JsonValue,
};
use crate::quantity::{ext, ext_le, fin, finite, unit_range_contains, real_le, ExtReal, Real, UNIT};
use crate::text::{
    eq_ignore_ascii_case, eq_ignore_case, is_blank, join_str, sort_dedup, sorted_set_of, str_blank,
    str_eq, strings_view,
};
use crate::world_model::CharacterRecord;

verus! {

/// The effect validator.
pub struct EffectValidator;

/// The outcome of validating a state update plan.
#[derive(Debug)]
pub struct ValidatedPlan {
    pub valid_character_deltas: Vec<CharacterStateDelta>,
    pub blocked_effects: Vec<BlockedEffect>,
    pub soft_effects: Vec<SoftEffect>,
}

/// An effect that was refused.
#[derive(Debug, Clone)]
pub struct BlockedEffect {
    pub source_id: String,
    pub target_id: Option<String>,
    pub attempted_state_domain: String,
    pub reason_code: String,
    pub fallback_soft_effect: Option<SoftEffect>,
}

/// An effect on the narrative only, not on state.
#[derive(Debug, Clone)]
pub struct SoftEffect {
    pub source_id: String,
    pub target_id: Option<String>,
    pub effect_kind: String,
    pub description: String,
}

/// An effect to check against a skill's contract.
#[derive(Debug, Clone, Copy)]
pub struct EffectRequest {
    pub target_kind: TargetKind,
    pub state_domain: StateDomain,
    pub effect_kind: EffectKind,
    pub intensity_tier: EffectIntensityTier,
}

#[derive(Debug, Clone, Copy, PartialEq, Eq, Structural)]
pub enum EffectKind {
    Injury,
    PositionChange,
    KnowledgeReveal,
    ResourceChange,
    ConditionApply,
    Other,
}

/// A refused effect as plain values: source, target, state domain, reason.
pub type BlockedView = (Seq<char>, Option<Seq<char>>, Seq<char>, Seq<char>);

pub open spec fn blocked_view(b: BlockedEffect) -> BlockedView {
    (
        b.source_id@,
        match b.target_id {
            Some(t) => Some(t@),
            None => None,
        },
        b.attempted_state_domain@,
        b.reason_code@,
    )
}

pub open spec fn blocked_views(s: Seq<BlockedEffect>) -> Seq<BlockedView> {
    s.map_values(|b: BlockedEffect| blocked_view(b))
}

/// A refusal of an effect of `id` on itself.
pub open spec fn refusal(id: Seq<char>, domain: Seq<char>, reason: Seq<char>) -> BlockedView {
    (id, Some(id), domain, reason)
}

fn block(source: &String, target: &String, domain: &str, reason: String) -> (r: BlockedEffect)
    ensures
        blocked_view(r) == (source@, Some(target@), domain@, reason@),
        r.fallback_soft_effect is None,
{
    BlockedEffect {
        source_id: source.clone(),
        target_id: Some(target.clone()),
        attempted_state_domain: domain.to_owned(),
        reason_code: reason,
        fallback_soft_effect: None,
    }
}

// ---------------------------------------------------------------------------
// Numbers in a delta
// ---------------------------------------------------------------------------

/// A JSON number as a quantity (`as_f64`).
pub open spec fn number_value(n: JsonNumber) -> ExtReal {
    match n {
        JsonNumber::PosInt(u) => fin(u * UNIT),
        JsonNumber::NegInt(i) => fin(i * UNIT),
        JsonNumber::Float(r) => ext(r),
    }
}

/// A finite number in `0.0..=1.0`.
pub open spec fn ratio_ok(n: JsonNumber) -> bool {
    number_value(n) is Fin && ext_le(fin(0), number_value(n)) && ext_le(number_value(n), fin(UNIT as int))
}

/// A finite number, not below zero.
pub open spec fn non_negative_ok(n: JsonNumber) -> bool {
    number_value(n) is Fin && ext_le(fin(0), number_value(n))
}

/// The member `key`, where present, is a number that `ok` accepts.
pub open spec fn number_verdict(v: JsonValue, key: Seq<char>, ratio: bool) -> Verdict {
    match get(v, key) {
        None => None,
        Some(JsonValue::Number(n)) => if (ratio && ratio_ok(n)) || (!ratio && non_negative_ok(n)) {
            None
        } else {
            Some(key + "_out_of_range"@)
        },
        Some(_) => Some(key + "_must_be_number"@),
    }
}

fn number_accepted(n: JsonNumber, ratio: bool) -> (r: bool)
    ensures
        r == ((ratio && ratio_ok(n)) || (!ratio && non_negative_ok(n))),
{
    match n {
        JsonNumber::PosInt(u) => !ratio || u <= 1,
        JsonNumber::NegInt(i) => 0 <= i && (!ratio || i <= 1),
        JsonNumber::Float(x) => finite(x) && if ratio {
            unit_range_contains(x)
        } else {
            real_le(Real::Finite(0), x)
        },
    }
}

fn check_number(value: &JsonValue, key: &str, ratio: bool) -> (r: Result<(), String>)
    ensures
        outcome(r) == number_verdict(*value, key@, ratio),
{
    match json_get(value, key) {
        None => Ok(()),
        Some(JsonValue::Number(n)) => {
            if number_accepted(*n, ratio) {
                Ok(())
            } else {
                Err(join_str(key, "_out_of_range"))
            }
        },
        Some(_) => Err(join_str(key, "_must_be_number")),
    }
}

fn validate_optional_ratio(value: &JsonValue, key: &str) -> (r: Result<(), String>)
    ensures
        outcome(r) == number_verdict(*value, key@, true),
{
    check_number(value, key, true)
}

fn validate_optional_non_negative(value: &JsonValue, key: &str) -> (r: Result<(), String>)
    ensures
        outcome(r) == number_verdict(*value, key@, false),
{
    check_number(value, key, false)
}

// ---------------------------------------------------------------------------
// Targets named by a delta
// ---------------------------------------------------------------------------

/// The strings among JSON values, in order.
pub open spec fn json_strings(items: Seq<JsonValue>) -> Seq<Seq<char>>
    decreases items.len(),
{
    if items.len() == 0 {
        Seq::empty()
    } else {
        json_strings(items.drop_last()) + match items.last() {
            JsonValue::String(s) => seq![s@],
            _ => Seq::empty(),
        }
    }
}

pub open spec fn array_strings(v: JsonValue, key: Seq<char>) -> Seq<Seq<char>> {
    match get_array(v, key) {
        Some(items) => json_strings(items),
        None => Seq::empty(),
    }
}

/// The target ids a delta names, in the order they appear.
pub open spec fn named_targets(v: JsonValue) -> Seq<Seq<char>> {
    array_strings(v, "target_ids"@) + array_strings(v, "target_refs"@) + array_strings(
        v,
        "applies_to"@,
    ) + match get_str(v, "target_id"@) {
        Some(s) => seq![s],
        None => Seq::empty(),
    }
}

/// The target ids of a delta, sorted, each once.
pub open spec fn delta_targets(d: CharacterStateDelta) -> Seq<Seq<char>> {
    sorted_set_of(named_targets(d.temporary_state_delta))
}

fn push_array_strings(ids: &mut Vec<String>, v: &JsonValue, key: &str)
    ensures
        strings_view(final(ids)@) == strings_view(old(ids)@) + array_strings(*v, key@),
{
    match json_get_array(v, key) {
        None => {
            assert(strings_view(ids@) =~= strings_view(old(ids)@) + Seq::<Seq<char>>::empty());
        },
        Some(items) => {
            let mut i: usize = 0;
            while i < items.len()
                invariant
                    i <= items.len(),
                    strings_view(ids@) == strings_view(old(ids)@) + json_strings(
                        items@.take(i as int),
                    ),
                decreases items.len() - i,
            {
                let ghost before = ids@;
                assert(items@.take((i + 1) as int).drop_last() =~= items@.take(i as int));
                match &items[i] {
                    JsonValue::String(s) => {
                        ids.push(s.clone());
                        assert(strings_view(ids@) =~= strings_view(before).push(s@));
                    },
                    _ => {},
                }
                i += 1;
            }
            assert(items@.take(items.len() as int) =~= items@);
        },
    }
}

/// The target ids a delta names: the strings of its `target_ids`,
/// `target_refs` and `applies_to` arrays and its `target_id`, sorted and
/// each once.
pub fn extract_target_ids(delta: &CharacterStateDelta) -> (r: Vec<String>)
    ensures
        strings_view(r@) == delta_targets(*delta),
{
    let v = &delta.temporary_state_delta;
    let mut ids: Vec<String> = Vec::new();
    push_array_strings(&mut ids, v, "target_ids");
    push_array_strings(&mut ids, v, "target_refs");
    push_array_strings(&mut ids, v, "applies_to");
    let ghost before = ids@;
    match json_get_str(v, "target_id") {
        Some(t) => {
            ids.push(t.clone());
            assert(strings_view(ids@) =~= strings_view(before).push(t@));
        },
        None => {},
    }
    assert(strings_view(ids@) =~= named_targets(*v));
    sort_dedup(&ids)
}

// ---------------------------------------------------------------------------
// One character delta
// ---------------------------------------------------------------------------

/// Index of the first character with the id `id`.
pub open spec fn character_index_from(chars: Seq<CharacterRecord>, id: Seq<char>, i: int) -> Option<int>
    decreases chars.len() - i,
{
    if i < 0 || i >= chars.len() {
        None
    } else if chars[i].character_id@ == id {
        Some(i)
    } else {
        character_index_from(chars, id, i + 1)
    }
}

/// Index of the first skill with the id `id` (held by `holder`, where given).
pub open spec fn skill_index_from(skills: Seq<Skill>, id: Seq<char>, holder: Option<Seq<char>>, i: int) -> Option<int>
    decreases skills.len() - i,
{
    if i < 0 || i >= skills.len() {
        None
    } else if skills[i].skill_id@ == id && match holder {
        Some(h) => holds_skill(skills[i], h),
        None => true,
    } {
        Some(i)
    } else {
        skill_index_from(skills, id, holder, i + 1)
    }
}

/// The skill a delta uses: the first with that id that the actor holds,
/// else the first with that id.
pub open spec fn chosen_skill(skills: Seq<Skill>, id: Seq<char>, actor_id: Seq<char>) -> Option<int> {
    match skill_index_from(skills, id, Some(actor_id), 0) {
        Some(k) => Some(k),
        None => skill_index_from(skills, id, None, 0),
    }
}

pub open spec fn forbidden_verdict(v: JsonValue) -> Verdict {
    if get(v, "base_attributes"@) is Some {
        Some("immutable_character_field_in_delta:base_attributes"@)
    } else if get(v, "baseline_body_profile"@) is Some {
        Some("immutable_character_field_in_delta:baseline_body_profile"@)
    } else if get(v, "mind_model_card_knowledge_id"@) is Some {
        Some("immutable_character_field_in_delta:mind_model_card_knowledge_id"@)
    } else if get(v, "schema_version"@) is Some {
        Some("immutable_character_field_in_delta:schema_version"@)
    } else if get(v, "created_at"@) is Some {
        Some("immutable_character_field_in_delta:created_at"@)
    } else {
        None
    }
}

/// The checks on the numbers and nested objects of a delta.
pub open spec fn delta_values_verdict(v: JsonValue) -> Verdict {
    first_fail(
        number_verdict(v, "fatigue"@, true),
        first_fail(
            number_verdict(v, "pain_load"@, true),
            first_fail(
                number_verdict(v, "mana_reserve_current"@, false),
                first_fail(
                    match get(v, "environmental_exposure"@) {
                        None => None,
                        Some(e) => if !is_object(e) {
                            Some("environmental_exposure_delta_must_be_object"@)
                        } else {
                            first_fail(
                                number_verdict(e, "cold_strain"@, true),
                                first_fail(
                                    number_verdict(e, "heat_strain"@, true),
                                    number_verdict(e, "respiration_strain"@, true),
                                ),
                            )
                        },
                    },
                    match get(v, "mana_expression"@) {
                        None => None,
                        Some(x) => if !is_object(x) {
                            Some("mana_expression_delta_must_be_object"@)
                        } else {
                            first_fail(
                                number_verdict(x, "display_ratio"@, false),
                                number_verdict(x, "pressure_ratio"@, false),
                            )
                        },
                    },
                ),
            ),
        ),
    )
}

pub open spec fn signals_verdict(d: CharacterStateDelta) -> Verdict {
    if exists|i: int|
        0 <= i < d.outward_body_signals@.len() && is_blank(#[trigger] d.outward_body_signals@[i]@) {
        Some("empty_outward_body_signal"@)
    } else if d.outward_body_signals@.len() > 16 {
        Some("too_many_outward_body_signals"@)
    } else {
        None
    }
}

/// Whether a character delta may be applied: the reason it may not, or `None`.
pub open spec fn delta_verdict(
    d: CharacterStateDelta,
    skills: Seq<Skill>,
    chars: Seq<CharacterRecord>,
    scene: SceneModel,
) -> Verdict {
    let v = d.temporary_state_delta;
    match character_index_from(chars, d.character_id@, 0) {
        None => Some("unknown_character"@),
        Some(t) => if entity_index(scene, d.character_id@) is None {
            Some("character_not_present_in_scene"@)
        } else if !is_object(v) {
            Some("temporary_state_delta_must_be_object"@)
        } else {
            let actor_id = match get_str(v, "actor_id"@) {
                Some(a) => a,
                None => d.character_id@,
            };
            match character_index_from(chars, actor_id, 0) {
                None => Some("unknown_actor"@),
                Some(a) => if entity_index(scene, chars[a].character_id@) is None {
                    Some("actor_not_present_in_scene"@)
                } else {
                    first_fail(
                        match get_str(v, "skill_id"@) {
                            None => None,
                            Some(sid) => match chosen_skill(skills, sid, actor_id) {
                                None => Some("unknown_skill_id"@),
                                Some(k) => constraints_verdict(
                                    skills[k],
                                    chars[a],
                                    chars[t],
                                    delta_targets(d),
                                    scene,
                                ),
                            },
                        },
                        first_fail(
                            forbidden_verdict(v),
                            first_fail(delta_values_verdict(v), signals_verdict(d)),
                        ),
                    )
                },
            }
        },
    }
}

fn find_character(characters: &[CharacterRecord], id: &str) -> (r: Option<usize>)
    ensures
        match r {
            Some(i) => i < characters.len() && character_index_from(characters@, id@, 0) == Some(
                i as int,
            ),
            None => character_index_from(characters@, id@, 0) is None,
        },
{
    let mut i: usize = 0;
    while i < characters.len()
        invariant
            i <= characters.len(),
            character_index_from(characters@, id@, 0) == character_index_from(
                characters@,
                id@,
                i as int,
            ),
        decreases characters.len() - i,
    {
        if str_eq(characters[i].character_id.as_str(), id) {
            return Some(i);
        }
        i += 1;
    }
    None
}

fn find_skill(skills: &[Skill], id: &str, holder: Option<&str>) -> (r: Option<usize>)
    ensures
        match r {
            Some(i) => i < skills.len() && skill_index_from(
                skills@,
                id@,
                match holder {
                    Some(h) => Some(h@),
                    None => None,
                },
                0,
            ) == Some(i as int),
            None => skill_index_from(
                skills@,
                id@,
                match holder {
                    Some(h) => Some(h@),
                    None => None,
                },
                0,
            ) is None,
        },
{
    let ghost h: Option<Seq<char>> = match holder {
        Some(h) => Some(h@),
        None => None,
    };
    let mut i: usize = 0;
    while i < skills.len()
        invariant
            i <= skills.len(),
            h == match holder {
                Some(x) => Some(x@),
                None => None::<Seq<char>>,
            },
            skill_index_from(skills@, id@, h, 0) == skill_index_from(skills@, id@, h, i as int),
        decreases skills.len() - i,
    {
        if str_eq(skills[i].skill_id.as_str(), id) {
            let held = match holder {
                Some(x) => skills[i].belongs_to_character(x),
                None => true,
            };
            if held {
                return Some(i);
            }
        }
        i += 1;
    }
    None
}

fn check_forbidden_keys(v: &JsonValue) -> (r: Result<(), String>)
    ensures
        outcome(r) == forbidden_verdict(*v),
{
    if json_get(v, "base_attributes").is_some() {
        return Err("immutable_character_field_in_delta:base_attributes".to_owned());
    }
    if json_get(v, "baseline_body_profile").is_some() {
        return Err("immutable_character_field_in_delta:baseline_body_profile".to_owned());
    }
    if json_get(v, "mind_model_card_knowledge_id").is_some() {
        return Err("immutable_character_field_in_delta:mind_model_card_knowledge_id".to_owned());
    }
    if json_get(v, "schema_version").is_some() {
        return Err("immutable_character_field_in_delta:schema_version".to_owned());
    }
    if json_get(v, "created_at").is_some() {
        return Err("immutable_character_field_in_delta:created_at".to_owned());
    }
    Ok(())
}

fn check_delta_values(v: &JsonValue) -> (r: Result<(), String>)
    ensures
        outcome(r) == delta_values_verdict(*v),
{
    let r = validate_optional_ratio(v, "fatigue");
    if r.is_err() {
        return r;
    }
    let r = validate_optional_ratio(v, "pain_load");
    if r.is_err() {
        return r;
    }
    let r = validate_optional_non_negative(v, "mana_reserve_current");
    if r.is_err() {
        return r;
    }
    match json_get(v, "environmental_exposure") {
        None => {},
        Some(environment) => {
            if !json_is_object(environment) {
                return Err("environmental_exposure_delta_must_be_object".to_owned());
            }
            let r = validate_optional_ratio(environment, "cold_strain");
            if r.is_err() {
                return r;
            }
            let r = validate_optional_ratio(environment, "heat_strain");
            if r.is_err() {
                return r;
            }
            let r = validate_optional_ratio(environment, "respiration_strain");
            if r.is_err() {
                return r;
            }
        },
    }
    match json_get(v, "mana_expression") {
        None => Ok(()),
        Some(expression) => {
            if !json_is_object(expression) {
                return Err("mana_expression_delta_must_be_object".to_owned());
            }
            let r = validate_optional_non_negative(expression, "display_ratio");
            if r.is_err() {
                return r;
            }
            validate_optional_non_negative(expression, "pressure_ratio")
        },
    }
}

fn check_signals(delta: &CharacterStateDelta) -> (r: Result<(), String>)
    ensures
        outcome(r) == signals_verdict(*delta),
{
    let signals = &delta.outward_body_signals;
    let mut i: usize = 0;
    while i < signals.len()
        invariant
            i <= signals.len(),
            signals@ == delta.outward_body_signals@,
            forall|j: int| 0 <= j < i ==> !is_blank(#[trigger] signals@[j]@),
        decreases signals.len() - i,
    {
        if str_blank(signals[i].as_str()) {
            return Err("empty_outward_body_signal".to_owned());
        }
        i += 1;
    }
    if signals.len() > 16 {
        return Err("too_many_outward_body_signals".to_owned());
    }
    Ok(())
}

impl EffectValidator {
    /// Whether one character delta may be applied.
    fn validate_character_delta(
        delta: &CharacterStateDelta,
        skills: &[Skill],
        characters: &[CharacterRecord],
        scene: &SceneModel,
    ) -> (r: Result<(), String>)
        ensures
            outcome(r) == delta_verdict(*delta, skills@, characters@, *scene),
    {
        let t = match find_character(characters, delta.character_id.as_str()) {
            None => {
                return Err("unknown_character".to_owned());
            },
            Some(t) => t,
        };
        if find_scene_entity(scene, delta.character_id.as_str()).is_none() {
            return Err("character_not_present_in_scene".to_owned());
        }
        let v = &delta.temporary_state_delta;
        if !json_is_object(v) {
            return Err("temporary_state_delta_must_be_object".to_owned());
        }
        let actor_id: &str = match json_get_str(v, "actor_id") {
            Some(a) => a.as_str(),
            None => delta.character_id.as_str(),
        };
        let a = match find_character(characters, actor_id) {
            None => {
                return Err("unknown_actor".to_owned());
            },
            Some(a) => a,
        };
        if find_scene_entity(scene, characters[a].character_id.as_str()).is_none() {
            return Err("actor_not_present_in_scene".to_owned());
        }
        match json_get_str(v, "skill_id") {
            None => {},
            Some(skill_id) => {
                let k = match find_skill(skills, skill_id.as_str(), Some(actor_id)) {
                    Some(k) => k,
                    None => match find_skill(skills, skill_id.as_str(), None) {
                        Some(k) => k,
                        None => {
                            return Err("unknown_skill_id".to_owned());
                        },
                    },
                };
                let target_ids = extract_target_ids(delta);
                let r = validate_skill_constraints(
                    &skills[k],
                    &characters[a],
                    &characters[t],
                    target_ids.as_slice(),
                    scene,
                );
                if r.is_err() {
                    return r;
                }
            },
        }
        let r = check_forbidden_keys(v);
        if r.is_err() {
            return r;
        }
        let r = check_delta_values(v);
        if r.is_err() {
            return r;
        }
        check_signals(delta)
    }
}

// ---------------------------------------------------------------------------
// The plan as a whole
// ---------------------------------------------------------------------------

/// The deltas that may be applied, in order.
pub open spec fn valid_deltas(
    ds: Seq<CharacterStateDelta>,
    skills: Seq<Skill>,
    chars: Seq<CharacterRecord>,
    scene: SceneModel,
) -> Seq<DeltaView>
    decreases ds.len(),
{
    if ds.len() == 0 {
        Seq::empty()
    } else {
        valid_deltas(ds.drop_last(), skills, chars, scene) + if delta_verdict(
            ds.last(),
            skills,
            chars,
            scene,
        ) is None {
            seq![delta_view(ds.last())]
        } else {
            Seq::empty()
        }
    }
}

/// The refusals of the deltas that may not be applied, in order.
pub open spec fn delta_refusals(
    ds: Seq<CharacterStateDelta>,
    skills: Seq<Skill>,
    chars: Seq<CharacterRecord>,
    scene: SceneModel,
) -> Seq<BlockedView>
    decreases ds.len(),
{
    if ds.len() == 0 {
        Seq::empty()
    } else {
        delta_refusals(ds.drop_last(), skills, chars, scene) + match delta_verdict(
            ds.last(),
            skills,
            chars,
            scene,
        ) {
            Some(reason) => seq![refusal(ds.last().character_id@, "character_state"@, reason)],
            None => Seq::empty(),
        }
    }
}

pub open spec fn has_entity(scene: SceneModel, id: Seq<char>) -> bool {
    exists|i: int| 0 <= i < scene.entities@.len() && #[trigger] scene.entities@[i].entity_id@ == id
}

pub open spec fn signal_in(s: Seq<ObservableSignal>, id: Seq<char>) -> bool {
    exists|i: int| 0 <= i < s.len() && #[trigger] s[i].signal_id@ == id
}

/// The scene shows a visual, audio or mana signal with that id.
pub open spec fn has_signal(scene: SceneModel, id: Seq<char>) -> bool {
    let o = scene.observable_signals;
    signal_in(o.visual_signals@, id) || signal_in(o.audio_signals@, id) || signal_in(
        o.mana_signals@,
        id,
    )
}

pub open spec fn has_hidden_fact(scene: SceneModel, id: Seq<char>) -> bool {
    exists|i: int|
        0 <= i < scene.private_state.hidden_facts@.len()
            && #[trigger] scene.private_state.hidden_facts@[i].fact_id@ == id
}

pub open spec fn entity_delta_refusals(s: Seq<crate::effect_model::EntityDelta>, scene: SceneModel) -> Seq<BlockedView>
    decreases s.len(),
{
    if s.len() == 0 {
        Seq::empty()
    } else {
        let e = s.last();
        entity_delta_refusals(s.drop_last(), scene) + (if !has_entity(scene, e.entity_id@) {
            seq![refusal(e.entity_id@, "scene.entity"@, "unknown_scene_entity"@)]
        } else {
            Seq::empty()
        }) + (if is_blank(e.delta_kind@) || !is_object(e.payload) {
            seq![refusal(e.entity_id@, "scene.entity"@, "invalid_entity_delta_payload"@)]
        } else {
            Seq::empty()
        })
    }
}

pub open spec fn signal_delta_refusals(s: Seq<crate::effect_model::ObservableSignalDelta>, scene: SceneModel) -> Seq<
    BlockedView,
>
    decreases s.len(),
{
    if s.len() == 0 {
        Seq::empty()
    } else {
        let e = s.last();
        signal_delta_refusals(s.drop_last(), scene) + (if !has_signal(scene, e.signal_id@) {
            seq![refusal(e.signal_id@, "scene.signal"@, "unknown_observable_signal"@)]
        } else {
            Seq::empty()
        }) + (if is_blank(e.delta_kind@) || !is_object(e.payload) {
            seq![refusal(e.signal_id@, "scene.signal"@, "invalid_signal_delta_payload"@)]
        } else {
            Seq::empty()
        })
    }
}

pub open spec fn private_delta_refusals(s: Seq<crate::effect_model::PrivateStateDelta>, scene: SceneModel) -> Seq<
    BlockedView,
>
    decreases s.len(),
{
    if s.len() == 0 {
        Seq::empty()
    } else {
        let e = s.last();
        private_delta_refusals(s.drop_last(), scene) + if !has_hidden_fact(scene, e.private_fact_id@) {
            seq![refusal(e.private_fact_id@, "scene.private_state"@, "unknown_private_fact"@)]
        } else {
            Seq::empty()
        }
    }
}

/// A physical or mana field delta whose patches are not an object.
pub open spec fn field_patch_bad(sd: SceneDelta) -> bool {
    (match sd.physical_delta {
        Some(f) => !is_object(f.field_patches),
        None => false,
    }) || (match sd.mana_field_delta {
        Some(f) => !is_object(f.field_patches),
        None => false,
    })
}

/// The refusals of a scene delta, in the order they are found.
pub open spec fn scene_refusals(sd: SceneDelta, scene: SceneModel) -> Seq<BlockedView> {
    (if sd.scene_id@ != scene.scene_id@ {
        seq![(sd.scene_id@, Some(scene.scene_id@), "scene"@, "scene_delta_scene_id_mismatch"@)]
    } else {
        Seq::empty()
    }) + entity_delta_refusals(sd.entity_deltas@, scene) + signal_delta_refusals(
        sd.observable_signal_deltas@,
        scene,
    ) + private_delta_refusals(sd.private_state_deltas@, scene) + if field_patch_bad(sd) {
        seq![refusal(sd.scene_id@, "scene"@, "scene_field_patch_must_be_object"@)]
    } else {
        Seq::empty()
    }
}

/// All refusals of a plan: its character deltas, then its scene delta.
pub open spec fn plan_refusals(
    plan: StateUpdatePlan,
    skills: Seq<Skill>,
    chars: Seq<CharacterRecord>,
    scene: SceneModel,
) -> Seq<BlockedView> {
    delta_refusals(plan.character_state_deltas@, skills, chars, scene) + match plan.scene_delta {
        Some(sd) => scene_refusals(sd, scene),
        None => Seq::empty(),
    }
}

fn push_refusal(blocked: &mut Vec<BlockedEffect>, cond: bool, id: &String, domain: &str, reason: &str)
    requires
        forall|i: int| 0 <= i < old(blocked)@.len() ==> (#[trigger] old(blocked)@[i]).fallback_soft_effect is None,
    ensures
        blocked_views(final(blocked)@) == blocked_views(old(blocked)@) + if cond {
            seq![refusal(id@, domain@, reason@)]
        } else {
            Seq::empty()
        },
        forall|i: int| 0 <= i < final(blocked)@.len() ==> (#[trigger] final(blocked)@[i]).fallback_soft_effect is None,
{
    if cond {
        let b = block(id, id, domain, reason.to_owned());
        blocked.push(b);
        assert(blocked_views(blocked@) =~= blocked_views(old(blocked)@) + seq![refusal(id@, domain@, reason@)]);
    } else {
        assert(blocked_views(blocked@) =~= blocked_views(old(blocked)@) + Seq::<BlockedView>::empty());
    }
}

pub(crate) fn entity_listed(scene: &SceneModel, id: &str) -> (r: bool)
    ensures
        r == has_entity(*scene, id@),
{
    let ents = &scene.entities;
    let mut i: usize = 0;
    while i < ents.len()
        invariant
            i <= ents.len(),
            ents@ == scene.entities@,
            forall|j: int| 0 <= j < i ==> #[trigger] ents@[j].entity_id@ != id@,
        decreases ents.len() - i,
    {
        if str_eq(ents[i].entity_id.as_str(), id) {
            return true;
        }
        i += 1;
    }
    false
}

fn signal_listed(s: &Vec<ObservableSignal>, id: &str) -> (r: bool)
    ensures
        r == signal_in(s@, id@),
{
    let mut i: usize = 0;
    while i < s.len()
        invariant
            i <= s.len(),
            forall|j: int| 0 <= j < i ==> #[trigger] s@[j].signal_id@ != id@,
        decreases s.len() - i,
    {
        if str_eq(s[i].signal_id.as_str(), id) {
            return true;
        }
        i += 1;
    }
    false
}

fn fact_listed(scene: &SceneModel, id: &str) -> (r: bool)
    ensures
        r == has_hidden_fact(*scene, id@),
{
    let facts = &scene.private_state.hidden_facts;
    let mut i: usize = 0;
    while i < facts.len()
        invariant
            i <= facts.len(),
            facts@ == scene.private_state.hidden_facts@,
            forall|j: int| 0 <= j < i ==> #[trigger] facts@[j].fact_id@ != id@,
        decreases facts.len() - i,
    {
        if str_eq(facts[i].fact_id.as_str(), id) {
            return true;
        }
        i += 1;
    }
    false
}

fn check_scene_delta(blocked: &mut Vec<BlockedEffect>, sd: &SceneDelta, scene: &SceneModel)
    requires
        forall|i: int| 0 <= i < old(blocked)@.len() ==> (#[trigger] old(blocked)@[i]).fallback_soft_effect is None,
    ensures
        blocked_views(final(blocked)@) == blocked_views(old(blocked)@) + scene_refusals(*sd, *scene),
        forall|i: int| 0 <= i < final(blocked)@.len() ==> (#[trigger] final(blocked)@[i]).fallback_soft_effect is None,
{
    let ghost b0 = blocked_views(blocked@);
    if !str_eq(sd.scene_id.as_str(), scene.scene_id.as_str()) {
        let b = block(&sd.scene_id, &scene.scene_id, "scene", "scene_delta_scene_id_mismatch".to_owned());
        blocked.push(b);
        assert(blocked_views(blocked@) =~= b0.push(blocked_view(b)));
    }
    let ghost b1 = blocked_views(blocked@);
    assert(b1 == b0 + if sd.scene_id@ != scene.scene_id@ {
        seq![(sd.scene_id@, Some(scene.scene_id@), "scene"@, "scene_delta_scene_id_mismatch"@)]
    } else {
        Seq::<BlockedView>::empty()
    });

    let es = &sd.entity_deltas;
    let mut i: usize = 0;
    while i < es.len()
        invariant
            i <= es.len(),
            es@ == sd.entity_deltas@,
            blocked_views(blocked@) == b1 + entity_delta_refusals(es@.take(i as int), *scene),
            forall|k: int| 0 <= k < blocked@.len() ==> (#[trigger] blocked@[k]).fallback_soft_effect is None,
        decreases es.len() - i,
    {
        assert(es@.take((i + 1) as int).drop_last() =~= es@.take(i as int));
        let e = &es[i];
        push_refusal(
            blocked,
            !entity_listed(scene, e.entity_id.as_str()),
            &e.entity_id,
            "scene.entity",
            "unknown_scene_entity",
        );
        push_refusal(
            blocked,
            str_blank(e.delta_kind.as_str()) || !json_is_object(&e.payload),
            &e.entity_id,
            "scene.entity",
            "invalid_entity_delta_payload",
        );
        i += 1;
    }
    assert(es@.take(es.len() as int) =~= es@);
    let ghost b2 = blocked_views(blocked@);

    let ss = &sd.observable_signal_deltas;
    let mut i: usize = 0;
    while i < ss.len()
        invariant
            i <= ss.len(),
            ss@ == sd.observable_signal_deltas@,
            blocked_views(blocked@) == b2 + signal_delta_refusals(ss@.take(i as int), *scene),
            forall|k: int| 0 <= k < blocked@.len() ==> (#[trigger] blocked@[k]).fallback_soft_effect is None,
        decreases ss.len() - i,
    {
        assert(ss@.take((i + 1) as int).drop_last() =~= ss@.take(i as int));
        let e = &ss[i];
        let id = e.signal_id.as_str();
        let known = signal_listed(&scene.observable_signals.visual_signals, id) || signal_listed(
            &scene.observable_signals.audio_signals,
            id,
        ) || signal_listed(&scene.observable_signals.mana_signals, id);
        push_refusal(blocked, !known, &e.signal_id, "scene.signal", "unknown_observable_signal");
        push_refusal(
            blocked,
            str_blank(e.delta_kind.as_str()) || !json_is_object(&e.payload),
            &e.signal_id,
            "scene.signal",
            "invalid_signal_delta_payload",
        );
        i += 1;
    }
    assert(ss@.take(ss.len() as int) =~= ss@);
    let ghost b3 = blocked_views(blocked@);

    let ps = &sd.private_state_deltas;
    let mut i: usize = 0;
    while i < ps.len()
        invariant
            i <= ps.len(),
            ps@ == sd.private_state_deltas@,
            blocked_views(blocked@) == b3 + private_delta_refusals(ps@.take(i as int), *scene),
            forall|k: int| 0 <= k < blocked@.len() ==> (#[trigger] blocked@[k]).fallback_soft_effect is None,
        decreases ps.len() - i,
    {
        assert(ps@.take((i + 1) as int).drop_last() =~= ps@.take(i as int));
        let e = &ps[i];
        push_refusal(
            blocked,
            !fact_listed(scene, e.private_fact_id.as_str()),
            &e.private_fact_id,
            "scene.private_state",
            "unknown_private_fact",
        );
        i += 1;
    }
    assert(ps@.take(ps.len() as int) =~= ps@);

    let bad_physical = match &sd.physical_delta {
        Some(f) => !json_is_object(&f.field_patches),
        None => false,
    };
    let bad_mana = match &sd.mana_field_delta {
        Some(f) => !json_is_object(&f.field_patches),
        None => false,
    };
    push_refusal(
        blocked,
        bad_physical || bad_mana,
        &sd.scene_id,
        "scene",
        "scene_field_patch_must_be_object",
    );
}

pub open spec fn domain_label(d: StateDomain) -> Seq<char> {
    match d {
        StateDomain::Body => "body"@,
        StateDomain::Resource => "resource"@,
        StateDomain::Position => "position"@,
        StateDomain::Perception => "perception"@,
        StateDomain::Mind => "mind"@,
        StateDomain::Soul => "soul"@,
        StateDomain::Scene => "scene"@,
        StateDomain::KnowledgeReveal => "knowledge_reveal"@,
    }
}

/// The name of a state domain.
pub fn state_domain_to_str(domain: StateDomain) -> (r: &'static str)
    ensures
        r@ == domain_label(domain),
{
    match domain {
        StateDomain::Body => "body",
        StateDomain::Resource => "resource",
        StateDomain::Position => "position",
        StateDomain::Perception => "perception",
        StateDomain::Mind => "mind",
        StateDomain::Soul => "soul",
        StateDomain::Scene => "scene",
        StateDomain::KnowledgeReveal => "knowledge_reveal",
    }
}

/// The rank of an intensity tier, weakest first.
pub open spec fn tier_rank(t: EffectIntensityTier) -> int {
    match t {
        EffectIntensityTier::Minor => 0,
        EffectIntensityTier::Moderate => 1,
        EffectIntensityTier::Major => 2,
        EffectIntensityTier::Extreme => 3,
    }
}

fn rank(t: EffectIntensityTier) -> (r: u8)
    ensures
        r == tier_rank(t),
{
    match t {
        EffectIntensityTier::Minor => 0,
        EffectIntensityTier::Moderate => 1,
        EffectIntensityTier::Major => 2,
        EffectIntensityTier::Extreme => 3,
    }
}

/// A skill's contract allows the effect: its target kind, its state domain
/// (named ignoring ASCII case), its intensity, and its kind where the kind
/// needs a permission.
pub open spec fn effect_allowed(e: EffectRequest, s: Skill) -> bool {
    let c = s.effect_contract;
    &&& c.allowed_target_kinds@.contains(e.target_kind)
    &&& exists|i: int|
        0 <= i < c.allowed_state_domains@.len() && eq_ignore_ascii_case(
            #[trigger] c.allowed_state_domains@[i]@,
            domain_label(e.state_domain),
        )
    &&& tier_rank(e.intensity_tier) <= tier_rank(c.max_intensity_tier)
    &&& !(e.effect_kind == EffectKind::Injury && !c.allows_injury)
    &&& !(e.effect_kind == EffectKind::PositionChange && !c.allows_position_change)
    &&& !(e.effect_kind == EffectKind::KnowledgeReveal && !c.allows_knowledge_reveal)
}

/// The character a skill use is previewed on: the actor for a skill on
/// oneself, else the first named target where it is a known character,
/// else the actor.
pub open spec fn preview_target(
    s: Skill,
    actor: CharacterRecord,
    chars: Seq<CharacterRecord>,
    ids: Seq<Seq<char>>,
) -> CharacterRecord {
    if s.effect_contract.target_kind == TargetKind::SelfTarget || ids.len() == 0 {
        actor
    } else {
        match character_index_from(chars, ids[0], 0) {
            Some(i) => chars[i],
            None => actor,
        }
    }
}

impl EffectValidator {
    /// Validates a state update plan: each character delta is kept or
    /// refused with its reason, and the scene delta's entities, signals,
    /// private facts and field patches are checked.
    pub fn validate_state_update(
        plan: &StateUpdatePlan,
        skills: &[Skill],
        characters: &[CharacterRecord],
        scene: &SceneModel,
    ) -> (r: Result<ValidatedPlan, String>)
        ensures
            r matches Ok(p) && deltas_view(p.valid_character_deltas@) == valid_deltas(
                plan.character_state_deltas@,
                skills@,
                characters@,
                *scene,
            ) && blocked_views(p.blocked_effects@) == plan_refusals(
                *plan,
                skills@,
                characters@,
                *scene,
            ) && p.soft_effects@.len() == 0 && forall|i: int|
                0 <= i < p.blocked_effects@.len()
                    ==> (#[trigger] p.blocked_effects@[i]).fallback_soft_effect is None,
    {
        let mut valid: Vec<CharacterStateDelta> = Vec::new();
        let mut blocked: Vec<BlockedEffect> = Vec::new();
        let soft: Vec<SoftEffect> = Vec::new();
        let ds = &plan.character_state_deltas;
        let mut i: usize = 0;
        while i < ds.len()
            invariant
                i <= ds.len(),
                ds@ == plan.character_state_deltas@,
                deltas_view(valid@) == valid_deltas(ds@.take(i as int), skills@, characters@, *scene),
                blocked_views(blocked@) == delta_refusals(
                    ds@.take(i as int),
                    skills@,
                    characters@,
                    *scene,
                ),
                forall|k: int| 0 <= k < blocked@.len() ==> (#[trigger] blocked@[k]).fallback_soft_effect is None,
            decreases ds.len() - i,
        {
            assert(ds@.take((i + 1) as int).drop_last() =~= ds@.take(i as int));
            let ghost v0 = valid@;
            let ghost b0 = blocked@;
            let delta = &ds[i];
            match Self::validate_character_delta(delta, skills, characters, scene) {
                Ok(()) => {
                    let c = delta.copy();
                    valid.push(c);
                    assert(deltas_view(valid@) =~= deltas_view(v0).push(delta_view(*delta)));
                    assert(blocked_views(blocked@) =~= blocked_views(b0) + Seq::<BlockedView>::empty());
                },
                Err(reason) => {
                    let b = block(&delta.character_id, &delta.character_id, "character_state", reason);
                    blocked.push(b);
                    assert(blocked_views(blocked@) =~= blocked_views(b0).push(blocked_view(b)));
                    assert(deltas_view(valid@) =~= deltas_view(v0) + Seq::<DeltaView>::empty());
                },
            }
            i += 1;
        }
        assert(ds@.take(ds.len() as int) =~= ds@);
        let ghost b_deltas = blocked_views(blocked@);
        match &plan.scene_delta {
            Some(sd) => check_scene_delta(&mut blocked, sd, scene),
            None => {
                assert(blocked_views(blocked@) =~= b_deltas + Seq::<BlockedView>::empty());
            },
        }
        Ok(ValidatedPlan { valid_character_deltas: valid, blocked_effects: blocked, soft_effects: soft })
    }

    /// Whether a reaction or passive skill may be used now, before it is
    /// offered: the rules of a skill use, on the target it would have.
    pub fn preview_skill_use(
        skill: &Skill,
        actor: &CharacterRecord,
        characters: &[CharacterRecord],
        target_ids: &[String],
        scene: &SceneModel,
    ) -> (r: Result<(), String>)
        ensures
            outcome(r) == constraints_verdict(
                *skill,
                *actor,
                preview_target(*skill, *actor, characters@, strings_view(target_ids@)),
                strings_view(target_ids@),
                *scene,
            ),
    {
        let target: &CharacterRecord = if skill.effect_contract.target_kind == TargetKind::SelfTarget
            || target_ids.len() == 0 {
            actor
        } else {
            match find_character(characters, target_ids[0].as_str()) {
                Some(i) => &characters[i],
                None => actor,
            }
        };
        validate_skill_constraints(skill, actor, target, target_ids, scene)
    }

    /// Whether a skill's contract allows an effect.
    pub fn is_effect_allowed(effect: &EffectRequest, skill: &Skill, _character: &CharacterRecord) -> (r:
        bool)
        ensures
            r == effect_allowed(*effect, *skill),
    {
        let contract = &skill.effect_contract;
        let kinds = &contract.allowed_target_kinds;
        let mut i: usize = 0;
        let mut kind_ok = false;
        while i < kinds.len()
            invariant
                i <= kinds.len(),
                kinds@ == skill.effect_contract.allowed_target_kinds@,
                kind_ok == exists|j: int| 0 <= j < i && kinds@[j] == effect.target_kind,
            decreases kinds.len() - i,
        {
            if kinds[i] == effect.target_kind {
                kind_ok = true;
            }
            i += 1;
        }
        if !kind_ok {
            return false;
        }
        let domains = &contract.allowed_state_domains;
        let name = state_domain_to_str(effect.state_domain);
        let mut i: usize = 0;
        let mut domain_ok = false;
        while i < domains.len()
            invariant
                i <= domains.len(),
                domains@ == skill.effect_contract.allowed_state_domains@,
                name@ == domain_label(effect.state_domain),
                domain_ok == exists|j: int|
                    0 <= j < i && eq_ignore_ascii_case(#[trigger] domains@[j]@, name@),
            decreases domains.len() - i,
        {
            if eq_ignore_case(domains[i].as_str(), name) {
                domain_ok = true;
            }
            i += 1;
        }
        if !domain_ok {
            return false;
        }
        if rank(effect.intensity_tier) > rank(contract.max_intensity_tier) {
            return false;
        }
        match effect.effect_kind {
            EffectKind::Injury => contract.allows_injury,
            EffectKind::PositionChange => contract.allows_position_change,
            EffectKind::KnowledgeReveal => contract.allows_knowledge_reveal,
            _ => true,
        }
    }
}

/// Every character delta of a plan is either kept or refused, never both:
/// the kept deltas and the character refusals together number the deltas.
pub proof fn law_each_delta_kept_or_refused(
    ds: Seq<CharacterStateDelta>,
    skills: Seq<Skill>,
    chars: Seq<CharacterRecord>,
    scene: SceneModel,
)
    ensures
        valid_deltas(ds, skills, chars, scene).len() + delta_refusals(ds, skills, chars, scene).len() == ds.len(),
    decreases ds.len(),
{
    if ds.len() > 0 {
        law_each_delta_kept_or_refused(ds.drop_last(), skills, chars, scene);
    }
}

} // verus!
