//! The rules a skill use must meet: its reaction contract, its cost, its
//! requirements, its targets and its activation conditions.
//!
//! Each check passes (`None`) or names the first rule broken, as a reason
//! code. Distances compare squares: `sqrt(d) > r` exactly when `d > r * r`
//! for `r >= 0`.

use vstd::prelude::*;
use crate::effect_model::{ActivationCondition, ActivationTime, Position, SceneEntity, SceneModel, Skill, SkillKind, TargetCount};
use crate::quantity::{ext, ext_add, ext_lt, fin, is_finite, le, lt, real_le, real_lt, sum_lt, lt_sum, Real, UNIT};
use crate::text::{eq_ignore_ascii_case, eq_ignore_case, join_str, str_eq, strings_view};
use crate::world_model::{CharacterRecord, ConditionState};

verus! {

/// The verdict of a check: `None` when it passes, else the reason code.
pub type Verdict = Option<Seq<char>>;

pub open spec fn outcome(r: Result<(), String>) -> Verdict {
    match r {
        Ok(_) => None,
        Err(e) => Some(e@),
    }
}

/// The first failure of two checks made in turn.
pub open spec fn first_fail(a: Verdict, b: Verdict) -> Verdict {
    if a is Some {
        a
    } else {
        b
    }
}

// ---------------------------------------------------------------------------
// Conditions and attributes of a character
// ---------------------------------------------------------------------------

pub open spec fn condition_matches(c: ConditionState, name: Seq<char>) -> bool {
    c.condition_id@ == name || eq_ignore_ascii_case(c.condition_kind@, name)
}

/// The character has an active condition with that id, or of that kind
/// (ignoring ASCII case).
pub open spec fn carries_condition(ch: CharacterRecord, name: Seq<char>) -> bool {
    exists|i: int|
        0 <= i < ch.temporary_state.active_conditions@.len() && condition_matches(
            #[trigger] ch.temporary_state.active_conditions@[i],
            name,
        )
}

/// The character has an active condition of that kind (ignoring ASCII case).
pub open spec fn has_condition_kind(ch: CharacterRecord, kind: Seq<char>) -> bool {
    exists|i: int|
        0 <= i < ch.temporary_state.active_conditions@.len() && eq_ignore_ascii_case(
            (#[trigger] ch.temporary_state.active_conditions@[i]).condition_kind@,
            kind,
        )
}

pub open spec fn has_tag(s: Skill, tag: Seq<char>) -> bool {
    exists|i: int|
        0 <= i < s.metadata.tags@.len() && eq_ignore_ascii_case(#[trigger] s.metadata.tags@[i]@, tag)
}

/// The base attribute of that name (ignoring ASCII case).
pub open spec fn base_attribute(ch: CharacterRecord, name: Seq<char>) -> Option<Real> {
    let b = ch.base_attributes;
    if eq_ignore_ascii_case(name, "physical"@) {
        Some(b.physical)
    } else if eq_ignore_ascii_case(name, "agility"@) {
        Some(b.agility)
    } else if eq_ignore_ascii_case(name, "endurance"@) {
        Some(b.endurance)
    } else if eq_ignore_ascii_case(name, "insight"@) {
        Some(b.insight)
    } else if eq_ignore_ascii_case(name, "mana_power"@) {
        Some(b.mana_power)
    } else if eq_ignore_ascii_case(name, "soul_strength"@) {
        Some(b.soul_strength)
    } else {
        None
    }
}

pub fn has_condition(character: &CharacterRecord, condition: &str) -> (r: bool)
    ensures
        r == carries_condition(*character, condition@),
{
    let conds = &character.temporary_state.active_conditions;
    let mut i: usize = 0;
    while i < conds.len()
        invariant
            i <= conds.len(),
            conds@ == character.temporary_state.active_conditions@,
            forall|j: int| 0 <= j < i ==> !condition_matches(#[trigger] conds@[j], condition@),
        decreases conds.len() - i,
    {
        if str_eq(conds[i].condition_id.as_str(), condition) || eq_ignore_case(
            conds[i].condition_kind.as_str(),
            condition,
        ) {
            return true;
        }
        i += 1;
    }
    false
}

fn condition_kind_present(character: &CharacterRecord, kind: &str) -> (r: bool)
    ensures
        r == has_condition_kind(*character, kind@),
{
    let conds = &character.temporary_state.active_conditions;
    let mut i: usize = 0;
    while i < conds.len()
        invariant
            i <= conds.len(),
            conds@ == character.temporary_state.active_conditions@,
            forall|j: int|
                0 <= j < i ==> !eq_ignore_ascii_case((#[trigger] conds@[j]).condition_kind@, kind@),
        decreases conds.len() - i,
    {
        if eq_ignore_case(conds[i].condition_kind.as_str(), kind) {
            return true;
        }
        i += 1;
    }
    false
}

fn tagged(skill: &Skill, tag: &str) -> (r: bool)
    ensures
        r == has_tag(*skill, tag@),
{
    let tags = &skill.metadata.tags;
    let mut i: usize = 0;
    while i < tags.len()
        invariant
            i <= tags.len(),
            tags@ == skill.metadata.tags@,
            forall|j: int| 0 <= j < i ==> !eq_ignore_ascii_case(#[trigger] tags@[j]@, tag@),
        decreases tags.len() - i,
    {
        if eq_ignore_case(tags[i].as_str(), tag) {
            return true;
        }
        i += 1;
    }
    false
}

fn base_attribute_value(character: &CharacterRecord, attribute: &str) -> (r: Option<Real>)
    ensures
        r == base_attribute(*character, attribute@),
{
    let b = character.base_attributes;
    if eq_ignore_case(attribute, "physical") {
        Some(b.physical)
    } else if eq_ignore_case(attribute, "agility") {
        Some(b.agility)
    } else if eq_ignore_case(attribute, "endurance") {
        Some(b.endurance)
    } else if eq_ignore_case(attribute, "insight") {
        Some(b.insight)
    } else if eq_ignore_case(attribute, "mana_power") {
        Some(b.mana_power)
    } else if eq_ignore_case(attribute, "soul_strength") {
        Some(b.soul_strength)
    } else {
        None
    }
}

fn fail(code: &str) -> (r: Result<(), String>)
    ensures
        outcome(r) == Some(code@),
{
    Err(code.to_owned())
}

fn fail_with(prefix: &str, detail: &str) -> (r: Result<(), String>)
    ensures
        outcome(r) == Some(prefix@ + detail@),
{
    Err(join_str(prefix, detail))
}

// ---------------------------------------------------------------------------
// Reaction contract
// ---------------------------------------------------------------------------

pub open spec fn reaction_contract_verdict(s: Skill, actor: CharacterRecord, target: CharacterRecord) -> Verdict {
    let is_reaction = s.skill_kind == SkillKind::Reaction || s.activation.activation_time
        == ActivationTime::Reaction;
    let is_passive = s.skill_kind == SkillKind::Passive || s.skill_kind == SkillKind::Stance;
    let interrupt = has_tag(s, "interrupt"@);
    if is_reaction && interrupt && !has_condition_kind(actor, "interrupt_ready"@) {
        Some("interrupt_not_ready"@)
    } else if is_reaction && actor.character_id@ == target.character_id@ && interrupt {
        Some("interrupt_cannot_target_self"@)
    } else if is_passive && !has_condition_kind(actor, "passive_field"@) {
        Some("passive_field_not_active"@)
    } else {
        None
    }
}

fn validate_skill_reaction_contract(skill: &Skill, actor: &CharacterRecord, target_character: &CharacterRecord) -> (r:
    Result<(), String>)
    ensures
        outcome(r) == reaction_contract_verdict(*skill, *actor, *target_character),
{
    let is_reaction = skill.skill_kind == SkillKind::Reaction || skill.activation.activation_time
        == ActivationTime::Reaction;
    let is_passive = skill.skill_kind == SkillKind::Passive || skill.skill_kind == SkillKind::Stance;
    if is_reaction {
        let has_interrupt_tag = tagged(skill, "interrupt");
        let has_interrupt_ready = condition_kind_present(actor, "interrupt_ready");
        if has_interrupt_tag && !has_interrupt_ready {
            return fail("interrupt_not_ready");
        }
        if str_eq(actor.character_id.as_str(), target_character.character_id.as_str())
            && has_interrupt_tag {
            return fail("interrupt_cannot_target_self");
        }
    }
    if is_passive {
        if !condition_kind_present(actor, "passive_field") {
            return fail("passive_field_not_active");
        }
    }
    Ok(())
}

// ---------------------------------------------------------------------------
// Cost
// ---------------------------------------------------------------------------

pub open spec fn on_cooldown(ch: CharacterRecord, skill_id: Seq<char>) -> bool {
    exists|i: int|
        0 <= i < ch.temporary_state.cooldowns@.len() && (#[trigger] ch.temporary_state.cooldowns@[i]).ability_id@
            == skill_id && ch.temporary_state.cooldowns@[i].remaining_turns > 0
}

/// The current mana reserve, zero where unknown.
pub open spec fn mana_or_zero(ch: CharacterRecord) -> Real {
    match ch.temporary_state.mana_reserve_current {
        Some(m) => m,
        None => Real::Finite(0),
    }
}

/// Index of the first of `names` at or after `i` that the character lacks
/// (`want` false) or carries (`want` true).
pub open spec fn first_condition_from(names: Seq<String>, ch: CharacterRecord, want: bool, i: int) -> Option<int>
    decreases names.len() - i,
{
    if i < 0 || i >= names.len() {
        None
    } else if carries_condition(ch, names[i]@) == want {
        Some(i)
    } else {
        first_condition_from(names, ch, want, i + 1)
    }
}

pub open spec fn cost_verdict(s: Skill, ch: CharacterRecord) -> Verdict {
    let cost = s.requirements.cost;
    let mana_short = match cost.mana_reserve_delta {
        Some(d) => lt(d, Real::Finite(0)) && ext_lt(ext_add(ext(mana_or_zero(ch)), ext(d)), fin(0)),
        None => false,
    };
    let too_tired = match cost.fatigue_delta {
        Some(d) => ext_lt(fin(UNIT as int), ext_add(ext(ch.temporary_state.fatigue), ext(d))),
        None => false,
    };
    if on_cooldown(ch, s.skill_id@) {
        Some("skill_on_cooldown"@)
    } else if mana_short {
        Some("insufficient_mana_reserve"@)
    } else if too_tired {
        Some("fatigue_cost_exceeds_limit"@)
    } else if cost.material_refs@.len() > 0 {
        Some("unverified_material_ref:"@ + cost.material_refs@[0]@)
    } else {
        match first_condition_from(cost.required_conditions@, ch, false, 0) {
            Some(i) => Some("missing_required_condition:"@ + cost.required_conditions@[i]@),
            None => None,
        }
    }
}

fn cooling_down(character: &CharacterRecord, skill_id: &str) -> (r: bool)
    ensures
        r == on_cooldown(*character, skill_id@),
{
    let cds = &character.temporary_state.cooldowns;
    let mut i: usize = 0;
    while i < cds.len()
        invariant
            i <= cds.len(),
            cds@ == character.temporary_state.cooldowns@,
            forall|j: int|
                0 <= j < i ==> !((#[trigger] cds@[j]).ability_id@ == skill_id@ && cds@[j].remaining_turns
                    > 0),
        decreases cds.len() - i,
    {
        if str_eq(cds[i].ability_id.as_str(), skill_id) && cds[i].remaining_turns > 0 {
            return true;
        }
        i += 1;
    }
    false
}

/// Index of the first of `names` that the character lacks (`want` false)
/// or carries (`want` true).
fn first_condition(names: &Vec<String>, character: &CharacterRecord, want: bool) -> (r: Option<usize>)
    ensures
        match r {
            Some(i) => i < names.len() && first_condition_from(names@, *character, want, 0) == Some(
                i as int,
            ),
            None => first_condition_from(names@, *character, want, 0) is None,
        },
{
    let mut i: usize = 0;
    while i < names.len()
        invariant
            i <= names.len(),
            first_condition_from(names@, *character, want, 0) == first_condition_from(
                names@,
                *character,
                want,
                i as int,
            ),
        decreases names.len() - i,
    {
        if has_condition(character, names[i].as_str()) == want {
            return Some(i);
        }
        i += 1;
    }
    None
}

fn validate_skill_cost(skill: &Skill, character: &CharacterRecord) -> (r: Result<(), String>)
    ensures
        outcome(r) == cost_verdict(*skill, *character),
{
    if cooling_down(character, skill.skill_id.as_str()) {
        return fail("skill_on_cooldown");
    }
    let cost = &skill.requirements.cost;
    if let Some(mana_delta) = cost.mana_reserve_delta {
        if real_lt(mana_delta, Real::Finite(0)) {
            let current = match character.temporary_state.mana_reserve_current {
                Some(m) => m,
                None => Real::Finite(0),
            };
            if sum_lt(current, mana_delta, Real::Finite(0)) {
                return fail("insufficient_mana_reserve");
            }
        }
    }
    if let Some(fatigue_delta) = cost.fatigue_delta {
        if lt_sum(Real::Finite(UNIT), character.temporary_state.fatigue, fatigue_delta) {
            return fail("fatigue_cost_exceeds_limit");
        }
    }
    if cost.material_refs.len() > 0 {
        return fail_with("unverified_material_ref:", cost.material_refs[0].as_str());
    }
    match first_condition(&cost.required_conditions, character, false) {
        Some(i) => fail_with("missing_required_condition:", cost.required_conditions[i].as_str()),
        None => Ok(()),
    }
}

// ---------------------------------------------------------------------------
// Requirements
// ---------------------------------------------------------------------------

pub open spec fn minimum_attributes_verdict_from(attrs: Seq<(String, Real)>, ch: CharacterRecord, i: int) -> Verdict
    decreases attrs.len() - i,
{
    if i < 0 || i >= attrs.len() {
        None
    } else {
        match base_attribute(ch, attrs[i].0@) {
            None => Some("unknown_required_attribute:"@ + attrs[i].0@),
            Some(v) => if lt(v, attrs[i].1) {
                Some("minimum_attribute_not_met:"@ + attrs[i].0@)
            } else {
                minimum_attributes_verdict_from(attrs, ch, i + 1)
            },
        }
    }
}

pub open spec fn requirements_verdict(s: Skill, ch: CharacterRecord) -> Verdict {
    let req = s.requirements;
    first_fail(
        minimum_attributes_verdict_from(req.minimum_attributes@, ch, 0),
        match first_condition_from(req.prohibited_conditions@, ch, true, 0) {
            Some(i) => Some("prohibited_condition_present:"@ + req.prohibited_conditions@[i]@),
            None => if req.material_components@.len() > 0 {
                Some("unverified_material_component:"@ + req.material_components@[0]@)
            } else {
                None
            },
        },
    )
}

fn validate_skill_requirements(skill: &Skill, character: &CharacterRecord) -> (r: Result<(), String>)
    ensures
        outcome(r) == requirements_verdict(*skill, *character),
{
    let req = &skill.requirements;
    let attrs = &req.minimum_attributes;
    let mut i: usize = 0;
    while i < attrs.len()
        invariant
            i <= attrs.len(),
            attrs@ == skill.requirements.minimum_attributes@,
            minimum_attributes_verdict_from(attrs@, *character, 0)
                == minimum_attributes_verdict_from(attrs@, *character, i as int),
        decreases attrs.len() - i,
    {
        let attribute = attrs[i].0.as_str();
        match base_attribute_value(character, attribute) {
            None => {
                return fail_with("unknown_required_attribute:", attribute);
            },
            Some(actual) => {
                if real_lt(actual, attrs[i].1) {
                    return fail_with("minimum_attribute_not_met:", attribute);
                }
            },
        }
        i += 1;
    }
    match first_condition(&req.prohibited_conditions, character, true) {
        Some(j) => {
            return fail_with("prohibited_condition_present:", req.prohibited_conditions[j].as_str());
        },
        None => {},
    }
    if req.material_components.len() > 0 {
        return fail_with("unverified_material_component:", req.material_components[0].as_str());
    }
    Ok(())
}

// ---------------------------------------------------------------------------
// Distances and targets
// ---------------------------------------------------------------------------

pub open spec fn z_or_zero(p: Position) -> int {
    match p.z {
        Some(z) => z as int,
        None => 0,
    }
}

/// The squared distance between two positions, in square millionths of a metre.
pub open spec fn distance_sq(a: Position, b: Position) -> int {
    (a.x - b.x) * (a.x - b.x) + (a.y - b.y) * (a.y - b.y) + (z_or_zero(a) - z_or_zero(b)) * (
    z_or_zero(a) - z_or_zero(b))
}

/// The two positions are more than `limit` millionths of a metre apart.
pub open spec fn beyond(a: Position, b: Position, limit: int) -> bool {
    distance_sq(a, b) > limit * limit
}

/// Index of the first entity at or after `i` with the id `id`.
pub open spec fn entity_index_from(ents: Seq<SceneEntity>, id: Seq<char>, i: int) -> Option<int>
    decreases ents.len() - i,
{
    if i < 0 || i >= ents.len() {
        None
    } else if ents[i].entity_id@ == id {
        Some(i)
    } else {
        entity_index_from(ents, id, i + 1)
    }
}

pub open spec fn entity_index(scene: SceneModel, id: Seq<char>) -> Option<int> {
    entity_index_from(scene.entities@, id, 0)
}

/// The first of `ids` at or after `i` that is not in the scene, or lies
/// more than `limit` from `from`: its reason code.
pub open spec fn far_targets_verdict_from(
    scene: SceneModel,
    from: Position,
    ids: Seq<Seq<char>>,
    limit: int,
    code: Seq<char>,
    i: int,
) -> Verdict
    decreases ids.len() - i,
{
    if i < 0 || i >= ids.len() {
        None
    } else {
        match entity_index(scene, ids[i]) {
            None => Some("unknown_target_entity:"@ + ids[i]),
            Some(t) => if beyond(from, scene.entities@[t].position, limit) {
                Some(code + ids[i])
            } else {
                far_targets_verdict_from(scene, from, ids, limit, code, i + 1)
            },
        }
    }
}

/// Every target lies within `range` of the actor.
pub open spec fn range_verdict(actor: CharacterRecord, ids: Seq<Seq<char>>, scene: SceneModel, range: Real) -> Verdict {
    if !is_finite(range) || lt(range, Real::Finite(0)) {
        Some("invalid_skill_range"@)
    } else {
        match entity_index(scene, actor.character_id@) {
            None => Some("actor_not_present_in_scene"@),
            Some(a) => far_targets_verdict_from(
                scene,
                scene.entities@[a].position,
                ids,
                range->Finite_0 as int,
                "target_out_of_range:"@,
                0,
            ),
        }
    }
}

/// Every target lies within the scene's visibility range of the actor.
pub open spec fn line_of_sight_verdict(actor: CharacterRecord, ids: Seq<Seq<char>>, scene: SceneModel) -> Verdict {
    let vis = scene.physical_conditions.airborne.visibility_range_m;
    match entity_index(scene, actor.character_id@) {
        None => Some("actor_not_present_in_scene"@),
        Some(a) => if !is_finite(vis) || le(vis, Real::Finite(0)) {
            Some("line_of_sight_blocked_by_visibility"@)
        } else {
            far_targets_verdict_from(
                scene,
                scene.entities@[a].position,
                ids,
                vis->Finite_0 as int,
                "line_of_sight_blocked:"@,
                0,
            )
        },
    }
}

pub proof fn lemma_axis_beyond(dx: int, dy: int, dz: int, limit: int)
    requires
        0 <= limit,
        dx > limit || -dx > limit || dy > limit || -dy > limit || dz > limit || -dz > limit,
    ensures
        dx * dx + dy * dy + dz * dz > limit * limit,
{
    assert(dx * dx >= 0 && dy * dy >= 0 && dz * dz >= 0) by (nonlinear_arith);
    if dx > limit || -dx > limit {
        assert(dx * dx > limit * limit) by (nonlinear_arith)
            requires
                0 <= limit,
                dx > limit || -dx > limit,
        ;
    } else if dy > limit || -dy > limit {
        assert(dy * dy > limit * limit) by (nonlinear_arith)
            requires
                0 <= limit,
                dy > limit || -dy > limit,
        ;
    } else {
        assert(dz * dz > limit * limit) by (nonlinear_arith)
            requires
                0 <= limit,
                dz > limit || -dz > limit,
        ;
    }
}

pub proof fn lemma_square_bound(d: int, limit: int)
    requires
        0 <= limit,
        -limit <= d <= limit,
    ensures
        0 <= d * d <= limit * limit,
{
    assert(0 <= d * d <= limit * limit) by (nonlinear_arith)
        requires
            0 <= limit,
            -limit <= d <= limit,
    ;
}

fn is_beyond(a: Position, b: Position, limit: i64) -> (r: bool)
    requires
        limit >= 0,
    ensures
        r == beyond(a, b, limit as int),
{
    let az: i64 = match a.z {
        Some(z) => z,
        None => 0,
    };
    let bz: i64 = match b.z {
        Some(z) => z,
        None => 0,
    };
    let dx: i128 = (a.x as i128) - (b.x as i128);
    let dy: i128 = (a.y as i128) - (b.y as i128);
    let dz: i128 = (az as i128) - (bz as i128);
    let lim: i128 = limit as i128;
    assert(z_or_zero(a) == az && z_or_zero(b) == bz);
    if dx > lim || -dx > lim || dy > lim || -dy > lim || dz > lim || -dz > lim {
        proof {
            lemma_axis_beyond(dx as int, dy as int, dz as int, lim as int);
        }
        return true;
    }
    proof {
        lemma_square_bound(dx as int, lim as int);
        lemma_square_bound(dy as int, lim as int);
        lemma_square_bound(dz as int, lim as int);
        lemma_square_bound(lim as int, lim as int);
        assert(lim * lim < 0x4000_0000_0000_0000_0000_0000_0000_0000) by (nonlinear_arith)
            requires
                0 <= lim < 0x8000_0000_0000_0000,
        ;
    }
    let sx: u128 = (dx * dx) as u128;
    let sy: u128 = (dy * dy) as u128;
    let sz: u128 = (dz * dz) as u128;
    let sum: u128 = sx + sy + sz;
    let bound: u128 = (lim * lim) as u128;
    sum > bound
}

/// The first target, in order, that is missing from the scene or lies more
/// than `limit` from `from`.
fn check_far_targets(
    from: Position,
    target_ids: &[String],
    scene: &SceneModel,
    limit: i64,
    code: &str,
) -> (r: Result<(), String>)
    requires
        limit >= 0,
    ensures
        outcome(r) == far_targets_verdict_from(
            *scene,
            from,
            strings_view(target_ids@),
            limit as int,
            code@,
            0,
        ),
{
    let ghost ids = strings_view(target_ids@);
    let mut i: usize = 0;
    while i < target_ids.len()
        invariant
            i <= target_ids.len(),
            limit >= 0,
            ids == strings_view(target_ids@),
            far_targets_verdict_from(*scene, from, ids, limit as int, code@, 0)
                == far_targets_verdict_from(*scene, from, ids, limit as int, code@, i as int),
        decreases target_ids.len() - i,
    {
        let target_id = target_ids[i].as_str();
        match find_scene_entity(scene, target_id) {
            None => {
                return fail_with("unknown_target_entity:", target_id);
            },
            Some(t) => {
                if is_beyond(from, scene.entities[t].position, limit) {
                    return fail_with(code, target_id);
                }
            },
        }
        i += 1;
    }
    Ok(())
}

/// Index of the first entity of the scene with that id.
pub fn find_scene_entity(scene: &SceneModel, entity_id: &str) -> (r: Option<usize>)
    ensures
        match r {
            Some(i) => i < scene.entities.len() && entity_index(*scene, entity_id@) == Some(i as int),
            None => entity_index(*scene, entity_id@) is None,
        },
{
    let ents = &scene.entities;
    let mut i: usize = 0;
    while i < ents.len()
        invariant
            i <= ents.len(),
            ents == scene.entities,
            entity_index_from(ents@, entity_id@, 0) == entity_index_from(ents@, entity_id@, i as int),
        decreases ents.len() - i,
    {
        if str_eq(ents[i].entity_id.as_str(), entity_id) {
            return Some(i);
        }
        i += 1;
    }
    None
}

fn validate_targets_in_range(actor: &CharacterRecord, target_ids: &[String], scene: &SceneModel, range_m: Real) -> (r:
    Result<(), String>)
    ensures
        outcome(r) == range_verdict(*actor, strings_view(target_ids@), *scene, range_m),
{
    let limit: i64 = match range_m {
        Real::Finite(m) => {
            if m < 0 {
                return fail("invalid_skill_range");
            }
            m
        },
        _ => {
            return fail("invalid_skill_range");
        },
    };
    match find_scene_entity(scene, actor.character_id.as_str()) {
        None => fail("actor_not_present_in_scene"),
        Some(a) => check_far_targets(
            scene.entities[a].position,
            target_ids,
            scene,
            limit,
            "target_out_of_range:",
        ),
    }
}

fn validate_targets_in_line_of_sight(actor: &CharacterRecord, target_ids: &[String], scene: &SceneModel) -> (r:
    Result<(), String>)
    ensures
        outcome(r) == line_of_sight_verdict(*actor, strings_view(target_ids@), *scene),
{
    let a = match find_scene_entity(scene, actor.character_id.as_str()) {
        None => {
            return fail("actor_not_present_in_scene");
        },
        Some(a) => a,
    };
    let limit: i64 = match scene.physical_conditions.airborne.visibility_range_m {
        Real::Finite(m) => {
            if m <= 0 {
                return fail("line_of_sight_blocked_by_visibility");
            }
            m
        },
        _ => {
            return fail("line_of_sight_blocked_by_visibility");
        },
    };
    check_far_targets(scene.entities[a].position, target_ids, scene, limit, "line_of_sight_blocked:")
}

/// The targets a skill use names: the given ids, or the target character
/// where none is given.
pub open spec fn concrete_targets(target: CharacterRecord, ids: Seq<Seq<char>>) -> Seq<Seq<char>> {
    if ids.len() == 0 {
        seq![target.character_id@]
    } else {
        ids
    }
}

pub open spec fn targets_verdict(
    s: Skill,
    actor: CharacterRecord,
    target: CharacterRecord,
    ids: Seq<Seq<char>>,
    scene: SceneModel,
) -> Verdict {
    let concrete = concrete_targets(target, ids);
    let count_bad = match s.effect_contract.target_count {
        TargetCount::Single => concrete.len() != 1,
        TargetCount::Multi(max) => (concrete.len() as u32) > max,
    };
    if count_bad {
        match s.effect_contract.target_count {
            TargetCount::Single => Some("target_count_requires_single"@),
            TargetCount::Multi(_) => Some("target_count_exceeded"@),
        }
    } else {
        match s.effect_contract.range_m {
            Some(r) => range_verdict(actor, concrete, scene, r),
            None => None,
        }
    }
}

fn validate_skill_targets(
    skill: &Skill,
    actor: &CharacterRecord,
    target_character: &CharacterRecord,
    target_ids: &[String],
    scene: &SceneModel,
) -> (r: Result<(), String>)
    ensures
        outcome(r) == targets_verdict(*skill, *actor, *target_character, strings_view(target_ids@), *scene),
{
    let single: Vec<String> = vec![target_character.character_id.clone()];
    let concrete: &[String] = if target_ids.len() == 0 {
        single.as_slice()
    } else {
        target_ids
    };
    assert(strings_view(concrete@) =~= concrete_targets(*target_character, strings_view(target_ids@)));
    match skill.effect_contract.target_count {
        TargetCount::Single => {
            if concrete.len() != 1 {
                return fail("target_count_requires_single");
            }
        },
        TargetCount::Multi(max) => {
            if (concrete.len() as u32) > max {
                return fail("target_count_exceeded");
            }
        },
    }
    match skill.effect_contract.range_m {
        Some(range_m) => validate_targets_in_range(actor, concrete, scene, range_m),
        None => Ok(()),
    }
}

// ---------------------------------------------------------------------------
// Activation conditions
// ---------------------------------------------------------------------------

/// The current mana reserve, the mana power where unknown.
pub open spec fn mana_or_power(ch: CharacterRecord) -> Real {
    match ch.temporary_state.mana_reserve_current {
        Some(m) => m,
        None => ch.base_attributes.mana_power,
    }
}

pub open spec fn condition_verdict(
    c: ActivationCondition,
    actor: CharacterRecord,
    ids: Seq<Seq<char>>,
    scene: SceneModel,
) -> Verdict {
    match c {
        ActivationCondition::ManaReserveAtLeast(min) => if lt(mana_or_power(actor), min) {
            Some("activation_mana_reserve_too_low"@)
        } else {
            None
        },
        ActivationCondition::FatigueBelow(max) => if le(max, actor.temporary_state.fatigue) {
            Some("activation_fatigue_too_high"@)
        } else {
            None
        },
        ActivationCondition::HasStatus(s) => if !carries_condition(actor, s@) {
            Some("activation_missing_status:"@ + s@)
        } else {
            None
        },
        ActivationCondition::LacksStatus(s) => if carries_condition(actor, s@) {
            Some("activation_blocked_by_status:"@ + s@)
        } else {
            None
        },
        ActivationCondition::TargetInRange(r) => if ids.len() == 0 {
            Some("activation_missing_target_for_range"@)
        } else {
            range_verdict(actor, ids, scene, r)
        },
        ActivationCondition::TargetInLineOfSight => if ids.len() == 0 {
            Some("activation_missing_target_for_line_of_sight"@)
        } else {
            line_of_sight_verdict(actor, ids, scene)
        },
        _ => None,
    }
}

pub open spec fn activation_verdict_from(
    conds: Seq<ActivationCondition>,
    actor: CharacterRecord,
    ids: Seq<Seq<char>>,
    scene: SceneModel,
    i: int,
) -> Verdict
    decreases conds.len() - i,
{
    if i < 0 || i >= conds.len() {
        None
    } else {
        first_fail(
            condition_verdict(conds[i], actor, ids, scene),
            activation_verdict_from(conds, actor, ids, scene, i + 1),
        )
    }
}

fn validate_activation_condition(
    condition: &ActivationCondition,
    actor: &CharacterRecord,
    target_ids: &[String],
    scene: &SceneModel,
) -> (r: Result<(), String>)
    ensures
        outcome(r) == condition_verdict(*condition, *actor, strings_view(target_ids@), *scene),
{
    match condition {
        ActivationCondition::ManaReserveAtLeast(minimum) => {
            let current = match actor.temporary_state.mana_reserve_current {
                Some(m) => m,
                None => actor.base_attributes.mana_power,
            };
            if real_lt(current, *minimum) {
                return fail("activation_mana_reserve_too_low");
            }
            Ok(())
        },
        ActivationCondition::FatigueBelow(maximum) => {
            if real_le(*maximum, actor.temporary_state.fatigue) {
                return fail("activation_fatigue_too_high");
            }
            Ok(())
        },
        ActivationCondition::HasStatus(status) => {
            if !has_condition(actor, status.as_str()) {
                return fail_with("activation_missing_status:", status.as_str());
            }
            Ok(())
        },
        ActivationCondition::LacksStatus(status) => {
            if has_condition(actor, status.as_str()) {
                return fail_with("activation_blocked_by_status:", status.as_str());
            }
            Ok(())
        },
        ActivationCondition::TargetInRange(range_m) => {
            if target_ids.len() == 0 {
                return fail("activation_missing_target_for_range");
            }
            validate_targets_in_range(actor, target_ids, scene, *range_m)
        },
        ActivationCondition::TargetInLineOfSight => {
            if target_ids.len() == 0 {
                return fail("activation_missing_target_for_line_of_sight");
            }
            validate_targets_in_line_of_sight(actor, target_ids, scene)
        },
        _ => Ok(()),
    }
}

fn validate_activation_conditions(skill: &Skill, actor: &CharacterRecord, target_ids: &[String], scene: &SceneModel) -> (r:
    Result<(), String>)
    ensures
        outcome(r) == activation_verdict_from(
            skill.activation.trigger_conditions@,
            *actor,
            strings_view(target_ids@),
            *scene,
            0,
        ),
{
    let conds = &skill.activation.trigger_conditions;
    let ghost ids = strings_view(target_ids@);
    let mut i: usize = 0;
    while i < conds.len()
        invariant
            i <= conds.len(),
            conds@ == skill.activation.trigger_conditions@,
            ids == strings_view(target_ids@),
            activation_verdict_from(conds@, *actor, ids, *scene, 0) == activation_verdict_from(
                conds@,
                *actor,
                ids,
                *scene,
                i as int,
            ),
        decreases conds.len() - i,
    {
        let r = validate_activation_condition(&conds[i], actor, target_ids, scene);
        if r.is_err() {
            return r;
        }
        i += 1;
    }
    Ok(())
}

// ---------------------------------------------------------------------------
// All rules of a skill use
// ---------------------------------------------------------------------------

/// The rules of a skill use, checked in turn: reaction contract, cost,
/// requirements, targets, activation conditions.
pub open spec fn constraints_verdict(
    s: Skill,
    actor: CharacterRecord,
    target: CharacterRecord,
    ids: Seq<Seq<char>>,
    scene: SceneModel,
) -> Verdict {
    first_fail(
        reaction_contract_verdict(s, actor, target),
        first_fail(
            cost_verdict(s, actor),
            first_fail(
                requirements_verdict(s, actor),
                first_fail(
                    targets_verdict(s, actor, target, ids, scene),
                    activation_verdict_from(s.activation.trigger_conditions@, actor, ids, scene, 0),
                ),
            ),
        ),
    )
}

pub fn validate_skill_constraints(
    skill: &Skill,
    actor: &CharacterRecord,
    target_character: &CharacterRecord,
    target_ids: &[String],
    scene: &SceneModel,
) -> (r: Result<(), String>)
    ensures
        outcome(r) == constraints_verdict(*skill, *actor, *target_character, strings_view(target_ids@), *scene),
{
    let r = validate_skill_reaction_contract(skill, actor, target_character);
    if r.is_err() {
        return r;
    }
    let r = validate_skill_cost(skill, actor);
    if r.is_err() {
        return r;
    }
    let r = validate_skill_requirements(skill, actor);
    if r.is_err() {
        return r;
    }
    let r = validate_skill_targets(skill, actor, target_character, target_ids, scene);
    if r.is_err() {
        return r;
    }
    validate_activation_conditions(skill, actor, target_ids, scene)
}

// ---------------------------------------------------------------------------
// Laws of the requirements
// ---------------------------------------------------------------------------

/// The character has the attribute `name`, and its base value is below `min`.
pub open spec fn below_minimum(ch: CharacterRecord, name: Seq<char>, min: Real) -> bool {
    match base_attribute(ch, name) {
        Some(v) => lt(v, min),
        None => false,
    }
}

/// The character has the attribute `name`, and its base value is not below `min`.
pub open spec fn meets_minimum(ch: CharacterRecord, name: Seq<char>, min: Real) -> bool {
    match base_attribute(ch, name) {
        Some(v) => !lt(v, min),
        None => false,
    }
}

proof fn lemma_minimum_attributes(attrs: Seq<(String, Real)>, ch: CharacterRecord, i: int)
    requires
        0 <= i,
    ensures
        (forall|k: int|
            i <= k < attrs.len() ==> meets_minimum(ch, (#[trigger] attrs[k]).0@, attrs[k].1)) ==> minimum_attributes_verdict_from(attrs, ch, i) is None,
        minimum_attributes_verdict_from(attrs, ch, i) matches Some(m) ==> exists|k: int|
            i <= k < attrs.len() && ((m == "unknown_required_attribute:"@ + (#[trigger] attrs[k]).0@ && base_attribute(
                ch,
                attrs[k].0@,
            ) is None) || (m == "minimum_attribute_not_met:"@ + attrs[k].0@ && below_minimum(ch, attrs[k].0@, attrs[k].1))),
    decreases attrs.len() - i,
{
    if i < attrs.len() {
        lemma_minimum_attributes(attrs, ch, i + 1);
    }
}

proof fn lemma_prefix_differs(p: Seq<char>, q: Seq<char>, a: Seq<char>, b: Seq<char>)
    requires
        p.len() > 0,
        q.len() > 0,
        p[0] != q[0],
    ensures
        p + a != q + b,
{
    assert((p + a)[0] == p[0]);
    assert((q + b)[0] == q[0]);
}

proof fn lemma_prefix_cancels(p: Seq<char>, a: Seq<char>, b: Seq<char>)
    requires
        p + a == p + b,
    ensures
        a == b,
{
    assert((p + a).skip(p.len() as int) =~= a);
    assert((p + b).skip(p.len() as int) =~= b);
}

/// A skill's minimum attributes refuse a character exactly for an
/// attribute strictly below its minimum: a character whose named
/// attributes all meet their minimums is never refused as
/// `minimum_attribute_not_met`, and such a refusal names a required
/// attribute whose value is below the minimum.
pub proof fn law_minimum_attribute_refusal(s: Skill, ch: CharacterRecord)
    ensures
        (forall|k: int|
            0 <= k < s.requirements.minimum_attributes@.len() ==> meets_minimum(
                ch,
                (#[trigger] s.requirements.minimum_attributes@[k]).0@,
                s.requirements.minimum_attributes@[k].1,
            )) ==> forall|n: Seq<char>|
            requirements_verdict(s, ch) != Some(#[trigger] ("minimum_attribute_not_met:"@ + n)),
        forall|n: Seq<char>|
            requirements_verdict(s, ch) == Some(#[trigger] ("minimum_attribute_not_met:"@ + n)) ==> exists|k: int|
                0 <= k < s.requirements.minimum_attributes@.len() && (#[trigger] s.requirements.minimum_attributes@[k]).0@
                    == n && below_minimum(ch, n, s.requirements.minimum_attributes@[k].1),
{
    reveal_strlit("minimum_attribute_not_met:");
    reveal_strlit("unknown_required_attribute:");
    reveal_strlit("prohibited_condition_present:");
    reveal_strlit("unverified_material_component:");
    let attrs = s.requirements.minimum_attributes@;
    let req = s.requirements;
    let mam = "minimum_attribute_not_met:"@;
    lemma_minimum_attributes(attrs, ch, 0);
    let mv = minimum_attributes_verdict_from(attrs, ch, 0);
    let rest = match first_condition_from(req.prohibited_conditions@, ch, true, 0) {
        Some(i) => Some("prohibited_condition_present:"@ + req.prohibited_conditions@[i]@),
        None => if req.material_components@.len() > 0 {
            Some("unverified_material_component:"@ + req.material_components@[0]@)
        } else {
            None
        },
    };
    assert(requirements_verdict(s, ch) == first_fail(mv, rest));
    assert forall|n: Seq<char>| rest != Some(#[trigger] (mam + n)) by {
        match first_condition_from(req.prohibited_conditions@, ch, true, 0) {
            Some(i) => lemma_prefix_differs("prohibited_condition_present:"@, mam, req.prohibited_conditions@[i]@, n),
            None => if req.material_components@.len() > 0 {
                lemma_prefix_differs("unverified_material_component:"@, mam, req.material_components@[0]@, n);
            },
        }
    }
    assert forall|n: Seq<char>| requirements_verdict(s, ch) == Some(#[trigger] (mam + n)) implies exists|k: int|
        0 <= k < attrs.len() && (#[trigger] attrs[k]).0@ == n && below_minimum(ch, n, attrs[k].1) by {
        match mv {
            Some(m) => {
                let k = choose|k: int|
                    0 <= k < attrs.len() && ((m == "unknown_required_attribute:"@ + (#[trigger] attrs[k]).0@
                        && base_attribute(ch, attrs[k].0@) is None) || (m == mam + attrs[k].0@ && below_minimum(ch, attrs[k].0@, attrs[k].1)));
                if m == "unknown_required_attribute:"@ + attrs[k].0@ {
                    lemma_prefix_differs("unknown_required_attribute:"@, mam, attrs[k].0@, n);
                } else {
                    lemma_prefix_cancels(mam, attrs[k].0@, n);
                }
            },
            None => {},
        }
    }
}

} // verus!
