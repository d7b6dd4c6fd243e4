use smart_tavern::effect_model::{
    ActivationCondition, ActivationTime, AirborneEffects, CharacterStateDelta, CostProfile,
    EffectIntensityTier, HiddenFact, ObservableSignal, ObservableSignals, PhysicalConditions,
    Position, SceneDelta, SceneEntity, SceneModel, ScenePrivateState, Skill, SkillActivation,
    SkillEffectContract, SkillKind, SkillMetadata, SkillRequirements, StateDomain,
    StateUpdatePlan, TargetCount, TargetKind, EntityDelta, FieldDelta, ObservableSignalDelta,
    PrivateStateDelta,
};
use smart_tavern::effect_validator::{
    extract_target_ids, state_domain_to_str, EffectKind, EffectRequest, EffectValidator,
};
use smart_tavern::json::{JsonNumber, JsonValue};
use smart_tavern::quantity::Real;
use smart_tavern::world_model::{
    BaseAttributes, BaselineBodyProfile, CharacterRecord, ConditionState, CooldownState,
    EnvironmentalExposure, ManaExpressionState, ManaExpressionTendency, ManaSenseBaseline,
    TemporaryCharacterState,
};

fn units(v: i64) -> Real {
    Real::Finite(v * 1_000_000)
}

fn character(id: &str) -> CharacterRecord {
    CharacterRecord {
        character_id: id.to_string(),
        base_attributes: BaseAttributes {
            physical: units(100),
            agility: units(100),
            endurance: units(100),
            insight: units(100),
            mana_power: units(200),
            soul_strength: units(100),
        },
        baseline_body_profile: BaselineBodyProfile {
            species: "human".to_string(),
            comfort_temperature_range: (units(18), units(26)),
            mana_sense_baseline: ManaSenseBaseline {
                acuity: Real::Finite(200_000),
                overload_threshold: units(1000),
            },
        },
        mana_expression_tendency: ManaExpressionTendency::Neutral,
        mana_expression_tendency_factor_override: None,
        mind_model_card_knowledge_id: format!("mind-{id}"),
        temporary_state: TemporaryCharacterState {
            fatigue: Real::Finite(0),
            pain_load: Real::Finite(0),
            mana_reserve_current: None,
            mana_expression: ManaExpressionState {
                display_ratio: Real::Finite(0),
                pressure_ratio: Real::Finite(0),
            },
            environmental_exposure: EnvironmentalExposure {
                cold_strain: Real::Finite(0),
                heat_strain: Real::Finite(0),
                respiration_strain: Real::Finite(0),
            },
            active_conditions: Vec::new(),
            mana_suppression: Vec::new(),
            cooldowns: Vec::new(),
        },
        schema_version: "0.1".to_string(),
    }
}

fn scene(visibility_range_m: i64) -> SceneModel {
    SceneModel {
        scene_id: "scene-1".to_string(),
        entities: vec![
            SceneEntity {
                entity_id: "actor".to_string(),
                position: Position { x: 0, y: 0, z: None },
            },
            SceneEntity {
                entity_id: "target".to_string(),
                position: Position { x: 12_000_000, y: 0, z: None },
            },
        ],
        observable_signals: ObservableSignals {
            visual_signals: Vec::new(),
            audio_signals: Vec::new(),
            mana_signals: Vec::new(),
        },
        private_state: ScenePrivateState { hidden_facts: Vec::new() },
        physical_conditions: PhysicalConditions {
            airborne: AirborneEffects { visibility_range_m: units(visibility_range_m) },
        },
    }
}

fn skill() -> Skill {
    Skill {
        skill_id: "dash".to_string(),
        skill_kind: SkillKind::Active,
        activation: SkillActivation {
            activation_time: ActivationTime::Instant,
            trigger_conditions: Vec::new(),
        },
        effect_contract: SkillEffectContract {
            target_kind: TargetKind::Character,
            target_count: TargetCount::Single,
            range_m: Some(units(20)),
            allowed_target_kinds: vec![TargetKind::Character],
            allowed_state_domains: vec!["body".to_string()],
            max_intensity_tier: EffectIntensityTier::Moderate,
            allows_injury: true,
            allows_position_change: false,
            allows_knowledge_reveal: false,
        },
        requirements: SkillRequirements {
            minimum_attributes: Vec::new(),
            prohibited_conditions: Vec::new(),
            material_components: Vec::new(),
            cost: CostProfile {
                mana_reserve_delta: Some(units(-10)),
                fatigue_delta: None,
                material_refs: Vec::new(),
                required_conditions: Vec::new(),
            },
        },
        metadata: SkillMetadata { tags: Vec::new() },
        holder_ids: Vec::new(),
    }
}

fn text(s: &str) -> JsonValue {
    JsonValue::String(s.to_string())
}

fn object(members: Vec<(&str, JsonValue)>) -> JsonValue {
    JsonValue::Object(members.into_iter().map(|(k, v)| (k.to_string(), v)).collect())
}

fn dash_payload() -> JsonValue {
    object(vec![
        ("actor_id", text("actor")),
        ("skill_id", text("dash")),
        ("target_ids", JsonValue::Array(vec![text("target")])),
    ])
}

fn plan_with_delta(payload: JsonValue) -> StateUpdatePlan {
    StateUpdatePlan {
        scene_delta: None,
        character_state_deltas: vec![CharacterStateDelta {
            character_id: "target".to_string(),
            temporary_state_delta: payload,
            outward_body_signals: Vec::new(),
        }],
    }
}

fn blocked_reason(plan: StateUpdatePlan, skill: Skill, actor: CharacterRecord) -> String {
    let result = EffectValidator::validate_state_update(
        &plan,
        &[skill],
        &[actor, character("target")],
        &scene(100),
    )
    .expect("validation result");
    result.blocked_effects[0].reason_code.clone()
}

fn ready_actor() -> CharacterRecord {
    let mut actor = character("actor");
    actor.temporary_state.mana_reserve_current = Some(units(100));
    actor
}

#[test]
fn blocks_skill_when_actor_cooldown_is_active() {
    let mut actor = ready_actor();
    actor.temporary_state.cooldowns.push(CooldownState {
        ability_id: "dash".to_string(),
        remaining_turns: 1,
    });
    let reason = blocked_reason(plan_with_delta(dash_payload()), skill(), actor);
    assert_eq!(reason, "skill_on_cooldown");
}

#[test]
fn blocks_skill_when_material_component_cannot_be_verified() {
    let actor = ready_actor();
    let mut skill = skill();
    skill.requirements.material_components.push("jade-token".to_string());
    let reason = blocked_reason(plan_with_delta(dash_payload()), skill, actor);
    assert_eq!(reason, "unverified_material_component:jade-token");
}

#[test]
fn blocks_skill_targets_beyond_contract_range() {
    let actor = ready_actor();
    let mut skill = skill();
    skill.effect_contract.range_m = Some(units(5));
    let reason = blocked_reason(plan_with_delta(dash_payload()), skill, actor);
    assert_eq!(reason, "target_out_of_range:target");
}

#[test]
fn blocks_line_of_sight_when_visibility_is_too_low() {
    let actor = ready_actor();
    let mut skill = skill();
    skill.activation.trigger_conditions.push(ActivationCondition::TargetInLineOfSight);
    let result = EffectValidator::validate_state_update(
        &plan_with_delta(dash_payload()),
        &[skill],
        &[actor, character("target")],
        &scene(5),
    )
    .expect("validation result");
    assert_eq!(result.blocked_effects[0].reason_code, "line_of_sight_blocked:target");
}

#[test]
fn blocks_interrupt_reaction_when_actor_is_not_interrupt_ready() {
    let actor = ready_actor();
    let mut skill = skill();
    skill.skill_kind = SkillKind::Reaction;
    skill.activation.activation_time = ActivationTime::Reaction;
    skill.metadata.tags.push("interrupt".to_string());
    let reason = blocked_reason(plan_with_delta(dash_payload()), skill, actor);
    assert_eq!(reason, "interrupt_not_ready");
}

#[test]
fn allows_interrupt_reaction_when_actor_is_interrupt_ready() {
    let mut actor = ready_actor();
    actor.temporary_state.active_conditions.push(ConditionState {
        condition_id: "c1".to_string(),
        condition_kind: "interrupt_ready".to_string(),
        intensity: units(1),
    });
    let mut skill = skill();
    skill.skill_kind = SkillKind::Reaction;
    skill.activation.activation_time = ActivationTime::Reaction;
    skill.metadata.tags.push("interrupt".to_string());
    let result = EffectValidator::validate_state_update(
        &plan_with_delta(dash_payload()),
        &[skill],
        &[actor, character("target")],
        &scene(100),
    )
    .expect("validation result");
    assert!(result.blocked_effects.is_empty());
    assert_eq!(result.valid_character_deltas.len(), 1);
}

#[test]
fn blocks_passive_reaction_when_passive_field_is_not_active() {
    let actor = ready_actor();
    let mut skill = skill();
    skill.skill_kind = SkillKind::Passive;
    skill.effect_contract.allowed_state_domains = vec!["scene".to_string()];
    let reason = blocked_reason(plan_with_delta(dash_payload()), skill, actor);
    assert_eq!(reason, "passive_field_not_active");
}

#[test]
fn refuses_unknown_characters_and_immutable_fields() {
    let plan = StateUpdatePlan {
        scene_delta: None,
        character_state_deltas: vec![
            CharacterStateDelta {
                character_id: "ghost".to_string(),
                temporary_state_delta: object(vec![]),
                outward_body_signals: Vec::new(),
            },
            CharacterStateDelta {
                character_id: "target".to_string(),
                temporary_state_delta: object(vec![("schema_version", text("0.2"))]),
                outward_body_signals: Vec::new(),
            },
            CharacterStateDelta {
                character_id: "target".to_string(),
                temporary_state_delta: JsonValue::Null,
                outward_body_signals: Vec::new(),
            },
        ],
    };
    let result = EffectValidator::validate_state_update(
        &plan,
        &[skill()],
        &[ready_actor(), character("target")],
        &scene(100),
    )
    .unwrap();
    let reasons: Vec<&str> =
        result.blocked_effects.iter().map(|b| b.reason_code.as_str()).collect();
    assert_eq!(
        reasons,
        vec![
            "unknown_character",
            "immutable_character_field_in_delta:schema_version",
            "temporary_state_delta_must_be_object",
        ]
    );
    assert!(result.valid_character_deltas.is_empty());
    assert_eq!(result.blocked_effects[0].attempted_state_domain, "character_state");
    assert_eq!(result.blocked_effects[0].target_id.as_deref(), Some("ghost"));
}

#[test]
fn checks_ratios_and_outward_signals() {
    let too_tired = object(vec![("fatigue", JsonValue::Number(JsonNumber::Float(Real::Finite(1_500_000))))]);
    let not_number = object(vec![("pain_load", text("high"))]);
    let exposure = object(vec![("environmental_exposure", JsonValue::Array(vec![]))]);
    let fine = object(vec![
        ("fatigue", JsonValue::Number(JsonNumber::PosInt(1))),
        ("mana_reserve_current", JsonValue::Number(JsonNumber::PosInt(40))),
    ]);
    let mut deltas = Vec::new();
    for payload in [too_tired, not_number, exposure, fine] {
        deltas.push(CharacterStateDelta {
            character_id: "target".to_string(),
            temporary_state_delta: payload,
            outward_body_signals: Vec::new(),
        });
    }
    deltas.push(CharacterStateDelta {
        character_id: "target".to_string(),
        temporary_state_delta: object(vec![]),
        outward_body_signals: vec!["  ".to_string()],
    });
    deltas.push(CharacterStateDelta {
        character_id: "target".to_string(),
        temporary_state_delta: object(vec![]),
        outward_body_signals: (0..17).map(|i| format!("signal {i}")).collect(),
    });
    let plan = StateUpdatePlan { scene_delta: None, character_state_deltas: deltas };
    let result =
        EffectValidator::validate_state_update(&plan, &[], &[character("target")], &scene(100))
            .unwrap();
    let reasons: Vec<&str> =
        result.blocked_effects.iter().map(|b| b.reason_code.as_str()).collect();
    assert_eq!(
        reasons,
        vec![
            "fatigue_out_of_range",
            "pain_load_must_be_number",
            "environmental_exposure_delta_must_be_object",
            "empty_outward_body_signal",
            "too_many_outward_body_signals",
        ]
    );
    assert_eq!(result.valid_character_deltas.len(), 1);
}

#[test]
fn checks_scene_delta_references() {
    let mut scene = scene(100);
    scene.observable_signals.audio_signals.push(ObservableSignal { signal_id: "bell".to_string() });
    scene.private_state.hidden_facts.push(HiddenFact { fact_id: "secret".to_string() });
    let plan = StateUpdatePlan {
        scene_delta: Some(SceneDelta {
            scene_id: "scene-2".to_string(),
            entity_deltas: vec![
                EntityDelta {
                    entity_id: "actor".to_string(),
                    delta_kind: "move".to_string(),
                    payload: object(vec![]),
                },
                EntityDelta {
                    entity_id: "nobody".to_string(),
                    delta_kind: " ".to_string(),
                    payload: object(vec![]),
                },
            ],
            observable_signal_deltas: vec![ObservableSignalDelta {
                signal_id: "bell".to_string(),
                delta_kind: "ring".to_string(),
                payload: JsonValue::Null,
            }],
            private_state_deltas: vec![
                PrivateStateDelta { private_fact_id: "secret".to_string() },
                PrivateStateDelta { private_fact_id: "other".to_string() },
            ],
            physical_delta: Some(FieldDelta { field_patches: JsonValue::Bool(true) }),
            mana_field_delta: None,
        }),
        character_state_deltas: Vec::new(),
    };
    let result = EffectValidator::validate_state_update(&plan, &[], &[], &scene).unwrap();
    let reasons: Vec<&str> =
        result.blocked_effects.iter().map(|b| b.reason_code.as_str()).collect();
    assert_eq!(
        reasons,
        vec![
            "scene_delta_scene_id_mismatch",
            "unknown_scene_entity",
            "invalid_entity_delta_payload",
            "invalid_signal_delta_payload",
            "unknown_private_fact",
            "scene_field_patch_must_be_object",
        ]
    );
    assert_eq!(result.blocked_effects[0].target_id.as_deref(), Some("scene-1"));
    assert_eq!(result.blocked_effects[4].attempted_state_domain, "scene.private_state");
    assert!(result.soft_effects.is_empty());
}

#[test]
fn target_ids_are_sorted_and_unique() {
    let delta = CharacterStateDelta {
        character_id: "target".to_string(),
        temporary_state_delta: object(vec![
            ("target_ids", JsonValue::Array(vec![text("b"), text("a"), JsonValue::Null])),
            ("applies_to", JsonValue::Array(vec![text("c"), text("a")])),
            ("target_id", text("b")),
        ]),
        outward_body_signals: Vec::new(),
    };
    assert_eq!(extract_target_ids(&delta), vec!["a", "b", "c"]);
}

#[test]
fn effect_allowed_follows_the_contract() {
    let skill = skill();
    let actor = character("actor");
    let mut effect = EffectRequest {
        target_kind: TargetKind::Character,
        state_domain: StateDomain::Body,
        effect_kind: EffectKind::Injury,
        intensity_tier: EffectIntensityTier::Minor,
    };
    assert!(EffectValidator::is_effect_allowed(&effect, &skill, &actor));
    effect.intensity_tier = EffectIntensityTier::Major;
    assert!(!EffectValidator::is_effect_allowed(&effect, &skill, &actor));
    effect.intensity_tier = EffectIntensityTier::Moderate;
    effect.effect_kind = EffectKind::PositionChange;
    assert!(!EffectValidator::is_effect_allowed(&effect, &skill, &actor));
    effect.effect_kind = EffectKind::Other;
    effect.state_domain = StateDomain::Mind;
    assert!(!EffectValidator::is_effect_allowed(&effect, &skill, &actor));
    effect.state_domain = StateDomain::Body;
    effect.target_kind = TargetKind::Area;
    assert!(!EffectValidator::is_effect_allowed(&effect, &skill, &actor));
    assert_eq!(state_domain_to_str(StateDomain::KnowledgeReveal), "knowledge_reveal");
}

#[test]
fn preview_uses_the_named_target() {
    let actor = ready_actor();
    let targets = vec!["target".to_string()];
    let mut skill = skill();
    skill.effect_contract.range_m = Some(units(5));
    let verdict = EffectValidator::preview_skill_use(
        &skill,
        &actor,
        &[character("target")],
        &targets,
        &scene(100),
    );
    assert_eq!(verdict, Err("target_out_of_range:target".to_string()));
    skill.effect_contract.range_m = Some(units(20));
    assert_eq!(
        EffectValidator::preview_skill_use(&skill, &actor, &[character("target")], &targets, &scene(100)),
        Ok(())
    );
}
