//! Skills, scenes and state update plans, as the effect validator reads them.

use vstd::prelude::*;
use crate::json::{json_view, JsonValue, JsonView};
use crate::quantity::Real;
use crate::text::{str_eq, strings_view};

verus! {

// ---------------------------------------------------------------------------
// Skills
// ---------------------------------------------------------------------------

#[derive(Debug, Clone, Copy, PartialEq, Eq, Structural)]
pub enum SkillKind {
    Active,
    Passive,
    Reaction,
    Stance,
}

#[derive(Debug, Clone, Copy, PartialEq, Eq, Structural)]
pub enum ActivationTime {
    Instant,
    Reaction,
    Channeled,
}

/// A condition under which a skill may be activated.
#[derive(Debug, Clone)]
pub enum ActivationCondition {
    InCombat,
    OutOfCombat,
    ManaReserveAtLeast(Real),
    FatigueBelow(Real),
    HasStatus(String),
    LacksStatus(String),
    TargetInRange(Real),
    TargetInLineOfSight,
    EnvironmentCondition(String),
    Custom(String),
}

#[derive(Debug, Clone, Copy, PartialEq, Eq, Structural)]
pub enum TargetKind {
    SelfTarget,
    Character,
    Object,
    Area,
}

#[derive(Debug, Clone, Copy, PartialEq, Eq, Structural)]
pub enum TargetCount {
    Single,
    Multi(u32),
}

/// How strong an effect is, from weakest to strongest.
#[derive(Debug, Clone, Copy, PartialEq, Eq, Structural)]
pub enum EffectIntensityTier {
    Minor,
    Moderate,
    Major,
    Extreme,
}

/// Where a state change lands.
#[derive(Debug, Clone, Copy, PartialEq, Eq, Structural)]
pub enum StateDomain {
    Body,
    Resource,
    Position,
    Perception,
    Mind,
    Soul,
    Scene,
    KnowledgeReveal,
}

#[derive(Debug, Clone)]
pub struct SkillActivation {
    pub activation_time: ActivationTime,
    pub trigger_conditions: Vec<ActivationCondition>,
}

#[derive(Debug, Clone)]
pub struct SkillEffectContract {
    pub target_kind: TargetKind,
    pub target_count: TargetCount,
    /// The range in metres.
    pub range_m: Option<Real>,
    pub allowed_target_kinds: Vec<TargetKind>,
    pub allowed_state_domains: Vec<String>,
    pub max_intensity_tier: EffectIntensityTier,
    pub allows_injury: bool,
    pub allows_position_change: bool,
    pub allows_knowledge_reveal: bool,
}

#[derive(Debug, Clone)]
pub struct CostProfile {
    pub mana_reserve_delta: Option<Real>,
    pub fatigue_delta: Option<Real>,
    pub material_refs: Vec<String>,
    pub required_conditions: Vec<String>,
}

#[derive(Debug, Clone)]
pub struct SkillRequirements {
    /// Base attributes by name, each with its minimum, in order.
    pub minimum_attributes: Vec<(String, Real)>,
    pub prohibited_conditions: Vec<String>,
    pub material_components: Vec<String>,
    pub cost: CostProfile,
}

#[derive(Debug, Clone)]
pub struct SkillMetadata {
    pub tags: Vec<String>,
}

/// A skill. `holder_ids` names the characters that hold it.
#[derive(Debug, Clone)]
pub struct Skill {
    pub skill_id: String,
    pub skill_kind: SkillKind,
    pub activation: SkillActivation,
    pub effect_contract: SkillEffectContract,
    pub requirements: SkillRequirements,
    pub metadata: SkillMetadata,
    pub holder_ids: Vec<String>,
}

/// The character `id` holds the skill.
pub open spec fn holds_skill(s: Skill, id: Seq<char>) -> bool {
    exists|i: int| 0 <= i < s.holder_ids@.len() && #[trigger] s.holder_ids@[i]@ == id
}

impl Skill {
    /// Whether the character `character_id` holds this skill.
    pub fn belongs_to_character(&self, character_id: &str) -> (r: bool)
        ensures
            r == holds_skill(*self, character_id@),
    {
        let mut i: usize = 0;
        while i < self.holder_ids.len()
            invariant
                i <= self.holder_ids.len(),
                forall|j: int| 0 <= j < i ==> #[trigger] self.holder_ids@[j]@ != character_id@,
            decreases self.holder_ids.len() - i,
        {
            if str_eq(self.holder_ids[i].as_str(), character_id) {
                return true;
            }
            i += 1;
        }
        false
    }
}

// ---------------------------------------------------------------------------
// Scenes
// ---------------------------------------------------------------------------

/// A position, each coordinate in millionths of a metre.
#[derive(Debug, Clone, Copy)]
pub struct Position {
    pub x: i64,
    pub y: i64,
    pub z: Option<i64>,
}

#[derive(Debug, Clone)]
pub struct SceneEntity {
    pub entity_id: String,
    pub position: Position,
}

#[derive(Debug, Clone)]
pub struct ObservableSignal {
    pub signal_id: String,
}

#[derive(Debug, Clone)]
pub struct ObservableSignals {
    pub visual_signals: Vec<ObservableSignal>,
    pub audio_signals: Vec<ObservableSignal>,
    pub mana_signals: Vec<ObservableSignal>,
}

#[derive(Debug, Clone)]
pub struct HiddenFact {
    pub fact_id: String,
}

#[derive(Debug, Clone)]
pub struct ScenePrivateState {
    pub hidden_facts: Vec<HiddenFact>,
}

#[derive(Debug, Clone, Copy)]
pub struct AirborneEffects {
    /// How far one can see, in metres.
    pub visibility_range_m: Real,
}

#[derive(Debug, Clone, Copy)]
pub struct PhysicalConditions {
    pub airborne: AirborneEffects,
}

/// A scene.
#[derive(Debug, Clone)]
pub struct SceneModel {
    pub scene_id: String,
    pub entities: Vec<SceneEntity>,
    pub observable_signals: ObservableSignals,
    pub private_state: ScenePrivateState,
    pub physical_conditions: PhysicalConditions,
}

// ---------------------------------------------------------------------------
// State update plans
// ---------------------------------------------------------------------------

/// A change to one character's temporary state.
#[derive(Debug)]
pub struct CharacterStateDelta {
    pub character_id: String,
    pub temporary_state_delta: JsonValue,
    pub outward_body_signals: Vec<String>,
}

/// A character delta as plain values.
pub type DeltaView = (Seq<char>, JsonView, Seq<Seq<char>>);

pub open spec fn delta_view(d: CharacterStateDelta) -> DeltaView {
    (d.character_id@, json_view(d.temporary_state_delta), strings_view(d.outward_body_signals@))
}

pub open spec fn deltas_view(s: Seq<CharacterStateDelta>) -> Seq<DeltaView> {
    s.map_values(|d: CharacterStateDelta| delta_view(d))
}

impl CharacterStateDelta {
    /// A copy of the delta.
    pub fn copy(&self) -> (r: CharacterStateDelta)
        ensures
            delta_view(r) == delta_view(*self),
    {
        let mut signals: Vec<String> = Vec::new();
        let mut i: usize = 0;
        while i < self.outward_body_signals.len()
            invariant
                i <= self.outward_body_signals.len(),
                signals@ == self.outward_body_signals@.take(i as int),
            decreases self.outward_body_signals.len() - i,
        {
            signals.push(self.outward_body_signals[i].clone());
            i += 1;
            assert(signals@ =~= self.outward_body_signals@.take(i as int));
        }
        assert(self.outward_body_signals@.take(i as int) =~= self.outward_body_signals@);
        CharacterStateDelta {
            character_id: self.character_id.clone(),
            temporary_state_delta: self.temporary_state_delta.deep_clone(),
            outward_body_signals: signals,
        }
    }
}

#[derive(Debug)]
pub struct EntityDelta {
    pub entity_id: String,
    pub delta_kind: String,
    pub payload: JsonValue,
}

#[derive(Debug)]
pub struct ObservableSignalDelta {
    pub signal_id: String,
    pub delta_kind: String,
    pub payload: JsonValue,
}

#[derive(Debug)]
pub struct PrivateStateDelta {
    pub private_fact_id: String,
}

#[derive(Debug)]
pub struct FieldDelta {
    pub field_patches: JsonValue,
}

/// A change to a scene.
#[derive(Debug)]
pub struct SceneDelta {
    pub scene_id: String,
    pub entity_deltas: Vec<EntityDelta>,
    pub observable_signal_deltas: Vec<ObservableSignalDelta>,
    pub private_state_deltas: Vec<PrivateStateDelta>,
    pub physical_delta: Option<FieldDelta>,
    pub mana_field_delta: Option<FieldDelta>,
}

/// The state changes proposed for a turn.
#[derive(Debug)]
pub struct StateUpdatePlan {
    pub scene_delta: Option<SceneDelta>,
    pub character_state_deltas: Vec<CharacterStateDelta>,
}

} // verus!
