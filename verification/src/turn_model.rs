//! What the turn validator reads of the outputs and inputs of the turn's
//! model calls: scene extraction, character cognition, reactions, outcome
//! planning and narration.

use vstd::prelude::*;
use crate::effect_model::{EntityDelta, SceneModel};
use crate::json::JsonValue;
use crate::quantity::Real;

verus! {

// ---------------------------------------------------------------------------
// Scene extraction
// ---------------------------------------------------------------------------

#[derive(Debug)]
pub struct ExtractedSceneDelta {
    pub entity_deltas: Vec<EntityDelta>,
}

#[derive(Debug)]
pub struct SceneUpdate {
    pub scene_delta: ExtractedSceneDelta,
}

/// A fact the extractor proposes as provisionally true.
#[derive(Debug)]
pub struct ExtractedTruth {
    pub description: String,
}

#[derive(Debug)]
pub struct SceneStateExtractorOutput {
    pub scene_update: Option<SceneUpdate>,
    pub provisional_truth_candidates: Vec<ExtractedTruth>,
}

#[derive(Debug)]
pub struct SceneStateExtractorInput {
    pub current_scene: SceneModel,
}

// ---------------------------------------------------------------------------
// Character cognition
// ---------------------------------------------------------------------------

#[derive(Debug, Clone)]
pub struct IntendedAction {
    pub target_refs: Vec<String>,
    pub outward_description: String,
    pub spoken_text: Option<String>,
}

#[derive(Debug, Clone)]
pub struct IntentPlan {
    pub character_id: String,
    pub target_refs: Vec<String>,
    pub intended_actions: Vec<IntendedAction>,
    pub rationale: String,
}

#[derive(Debug, Clone)]
pub struct Hypothesis {
    pub proposition: String,
    pub evidence_refs: Vec<String>,
}

#[derive(Debug, Clone)]
pub struct BeliefUpdate {
    pub new_hypotheses: Vec<Hypothesis>,
    pub decision_relevant_beliefs: Vec<String>,
}

#[derive(Debug, Clone)]
pub struct PerceptionDelta {
    pub new_observations: Vec<String>,
    pub updated_perceptions: Vec<String>,
    pub missed_observations: Vec<String>,
}

#[derive(Debug, Clone)]
pub struct BodyReactionDelta {
    pub character_id: String,
    pub outward_signal: String,
}

#[derive(Debug, Clone)]
pub struct CharacterCognitivePassOutput {
    pub perception_delta: PerceptionDelta,
    pub belief_update: BeliefUpdate,
    pub intent_plan: IntentPlan,
    pub body_reaction_delta: Option<BodyReactionDelta>,
}

#[derive(Debug, Clone)]
pub struct ObservableEntity {
    pub entity_id: String,
}

#[derive(Debug, Clone)]
pub struct FilteredSceneView {
    pub character_id: String,
    pub observable_entities: Vec<ObservableEntity>,
    /// The mana signals the character can sense, by id.
    pub mana_signals: Vec<String>,
}

/// How a character came to know a knowledge entry.
#[derive(Debug, Clone, Copy, PartialEq, Eq, Structural)]
pub enum AccessSource {
    KnownDirectly,
    ApparentFromObservation,
    Inferred,
}

#[derive(Debug, Clone)]
pub struct AccessibleKnowledgeEntry {
    pub knowledge_id: String,
    pub source_hint: AccessSource,
    /// The accessible content as text: a string content as it is, any
    /// other content as compact JSON.
    pub accessible_text: String,
}

#[derive(Debug, Clone)]
pub struct AccessibleKnowledge {
    pub character_id: String,
    pub entries: Vec<AccessibleKnowledgeEntry>,
}

#[derive(Debug, Clone)]
pub struct RecentEvent {
    pub event_id: String,
}

#[derive(Debug, Clone, Copy)]
pub struct SenseCapability {
    /// How available the sense is, from 0.0 to 1.0.
    pub availability: Real,
}

#[derive(Debug, Clone, Copy)]
pub struct ManaSenseCapability {
    pub availability: Real,
    pub acuity: Real,
}

#[derive(Debug, Clone, Copy)]
pub struct SensoryCapabilities {
    pub vision: SenseCapability,
    pub hearing: SenseCapability,
    pub smell: SenseCapability,
    pub mana: ManaSenseCapability,
}

#[derive(Debug, Clone)]
pub struct EmbodimentState {
    pub character_id: String,
    pub sensory_capabilities: SensoryCapabilities,
}

#[derive(Debug, Clone)]
pub struct CharacterCognitivePassInput {
    pub character_id: String,
    pub filtered_scene_view: FilteredSceneView,
    pub accessible_knowledge: AccessibleKnowledge,
    pub recent_event_delta: Vec<RecentEvent>,
    pub embodiment_state: EmbodimentState,
}

// ---------------------------------------------------------------------------
// Reactions
// ---------------------------------------------------------------------------

#[derive(Debug, Clone)]
pub struct ReactionIntent {
    pub character_id: String,
    pub chosen_option_id: String,
}

#[derive(Debug, Clone)]
pub struct ReactionOption {
    pub option_id: String,
}

#[derive(Debug, Clone)]
pub struct ReactorEligibility {
    pub character_id: String,
    pub available_reaction_options: Vec<ReactionOption>,
}

#[derive(Debug, Clone)]
pub struct ReactionWindow {
    pub eligible_reactors: Vec<ReactorEligibility>,
}

// ---------------------------------------------------------------------------
// Outcome planning and narration
// ---------------------------------------------------------------------------

#[derive(Debug)]
pub struct OutcomePlan {
    pub outward_actions: Vec<JsonValue>,
    pub narratable_facts: Vec<JsonValue>,
}

/// A conflict the planner reports.
#[derive(Debug)]
pub struct PlannerConflict {
    /// The conflict's summary as compact JSON.
    pub summary_json: String,
}

#[derive(Debug)]
pub struct OutcomePlannerOutput {
    pub outcome_plan: OutcomePlan,
    pub conflict_reports: Vec<PlannerConflict>,
}

#[derive(Debug)]
pub struct OutcomePlannerInput {
    pub turn_id: String,
}

#[derive(Debug)]
pub struct SurfaceRealizerOutput {
    pub narrative_text: String,
}

#[derive(Debug)]
pub struct SurfaceRealizerInput {
    pub turn_id: String,
}

} // verus!
