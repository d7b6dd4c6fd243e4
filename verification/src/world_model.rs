//! World data: locations, location edges, knowledge entries and character
//! records, holding what the editor and the validators read.

use vstd::prelude::*;
use crate::json::JsonValue;
use crate::quantity::Real;

verus! {

// ---------------------------------------------------------------------------
// Locations
// ---------------------------------------------------------------------------

/// Place of a location in the location hierarchy.
#[derive(Debug, Clone, Copy, PartialEq, Eq, Structural)]
pub enum LocationLevel {
    WorldRoot,
    Realm,
    Continent,
    NaturalRegion,
    Polity,
    MajorRegion,
    LocalRegion,
    Settlement,
    DistrictOrSite,
    RoomOrSubsite,
}

#[derive(Debug, Clone, Copy, PartialEq, Eq, Structural)]
pub enum LocationStatus {
    Active,
    Deprecated,
    PendingConfirmation,
}

/// Another name of a location.
#[derive(Debug, Clone)]
pub struct LocationAlias {
    pub alias: String,
    pub normalized_alias: String,
}

/// A node of the location graph.
#[derive(Debug)]
pub struct LocationNode {
    pub location_id: String,
    pub name: String,
    pub type_label: String,
    pub canonical_level: LocationLevel,
    pub parent_id: Option<String>,
    pub status: LocationStatus,
    pub aliases: Vec<LocationAlias>,
    pub metadata: JsonValue,
    pub schema_version: String,
}

/// How two locations are connected.
#[derive(Debug, Clone, Copy, PartialEq, Eq, Structural)]
pub enum LocationEdgeRelation {
    Adjacent,
    Road,
    RiverRoute,
    SeaRoute,
    MountainPass,
    ForestTrail,
    BorderCrossing,
    TeleportGate,
    ContainsShortcut,
}

/// A distance range in kilometres.
#[derive(Debug, Clone, Copy)]
pub struct DistanceRange {
    pub min_km: Real,
    pub max_km: Real,
}

/// A travel time range in hours.
#[derive(Debug, Clone, Copy)]
pub struct TimeEstimate {
    pub min_hours: Real,
    pub max_hours: Real,
}

/// Travel times by means of travel.
#[derive(Debug, Clone, Copy)]
pub struct TravelTime {
    pub walking: Option<TimeEstimate>,
    pub horse: Option<TimeEstimate>,
    pub carriage: Option<TimeEstimate>,
    pub boat: Option<TimeEstimate>,
    pub flying: Option<TimeEstimate>,
    pub teleport: Option<TimeEstimate>,
}

/// A seasonal change of an edge's costs.
#[derive(Debug, Clone)]
pub struct SeasonalModifier {
    pub season: String,
    pub terrain_cost_modifier: Real,
    pub safety_cost_modifier: Real,
}

/// An edge of the location graph.
#[derive(Debug)]
pub struct LocationEdge {
    pub edge_id: String,
    pub from_location_id: String,
    pub to_location_id: String,
    pub relation: LocationEdgeRelation,
    pub terrain_cost: Real,
    pub safety_cost: Real,
    pub distance_km: Option<DistanceRange>,
    pub travel_time: Option<TravelTime>,
    pub seasonal_modifiers: Vec<SeasonalModifier>,
}

// ---------------------------------------------------------------------------
// Knowledge
// ---------------------------------------------------------------------------

#[derive(Debug, Clone, Copy, PartialEq, Eq, Structural)]
pub enum KnowledgeKind {
    WorldFact,
    RegionFact,
    FactionFact,
    CharacterFacet,
    HistoricalEvent,
    Memory,
}

#[derive(Debug, Clone, Copy, PartialEq, Eq, Structural)]
pub enum CharacterFacetType {
    Appearance,
    Identity,
    TrueName,
    Species,
    Bloodline,
    CultivationRealm,
    KnownAbility,
    HiddenAbility,
    Personality,
    Background,
    Motivation,
    Trauma,
    MindModelCard,
}

/// What a knowledge entry is about.
#[derive(Debug, Clone)]
pub enum KnowledgeSubject {
    World,
    Region(String),
    Faction(String),
    Character { id: String, facet: CharacterFacetType },
    Event { event_id: String },
}

/// Who may access a knowledge entry.
#[derive(Debug, Clone)]
pub enum AccessScope {
    Public,
    GodOnly,
    Region(String),
    Faction(String),
    Realm(String),
    Role(String),
    Bloodline(String),
}

#[derive(Debug)]
pub struct AccessPolicy {
    pub known_by: Vec<String>,
    pub scope: Vec<AccessScope>,
    pub conditions: Vec<JsonValue>,
}

/// Whether the subject of a character facet knows it.
#[derive(Debug, Clone, Copy, PartialEq, Eq, Structural)]
pub enum SubjectAwareness {
    Aware,
    Unaware,
}

/// How certain a fact is.
#[derive(Debug, Clone, Copy, PartialEq, Eq, Structural)]
pub enum FactConfidence {
    Asserted,
    High,
    Medium,
    Low,
    Inferred,
}

/// A knowledge entry.
#[derive(Debug)]
pub struct KnowledgeEntry {
    pub knowledge_id: String,
    pub kind: KnowledgeKind,
    pub subject: KnowledgeSubject,
    pub content: JsonValue,
    pub apparent_content: Option<JsonValue>,
    pub access_policy: AccessPolicy,
    pub subject_awareness: SubjectAwareness,
    pub schema_version: String,
}

// ---------------------------------------------------------------------------
// Characters
// ---------------------------------------------------------------------------

#[derive(Debug, Clone, Copy)]
pub struct BaseAttributes {
    pub physical: Real,
    pub agility: Real,
    pub endurance: Real,
    pub insight: Real,
    pub mana_power: Real,
    pub soul_strength: Real,
}

#[derive(Debug, Clone, Copy)]
pub struct ManaSenseBaseline {
    pub acuity: Real,
    pub overload_threshold: Real,
}

#[derive(Debug)]
pub struct BaselineBodyProfile {
    pub species: String,
    pub comfort_temperature_range: (Real, Real),
    pub mana_sense_baseline: ManaSenseBaseline,
}

#[derive(Debug, Clone, Copy, PartialEq, Eq, Structural)]
pub enum ManaExpressionTendency {
    Inward,
    Neutral,
    Expressive,
}

/// An active condition on a character.
#[derive(Debug, Clone)]
pub struct ConditionState {
    pub condition_id: String,
    pub condition_kind: String,
    pub intensity: Real,
}

#[derive(Debug, Clone)]
pub struct ManaSuppression {
    pub source_id: String,
    pub multiplier: Real,
}

#[derive(Debug, Clone)]
pub struct CooldownState {
    pub ability_id: String,
    pub remaining_turns: u32,
}

#[derive(Debug, Clone, Copy)]
pub struct ManaExpressionState {
    pub display_ratio: Real,
    pub pressure_ratio: Real,
}

#[derive(Debug, Clone, Copy)]
pub struct EnvironmentalExposure {
    pub cold_strain: Real,
    pub heat_strain: Real,
    pub respiration_strain: Real,
}

/// The changing state of a character.
#[derive(Debug)]
pub struct TemporaryCharacterState {
    pub fatigue: Real,
    pub pain_load: Real,
    pub mana_reserve_current: Option<Real>,
    pub mana_expression: ManaExpressionState,
    pub environmental_exposure: EnvironmentalExposure,
    pub active_conditions: Vec<ConditionState>,
    pub mana_suppression: Vec<ManaSuppression>,
    pub cooldowns: Vec<CooldownState>,
}

/// A character record.
#[derive(Debug)]
pub struct CharacterRecord {
    pub character_id: String,
    pub base_attributes: BaseAttributes,
    pub baseline_body_profile: BaselineBodyProfile,
    pub mana_expression_tendency: ManaExpressionTendency,
    pub mana_expression_tendency_factor_override: Option<Real>,
    pub mind_model_card_knowledge_id: String,
    pub temporary_state: TemporaryCharacterState,
    pub schema_version: String,
}

} // verus!
