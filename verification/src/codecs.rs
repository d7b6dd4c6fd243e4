//! How the world's enumerations and knowledge subjects are stored: each
//! value has a name, and each name reads back as its value.

use vstd::prelude::*;
use crate::text::{join_str, str_eq};
use crate::world_model::{
    AccessScope, CharacterFacetType, FactConfidence, KnowledgeKind, KnowledgeSubject,
    LocationEdgeRelation, LocationLevel, LocationStatus, ManaExpressionTendency,
};

verus! {

/// The stored name of a location level.
pub open spec fn level_name(x: LocationLevel) -> Seq<char> {
    match x {
        LocationLevel::WorldRoot => "world_root"@,
        LocationLevel::Realm => "realm"@,
        LocationLevel::Continent => "continent"@,
        LocationLevel::NaturalRegion => "natural_region"@,
        LocationLevel::Polity => "polity"@,
        LocationLevel::MajorRegion => "major_region"@,
        LocationLevel::LocalRegion => "local_region"@,
        LocationLevel::Settlement => "settlement"@,
        LocationLevel::DistrictOrSite => "district_or_site"@,
        LocationLevel::RoomOrSubsite => "room_or_subsite"@,
    }
}

/// The location level a stored name stands for.
pub open spec fn level_of_name(s: Seq<char>) -> Option<LocationLevel> {
    if s == "world_root"@ {
        Some(LocationLevel::WorldRoot)
    } else if s == "realm"@ {
        Some(LocationLevel::Realm)
    } else if s == "continent"@ {
        Some(LocationLevel::Continent)
    } else if s == "natural_region"@ {
        Some(LocationLevel::NaturalRegion)
    } else if s == "polity"@ {
        Some(LocationLevel::Polity)
    } else if s == "major_region"@ {
        Some(LocationLevel::MajorRegion)
    } else if s == "local_region"@ {
        Some(LocationLevel::LocalRegion)
    } else if s == "settlement"@ {
        Some(LocationLevel::Settlement)
    } else if s == "district_or_site"@ {
        Some(LocationLevel::DistrictOrSite)
    } else if s == "room_or_subsite"@ {
        Some(LocationLevel::RoomOrSubsite)
    } else {
        None
    }
}

/// The stored name of a location level.
pub fn location_level_to_str(x: &LocationLevel) -> (r: &'static str)
    ensures
        r@ == level_name(*x),
{
    match x {
        LocationLevel::WorldRoot => "world_root",
        LocationLevel::Realm => "realm",
        LocationLevel::Continent => "continent",
        LocationLevel::NaturalRegion => "natural_region",
        LocationLevel::Polity => "polity",
        LocationLevel::MajorRegion => "major_region",
        LocationLevel::LocalRegion => "local_region",
        LocationLevel::Settlement => "settlement",
        LocationLevel::DistrictOrSite => "district_or_site",
        LocationLevel::RoomOrSubsite => "room_or_subsite",
    }
}

/// The location level a stored name stands for; an error for any other name.
pub fn str_to_location_level(value: &str) -> (r: Result<LocationLevel, String>)
    ensures
        match level_of_name(value@) {
            Some(x) => r == Ok::<LocationLevel, String>(x),
            None => r matches Err(e) && e@ == "Invalid location level: "@ + value@,
        },
{
    if str_eq(value, "world_root") {
        return Ok(LocationLevel::WorldRoot);
    }
    if str_eq(value, "realm") {
        return Ok(LocationLevel::Realm);
    }
    if str_eq(value, "continent") {
        return Ok(LocationLevel::Continent);
    }
    if str_eq(value, "natural_region") {
        return Ok(LocationLevel::NaturalRegion);
    }
    if str_eq(value, "polity") {
        return Ok(LocationLevel::Polity);
    }
    if str_eq(value, "major_region") {
        return Ok(LocationLevel::MajorRegion);
    }
    if str_eq(value, "local_region") {
        return Ok(LocationLevel::LocalRegion);
    }
    if str_eq(value, "settlement") {
        return Ok(LocationLevel::Settlement);
    }
    if str_eq(value, "district_or_site") {
        return Ok(LocationLevel::DistrictOrSite);
    }
    if str_eq(value, "room_or_subsite") {
        return Ok(LocationLevel::RoomOrSubsite);
    }
    Err(join_str("Invalid location level: ", value))
}

/// Reading back the stored name of a location level gives the location level.
pub proof fn law_location_level_round_trip(x: LocationLevel)
    ensures
        level_of_name(level_name(x)) == Some(x),
{
    reveal_strlit("world_root");
    reveal_strlit("realm");
    reveal_strlit("continent");
    reveal_strlit("natural_region");
    reveal_strlit("polity");
    reveal_strlit("major_region");
    reveal_strlit("local_region");
    reveal_strlit("settlement");
    reveal_strlit("district_or_site");
    reveal_strlit("room_or_subsite");
    match x {
        LocationLevel::WorldRoot => {
        },
        LocationLevel::Realm => {
            assert("realm"@.len() != "world_root"@.len());
        },
        LocationLevel::Continent => {
            assert("continent"@.len() != "world_root"@.len());
            assert("continent"@.len() != "realm"@.len());
        },
        LocationLevel::NaturalRegion => {
            assert("natural_region"@.len() != "world_root"@.len());
            assert("natural_region"@.len() != "realm"@.len());
            assert("natural_region"@.len() != "continent"@.len());
        },
        LocationLevel::Polity => {
            assert("polity"@.len() != "world_root"@.len());
            assert("polity"@.len() != "realm"@.len());
            assert("polity"@.len() != "continent"@.len());
            assert("polity"@.len() != "natural_region"@.len());
        },
        LocationLevel::MajorRegion => {
            assert("major_region"@.len() != "world_root"@.len());
            assert("major_region"@.len() != "realm"@.len());
            assert("major_region"@.len() != "continent"@.len());
            assert("major_region"@.len() != "natural_region"@.len());
            assert("major_region"@.len() != "polity"@.len());
        },
        LocationLevel::LocalRegion => {
            assert("local_region"@.len() != "world_root"@.len());
            assert("local_region"@.len() != "realm"@.len());
            assert("local_region"@.len() != "continent"@.len());
            assert("local_region"@.len() != "natural_region"@.len());
            assert("local_region"@.len() != "polity"@.len());
            assert("local_region"@[0] != "major_region"@[0]);
        },
        LocationLevel::Settlement => {
            assert("settlement"@[0] != "world_root"@[0]);
            assert("settlement"@.len() != "realm"@.len());
            assert("settlement"@.len() != "continent"@.len());
            assert("settlement"@.len() != "natural_region"@.len());
            assert("settlement"@.len() != "polity"@.len());
            assert("settlement"@.len() != "major_region"@.len());
            assert("settlement"@.len() != "local_region"@.len());
        },
        LocationLevel::DistrictOrSite => {
            assert("district_or_site"@.len() != "world_root"@.len());
            assert("district_or_site"@.len() != "realm"@.len());
            assert("district_or_site"@.len() != "continent"@.len());
            assert("district_or_site"@.len() != "natural_region"@.len());
            assert("district_or_site"@.len() != "polity"@.len());
            assert("district_or_site"@.len() != "major_region"@.len());
            assert("district_or_site"@.len() != "local_region"@.len());
            assert("district_or_site"@.len() != "settlement"@.len());
        },
        LocationLevel::RoomOrSubsite => {
            assert("room_or_subsite"@.len() != "world_root"@.len());
            assert("room_or_subsite"@.len() != "realm"@.len());
            assert("room_or_subsite"@.len() != "continent"@.len());
            assert("room_or_subsite"@.len() != "natural_region"@.len());
            assert("room_or_subsite"@.len() != "polity"@.len());
            assert("room_or_subsite"@.len() != "major_region"@.len());
            assert("room_or_subsite"@.len() != "local_region"@.len());
            assert("room_or_subsite"@.len() != "settlement"@.len());
            assert("room_or_subsite"@.len() != "district_or_site"@.len());
        },
    }
}

/// The stored name of a location status.
pub open spec fn status_name(x: LocationStatus) -> Seq<char> {
    match x {
        LocationStatus::Active => "active"@,
        LocationStatus::Deprecated => "deprecated"@,
        LocationStatus::PendingConfirmation => "pending_confirmation"@,
    }
}

/// The location status a stored name stands for.
pub open spec fn status_of_name(s: Seq<char>) -> Option<LocationStatus> {
    if s == "active"@ {
        Some(LocationStatus::Active)
    } else if s == "deprecated"@ {
        Some(LocationStatus::Deprecated)
    } else if s == "pending_confirmation"@ {
        Some(LocationStatus::PendingConfirmation)
    } else {
        None
    }
}

/// The stored name of a location status.
pub fn location_status_to_str(x: &LocationStatus) -> (r: &'static str)
    ensures
        r@ == status_name(*x),
{
    match x {
        LocationStatus::Active => "active",
        LocationStatus::Deprecated => "deprecated",
        LocationStatus::PendingConfirmation => "pending_confirmation",
    }
}

/// The location status a stored name stands for; an error for any other name.
pub fn str_to_location_status(value: &str) -> (r: Result<LocationStatus, String>)
    ensures
        match status_of_name(value@) {
            Some(x) => r == Ok::<LocationStatus, String>(x),
            None => r matches Err(e) && e@ == "Invalid location status: "@ + value@,
        },
{
    if str_eq(value, "active") {
        return Ok(LocationStatus::Active);
    }
    if str_eq(value, "deprecated") {
        return Ok(LocationStatus::Deprecated);
    }
    if str_eq(value, "pending_confirmation") {
        return Ok(LocationStatus::PendingConfirmation);
    }
    Err(join_str("Invalid location status: ", value))
}

/// Reading back the stored name of a location status gives the location status.
pub proof fn law_location_status_round_trip(x: LocationStatus)
    ensures
        status_of_name(status_name(x)) == Some(x),
{
    reveal_strlit("active");
    reveal_strlit("deprecated");
    reveal_strlit("pending_confirmation");
    match x {
        LocationStatus::Active => {
        },
        LocationStatus::Deprecated => {
            assert("deprecated"@.len() != "active"@.len());
        },
        LocationStatus::PendingConfirmation => {
            assert("pending_confirmation"@.len() != "active"@.len());
            assert("pending_confirmation"@.len() != "deprecated"@.len());
        },
    }
}

/// The stored name of a edge relation.
pub open spec fn relation_name(x: LocationEdgeRelation) -> Seq<char> {
    match x {
        LocationEdgeRelation::Adjacent => "adjacent"@,
        LocationEdgeRelation::Road => "road"@,
        LocationEdgeRelation::RiverRoute => "river_route"@,
        LocationEdgeRelation::SeaRoute => "sea_route"@,
        LocationEdgeRelation::MountainPass => "mountain_pass"@,
        LocationEdgeRelation::ForestTrail => "forest_trail"@,
        LocationEdgeRelation::BorderCrossing => "border_crossing"@,
        LocationEdgeRelation::TeleportGate => "teleport_gate"@,
        LocationEdgeRelation::ContainsShortcut => "contains_shortcut"@,
    }
}

/// The edge relation a stored name stands for.
pub open spec fn relation_of_name(s: Seq<char>) -> Option<LocationEdgeRelation> {
    if s == "adjacent"@ {
        Some(LocationEdgeRelation::Adjacent)
    } else if s == "road"@ {
        Some(LocationEdgeRelation::Road)
    } else if s == "river_route"@ {
        Some(LocationEdgeRelation::RiverRoute)
    } else if s == "sea_route"@ {
        Some(LocationEdgeRelation::SeaRoute)
    } else if s == "mountain_pass"@ {
        Some(LocationEdgeRelation::MountainPass)
    } else if s == "forest_trail"@ {
        Some(LocationEdgeRelation::ForestTrail)
    } else if s == "border_crossing"@ {
        Some(LocationEdgeRelation::BorderCrossing)
    } else if s == "teleport_gate"@ {
        Some(LocationEdgeRelation::TeleportGate)
    } else if s == "contains_shortcut"@ {
        Some(LocationEdgeRelation::ContainsShortcut)
    } else {
        None
    }
}

/// The stored name of a edge relation.
pub fn edge_relation_to_str(x: &LocationEdgeRelation) -> (r: &'static str)
    ensures
        r@ == relation_name(*x),
{
    match x {
        LocationEdgeRelation::Adjacent => "adjacent",
        LocationEdgeRelation::Road => "road",
        LocationEdgeRelation::RiverRoute => "river_route",
        LocationEdgeRelation::SeaRoute => "sea_route",
        LocationEdgeRelation::MountainPass => "mountain_pass",
        LocationEdgeRelation::ForestTrail => "forest_trail",
        LocationEdgeRelation::BorderCrossing => "border_crossing",
        LocationEdgeRelation::TeleportGate => "teleport_gate",
        LocationEdgeRelation::ContainsShortcut => "contains_shortcut",
    }
}

/// The edge relation a stored name stands for; an error for any other name.
pub fn str_to_edge_relation(value: &str) -> (r: Result<LocationEdgeRelation, String>)
    ensures
        match relation_of_name(value@) {
            Some(x) => r == Ok::<LocationEdgeRelation, String>(x),
            None => r matches Err(e) && e@ == "Invalid edge relation: "@ + value@,
        },
{
    if str_eq(value, "adjacent") {
        return Ok(LocationEdgeRelation::Adjacent);
    }
    if str_eq(value, "road") {
        return Ok(LocationEdgeRelation::Road);
    }
    if str_eq(value, "river_route") {
        return Ok(LocationEdgeRelation::RiverRoute);
    }
    if str_eq(value, "sea_route") {
        return Ok(LocationEdgeRelation::SeaRoute);
    }
    if str_eq(value, "mountain_pass") {
        return Ok(LocationEdgeRelation::MountainPass);
    }
    if str_eq(value, "forest_trail") {
        return Ok(LocationEdgeRelation::ForestTrail);
    }
    if str_eq(value, "border_crossing") {
        return Ok(LocationEdgeRelation::BorderCrossing);
    }
    if str_eq(value, "teleport_gate") {
        return Ok(LocationEdgeRelation::TeleportGate);
    }
    if str_eq(value, "contains_shortcut") {
        return Ok(LocationEdgeRelation::ContainsShortcut);
    }
    Err(join_str("Invalid edge relation: ", value))
}

/// Reading back the stored name of a edge relation gives the edge relation.
pub proof fn law_edge_relation_round_trip(x: LocationEdgeRelation)
    ensures
        relation_of_name(relation_name(x)) == Some(x),
{
    reveal_strlit("adjacent");
    reveal_strlit("road");
    reveal_strlit("river_route");
    reveal_strlit("sea_route");
    reveal_strlit("mountain_pass");
    reveal_strlit("forest_trail");
    reveal_strlit("border_crossing");
    reveal_strlit("teleport_gate");
    reveal_strlit("contains_shortcut");
    match x {
        LocationEdgeRelation::Adjacent => {
        },
        LocationEdgeRelation::Road => {
            assert("road"@.len() != "adjacent"@.len());
        },
        LocationEdgeRelation::RiverRoute => {
            assert("river_route"@.len() != "adjacent"@.len());
            assert("river_route"@.len() != "road"@.len());
        },
        LocationEdgeRelation::SeaRoute => {
            assert("sea_route"@.len() != "adjacent"@.len());
            assert("sea_route"@.len() != "road"@.len());
            assert("sea_route"@.len() != "river_route"@.len());
        },
        LocationEdgeRelation::MountainPass => {
            assert("mountain_pass"@.len() != "adjacent"@.len());
            assert("mountain_pass"@.len() != "road"@.len());
            assert("mountain_pass"@.len() != "river_route"@.len());
            assert("mountain_pass"@.len() != "sea_route"@.len());
        },
        LocationEdgeRelation::ForestTrail => {
            assert("forest_trail"@.len() != "adjacent"@.len());
            assert("forest_trail"@.len() != "road"@.len());
            assert("forest_trail"@.len() != "river_route"@.len());
            assert("forest_trail"@.len() != "sea_route"@.len());
            assert("forest_trail"@.len() != "mountain_pass"@.len());
        },
        LocationEdgeRelation::BorderCrossing => {
            assert("border_crossing"@.len() != "adjacent"@.len());
            assert("border_crossing"@.len() != "road"@.len());
            assert("border_crossing"@.len() != "river_route"@.len());
            assert("border_crossing"@.len() != "sea_route"@.len());
            assert("border_crossing"@.len() != "mountain_pass"@.len());
            assert("border_crossing"@.len() != "forest_trail"@.len());
        },
        LocationEdgeRelation::TeleportGate => {
            assert("teleport_gate"@.len() != "adjacent"@.len());
            assert("teleport_gate"@.len() != "road"@.len());
            assert("teleport_gate"@.len() != "river_route"@.len());
            assert("teleport_gate"@.len() != "sea_route"@.len());
            assert("teleport_gate"@[0] != "mountain_pass"@[0]);
            assert("teleport_gate"@.len() != "forest_trail"@.len());
            assert("teleport_gate"@.len() != "border_crossing"@.len());
        },
        LocationEdgeRelation::ContainsShortcut => {
            assert("contains_shortcut"@.len() != "adjacent"@.len());
            assert("contains_shortcut"@.len() != "road"@.len());
            assert("contains_shortcut"@.len() != "river_route"@.len());
            assert("contains_shortcut"@.len() != "sea_route"@.len());
            assert("contains_shortcut"@.len() != "mountain_pass"@.len());
            assert("contains_shortcut"@.len() != "forest_trail"@.len());
            assert("contains_shortcut"@.len() != "border_crossing"@.len());
            assert("contains_shortcut"@.len() != "teleport_gate"@.len());
        },
    }
}

/// The stored name of a knowledge kind.
pub open spec fn kind_name(x: KnowledgeKind) -> Seq<char> {
    match x {
        KnowledgeKind::WorldFact => "world_fact"@,
        KnowledgeKind::RegionFact => "region_fact"@,
        KnowledgeKind::FactionFact => "faction_fact"@,
        KnowledgeKind::CharacterFacet => "character_facet"@,
        KnowledgeKind::HistoricalEvent => "historical_event"@,
        KnowledgeKind::Memory => "memory"@,
    }
}

/// The knowledge kind a stored name stands for.
pub open spec fn kind_of_name(s: Seq<char>) -> Option<KnowledgeKind> {
    if s == "world_fact"@ {
        Some(KnowledgeKind::WorldFact)
    } else if s == "region_fact"@ {
        Some(KnowledgeKind::RegionFact)
    } else if s == "faction_fact"@ {
        Some(KnowledgeKind::FactionFact)
    } else if s == "character_facet"@ {
        Some(KnowledgeKind::CharacterFacet)
    } else if s == "historical_event"@ {
        Some(KnowledgeKind::HistoricalEvent)
    } else if s == "memory"@ {
        Some(KnowledgeKind::Memory)
    } else {
        None
    }
}

/// The stored name of a knowledge kind.
pub fn knowledge_kind_to_str(x: &KnowledgeKind) -> (r: &'static str)
    ensures
        r@ == kind_name(*x),
{
    match x {
        KnowledgeKind::WorldFact => "world_fact",
        KnowledgeKind::RegionFact => "region_fact",
        KnowledgeKind::FactionFact => "faction_fact",
        KnowledgeKind::CharacterFacet => "character_facet",
        KnowledgeKind::HistoricalEvent => "historical_event",
        KnowledgeKind::Memory => "memory",
    }
}

/// The knowledge kind a stored name stands for; an error for any other name.
pub fn str_to_knowledge_kind(value: &str) -> (r: Result<KnowledgeKind, String>)
    ensures
        match kind_of_name(value@) {
            Some(x) => r == Ok::<KnowledgeKind, String>(x),
            None => r matches Err(e) && e@ == "Invalid knowledge kind: "@ + value@,
        },
{
    if str_eq(value, "world_fact") {
        return Ok(KnowledgeKind::WorldFact);
    }
    if str_eq(value, "region_fact") {
        return Ok(KnowledgeKind::RegionFact);
    }
    if str_eq(value, "faction_fact") {
        return Ok(KnowledgeKind::FactionFact);
    }
    if str_eq(value, "character_facet") {
        return Ok(KnowledgeKind::CharacterFacet);
    }
    if str_eq(value, "historical_event") {
        return Ok(KnowledgeKind::HistoricalEvent);
    }
    if str_eq(value, "memory") {
        return Ok(KnowledgeKind::Memory);
    }
    Err(join_str("Invalid knowledge kind: ", value))
}

/// Reading back the stored name of a knowledge kind gives the knowledge kind.
pub proof fn law_knowledge_kind_round_trip(x: KnowledgeKind)
    ensures
        kind_of_name(kind_name(x)) == Some(x),
{
    reveal_strlit("world_fact");
    reveal_strlit("region_fact");
    reveal_strlit("faction_fact");
    reveal_strlit("character_facet");
    reveal_strlit("historical_event");
    reveal_strlit("memory");
    match x {
        KnowledgeKind::WorldFact => {
        },
        KnowledgeKind::RegionFact => {
            assert("region_fact"@.len() != "world_fact"@.len());
        },
        KnowledgeKind::FactionFact => {
            assert("faction_fact"@.len() != "world_fact"@.len());
            assert("faction_fact"@.len() != "region_fact"@.len());
        },
        KnowledgeKind::CharacterFacet => {
            assert("character_facet"@.len() != "world_fact"@.len());
            assert("character_facet"@.len() != "region_fact"@.len());
            assert("character_facet"@.len() != "faction_fact"@.len());
        },
        KnowledgeKind::HistoricalEvent => {
            assert("historical_event"@.len() != "world_fact"@.len());
            assert("historical_event"@.len() != "region_fact"@.len());
            assert("historical_event"@.len() != "faction_fact"@.len());
            assert("historical_event"@.len() != "character_facet"@.len());
        },
        KnowledgeKind::Memory => {
            assert("memory"@.len() != "world_fact"@.len());
            assert("memory"@.len() != "region_fact"@.len());
            assert("memory"@.len() != "faction_fact"@.len());
            assert("memory"@.len() != "character_facet"@.len());
            assert("memory"@.len() != "historical_event"@.len());
        },
    }
}

/// The stored name of a facet type.
pub open spec fn facet_name(x: CharacterFacetType) -> Seq<char> {
    match x {
        CharacterFacetType::Appearance => "appearance"@,
        CharacterFacetType::Identity => "identity"@,
        CharacterFacetType::TrueName => "true_name"@,
        CharacterFacetType::Species => "species"@,
        CharacterFacetType::Bloodline => "bloodline"@,
        CharacterFacetType::CultivationRealm => "cultivation_realm"@,
        CharacterFacetType::KnownAbility => "known_ability"@,
        CharacterFacetType::HiddenAbility => "hidden_ability"@,
        CharacterFacetType::Personality => "personality"@,
        CharacterFacetType::Background => "background"@,
        CharacterFacetType::Motivation => "motivation"@,
        CharacterFacetType::Trauma => "trauma"@,
        CharacterFacetType::MindModelCard => "mind_model_card"@,
    }
}

/// The facet type a stored name stands for.
pub open spec fn facet_of_name(s: Seq<char>) -> Option<CharacterFacetType> {
    if s == "appearance"@ {
        Some(CharacterFacetType::Appearance)
    } else if s == "identity"@ {
        Some(CharacterFacetType::Identity)
    } else if s == "true_name"@ {
        Some(CharacterFacetType::TrueName)
    } else if s == "species"@ {
        Some(CharacterFacetType::Species)
    } else if s == "bloodline"@ {
        Some(CharacterFacetType::Bloodline)
    } else if s == "cultivation_realm"@ {
        Some(CharacterFacetType::CultivationRealm)
    } else if s == "known_ability"@ {
        Some(CharacterFacetType::KnownAbility)
    } else if s == "hidden_ability"@ {
        Some(CharacterFacetType::HiddenAbility)
    } else if s == "personality"@ {
        Some(CharacterFacetType::Personality)
    } else if s == "background"@ {
        Some(CharacterFacetType::Background)
    } else if s == "motivation"@ {
        Some(CharacterFacetType::Motivation)
    } else if s == "trauma"@ {
        Some(CharacterFacetType::Trauma)
    } else if s == "mind_model_card"@ {
        Some(CharacterFacetType::MindModelCard)
    } else {
        None
    }
}

/// The facet type a stored name stands for; an error for any other name.
pub fn str_to_facet_type(value: &str) -> (r: Result<CharacterFacetType, String>)
    ensures
        match facet_of_name(value@) {
            Some(x) => r == Ok::<CharacterFacetType, String>(x),
            None => r matches Err(e) && e@ == "Invalid facet type: "@ + value@,
        },
{
    if str_eq(value, "appearance") {
        return Ok(CharacterFacetType::Appearance);
    }
    if str_eq(value, "identity") {
        return Ok(CharacterFacetType::Identity);
    }
    if str_eq(value, "true_name") {
        return Ok(CharacterFacetType::TrueName);
    }
    if str_eq(value, "species") {
        return Ok(CharacterFacetType::Species);
    }
    if str_eq(value, "bloodline") {
        return Ok(CharacterFacetType::Bloodline);
    }
    if str_eq(value, "cultivation_realm") {
        return Ok(CharacterFacetType::CultivationRealm);
    }
    if str_eq(value, "known_ability") {
        return Ok(CharacterFacetType::KnownAbility);
    }
    if str_eq(value, "hidden_ability") {
        return Ok(CharacterFacetType::HiddenAbility);
    }
    if str_eq(value, "personality") {
        return Ok(CharacterFacetType::Personality);
    }
    if str_eq(value, "background") {
        return Ok(CharacterFacetType::Background);
    }
    if str_eq(value, "motivation") {
        return Ok(CharacterFacetType::Motivation);
    }
    if str_eq(value, "trauma") {
        return Ok(CharacterFacetType::Trauma);
    }
    if str_eq(value, "mind_model_card") {
        return Ok(CharacterFacetType::MindModelCard);
    }
    Err(join_str("Invalid facet type: ", value))
}

/// Reading back the stored name of a facet type gives the facet type.
pub proof fn law_facet_type_round_trip(x: CharacterFacetType)
    ensures
        facet_of_name(facet_name(x)) == Some(x),
{
    reveal_strlit("appearance");
    reveal_strlit("identity");
    reveal_strlit("true_name");
    reveal_strlit("species");
    reveal_strlit("bloodline");
    reveal_strlit("cultivation_realm");
    reveal_strlit("known_ability");
    reveal_strlit("hidden_ability");
    reveal_strlit("personality");
    reveal_strlit("background");
    reveal_strlit("motivation");
    reveal_strlit("trauma");
    reveal_strlit("mind_model_card");
    match x {
        CharacterFacetType::Appearance => {
        },
        CharacterFacetType::Identity => {
            assert("identity"@.len() != "appearance"@.len());
        },
        CharacterFacetType::TrueName => {
            assert("true_name"@.len() != "appearance"@.len());
            assert("true_name"@.len() != "identity"@.len());
        },
        CharacterFacetType::Species => {
            assert("species"@.len() != "appearance"@.len());
            assert("species"@.len() != "identity"@.len());
            assert("species"@.len() != "true_name"@.len());
        },
        CharacterFacetType::Bloodline => {
            assert("bloodline"@.len() != "appearance"@.len());
            assert("bloodline"@.len() != "identity"@.len());
            assert("bloodline"@[0] != "true_name"@[0]);
            assert("bloodline"@.len() != "species"@.len());
        },
        CharacterFacetType::CultivationRealm => {
            assert("cultivation_realm"@.len() != "appearance"@.len());
            assert("cultivation_realm"@.len() != "identity"@.len());
            assert("cultivation_realm"@.len() != "true_name"@.len());
            assert("cultivation_realm"@.len() != "species"@.len());
            assert("cultivation_realm"@.len() != "bloodline"@.len());
        },
        CharacterFacetType::KnownAbility => {
            assert("known_ability"@.len() != "appearance"@.len());
            assert("known_ability"@.len() != "identity"@.len());
            assert("known_ability"@.len() != "true_name"@.len());
            assert("known_ability"@.len() != "species"@.len());
            assert("known_ability"@.len() != "bloodline"@.len());
            assert("known_ability"@.len() != "cultivation_realm"@.len());
        },
        CharacterFacetType::HiddenAbility => {
            assert("hidden_ability"@.len() != "appearance"@.len());
            assert("hidden_ability"@.len() != "identity"@.len());
            assert("hidden_ability"@.len() != "true_name"@.len());
            assert("hidden_ability"@.len() != "species"@.len());
            assert("hidden_ability"@.len() != "bloodline"@.len());
            assert("hidden_ability"@.len() != "cultivation_realm"@.len());
            assert("hidden_ability"@.len() != "known_ability"@.len());
        },
        CharacterFacetType::Personality => {
            assert("personality"@.len() != "appearance"@.len());
            assert("personality"@.len() != "identity"@.len());
            assert("personality"@.len() != "true_name"@.len());
            assert("personality"@.len() != "species"@.len());
            assert("personality"@.len() != "bloodline"@.len());
            assert("personality"@.len() != "cultivation_realm"@.len());
            assert("personality"@.len() != "known_ability"@.len());
            assert("personality"@.len() != "hidden_ability"@.len());
        },
        CharacterFacetType::Background => {
            assert("background"@[0] != "appearance"@[0]);
            assert("background"@.len() != "identity"@.len());
            assert("background"@.len() != "true_name"@.len());
            assert("background"@.len() != "species"@.len());
            assert("background"@.len() != "bloodline"@.len());
            assert("background"@.len() != "cultivation_realm"@.len());
            assert("background"@.len() != "known_ability"@.len());
            assert("background"@.len() != "hidden_ability"@.len());
            assert("background"@.len() != "personality"@.len());
        },
        CharacterFacetType::Motivation => {
            assert("motivation"@[0] != "appearance"@[0]);
            assert("motivation"@.len() != "identity"@.len());
            assert("motivation"@.len() != "true_name"@.len());
            assert("motivation"@.len() != "species"@.len());
            assert("motivation"@.len() != "bloodline"@.len());
            assert("motivation"@.len() != "cultivation_realm"@.len());
            assert("motivation"@.len() != "known_ability"@.len());
            assert("motivation"@.len() != "hidden_ability"@.len());
            assert("motivation"@.len() != "personality"@.len());
            assert("motivation"@[0] != "background"@[0]);
        },
        CharacterFacetType::Trauma => {
            assert("trauma"@.len() != "appearance"@.len());
            assert("trauma"@.len() != "identity"@.len());
            assert("trauma"@.len() != "true_name"@.len());
            assert("trauma"@.len() != "species"@.len());
            assert("trauma"@.len() != "bloodline"@.len());
            assert("trauma"@.len() != "cultivation_realm"@.len());
            assert("trauma"@.len() != "known_ability"@.len());
            assert("trauma"@.len() != "hidden_ability"@.len());
            assert("trauma"@.len() != "personality"@.len());
            assert("trauma"@.len() != "background"@.len());
            assert("trauma"@.len() != "motivation"@.len());
        },
        CharacterFacetType::MindModelCard => {
            assert("mind_model_card"@.len() != "appearance"@.len());
            assert("mind_model_card"@.len() != "identity"@.len());
            assert("mind_model_card"@.len() != "true_name"@.len());
            assert("mind_model_card"@.len() != "species"@.len());
            assert("mind_model_card"@.len() != "bloodline"@.len());
            assert("mind_model_card"@.len() != "cultivation_realm"@.len());
            assert("mind_model_card"@.len() != "known_ability"@.len());
            assert("mind_model_card"@.len() != "hidden_ability"@.len());
            assert("mind_model_card"@.len() != "personality"@.len());
            assert("mind_model_card"@.len() != "background"@.len());
            assert("mind_model_card"@.len() != "motivation"@.len());
            assert("mind_model_card"@.len() != "trauma"@.len());
        },
    }
}

/// The stored name of a fact confidence.
pub open spec fn confidence_name(x: FactConfidence) -> Seq<char> {
    match x {
        FactConfidence::Asserted => "asserted"@,
        FactConfidence::High => "high"@,
        FactConfidence::Medium => "medium"@,
        FactConfidence::Low => "low"@,
        FactConfidence::Inferred => "inferred"@,
    }
}

/// The fact confidence a stored name stands for.
pub open spec fn confidence_of_name(s: Seq<char>) -> Option<FactConfidence> {
    if s == "asserted"@ {
        Some(FactConfidence::Asserted)
    } else if s == "high"@ {
        Some(FactConfidence::High)
    } else if s == "medium"@ {
        Some(FactConfidence::Medium)
    } else if s == "low"@ {
        Some(FactConfidence::Low)
    } else if s == "inferred"@ {
        Some(FactConfidence::Inferred)
    } else {
        None
    }
}

/// The stored name of a fact confidence.
pub fn fact_confidence_to_str(x: &FactConfidence) -> (r: &'static str)
    ensures
        r@ == confidence_name(*x),
{
    match x {
        FactConfidence::Asserted => "asserted",
        FactConfidence::High => "high",
        FactConfidence::Medium => "medium",
        FactConfidence::Low => "low",
        FactConfidence::Inferred => "inferred",
    }
}

/// The fact confidence a stored name stands for; an error for any other name.
pub fn str_to_fact_confidence(value: &str) -> (r: Result<FactConfidence, String>)
    ensures
        match confidence_of_name(value@) {
            Some(x) => r == Ok::<FactConfidence, String>(x),
            None => r matches Err(e) && e@ == "Invalid fact confidence: "@ + value@,
        },
{
    if str_eq(value, "asserted") {
        return Ok(FactConfidence::Asserted);
    }
    if str_eq(value, "high") {
        return Ok(FactConfidence::High);
    }
    if str_eq(value, "medium") {
        return Ok(FactConfidence::Medium);
    }
    if str_eq(value, "low") {
        return Ok(FactConfidence::Low);
    }
    if str_eq(value, "inferred") {
        return Ok(FactConfidence::Inferred);
    }
    Err(join_str("Invalid fact confidence: ", value))
}

/// Reading back the stored name of a fact confidence gives the fact confidence.
pub proof fn law_fact_confidence_round_trip(x: FactConfidence)
    ensures
        confidence_of_name(confidence_name(x)) == Some(x),
{
    reveal_strlit("asserted");
    reveal_strlit("high");
    reveal_strlit("medium");
    reveal_strlit("low");
    reveal_strlit("inferred");
    match x {
        FactConfidence::Asserted => {
        },
        FactConfidence::High => {
            assert("high"@.len() != "asserted"@.len());
        },
        FactConfidence::Medium => {
            assert("medium"@.len() != "asserted"@.len());
            assert("medium"@.len() != "high"@.len());
        },
        FactConfidence::Low => {
            assert("low"@.len() != "asserted"@.len());
            assert("low"@.len() != "high"@.len());
            assert("low"@.len() != "medium"@.len());
        },
        FactConfidence::Inferred => {
            assert("inferred"@[0] != "asserted"@[0]);
            assert("inferred"@.len() != "high"@.len());
            assert("inferred"@.len() != "medium"@.len());
            assert("inferred"@.len() != "low"@.len());
        },
    }
}

/// The stored name of a facet type.
pub fn facet_type_to_str(facet: &CharacterFacetType) -> (r: String)
    ensures
        r@ == facet_name(*facet),
{
    let s: &str = match facet {
        CharacterFacetType::Appearance => "appearance",
        CharacterFacetType::Identity => "identity",
        CharacterFacetType::TrueName => "true_name",
        CharacterFacetType::Species => "species",
        CharacterFacetType::Bloodline => "bloodline",
        CharacterFacetType::CultivationRealm => "cultivation_realm",
        CharacterFacetType::KnownAbility => "known_ability",
        CharacterFacetType::HiddenAbility => "hidden_ability",
        CharacterFacetType::Personality => "personality",
        CharacterFacetType::Background => "background",
        CharacterFacetType::Motivation => "motivation",
        CharacterFacetType::Trauma => "trauma",
        CharacterFacetType::MindModelCard => "mind_model_card",
    };
    s.to_owned()
}

// ---------------------------------------------------------------------------
// Mana expression tendency
// ---------------------------------------------------------------------------

pub open spec fn tendency_name(x: ManaExpressionTendency) -> Seq<char> {
    match x {
        ManaExpressionTendency::Inward => "inward"@,
        ManaExpressionTendency::Neutral => "neutral"@,
        ManaExpressionTendency::Expressive => "expressive"@,
    }
}

/// The tendency a name stands for, in lower case or capitalised.
pub open spec fn tendency_of_name(s: Seq<char>) -> Option<ManaExpressionTendency> {
    if s == "inward"@ || s == "Inward"@ {
        Some(ManaExpressionTendency::Inward)
    } else if s == "neutral"@ || s == "Neutral"@ {
        Some(ManaExpressionTendency::Neutral)
    } else if s == "expressive"@ || s == "Expressive"@ {
        Some(ManaExpressionTendency::Expressive)
    } else {
        None
    }
}

/// The stored name of a mana expression tendency.
pub fn mana_tendency_to_str(tendency: &ManaExpressionTendency) -> (r: &'static str)
    ensures
        r@ == tendency_name(*tendency),
{
    match tendency {
        ManaExpressionTendency::Inward => "inward",
        ManaExpressionTendency::Neutral => "neutral",
        ManaExpressionTendency::Expressive => "expressive",
    }
}

/// The tendency a name stands for; an error for any other name.
pub fn str_to_mana_tendency(value: &str) -> (r: Result<ManaExpressionTendency, String>)
    ensures
        match tendency_of_name(value@) {
            Some(x) => r == Ok::<ManaExpressionTendency, String>(x),
            None => r matches Err(e) && e@ == "Invalid mana tendency: "@ + value@,
        },
{
    if str_eq(value, "inward") || str_eq(value, "Inward") {
        return Ok(ManaExpressionTendency::Inward);
    }
    if str_eq(value, "neutral") || str_eq(value, "Neutral") {
        return Ok(ManaExpressionTendency::Neutral);
    }
    if str_eq(value, "expressive") || str_eq(value, "Expressive") {
        return Ok(ManaExpressionTendency::Expressive);
    }
    Err(join_str("Invalid mana tendency: ", value))
}

/// Reading back the stored name of a tendency gives the tendency.
pub proof fn law_mana_tendency_round_trip(x: ManaExpressionTendency)
    ensures
        tendency_of_name(tendency_name(x)) == Some(x),
{
    reveal_strlit("inward");
    reveal_strlit("Inward");
    reveal_strlit("neutral");
    reveal_strlit("Neutral");
    reveal_strlit("expressive");
    reveal_strlit("Expressive");
    match x {
        ManaExpressionTendency::Inward => {},
        ManaExpressionTendency::Neutral => {
            assert("neutral"@.len() != "inward"@.len());
            assert("neutral"@[0] != "Inward"@[0]);
        },
        ManaExpressionTendency::Expressive => {
            assert("expressive"@.len() != "inward"@.len());
            assert("expressive"@.len() != "Inward"@.len());
            assert("expressive"@.len() != "neutral"@.len());
            assert("expressive"@.len() != "Neutral"@.len());
        },
    }
}

// ---------------------------------------------------------------------------
// Knowledge subjects
// ---------------------------------------------------------------------------

/// A knowledge subject as plain values.
pub enum SubjectView {
    World,
    Region(Seq<char>),
    Faction(Seq<char>),
    Character(Seq<char>, CharacterFacetType),
    Event(Seq<char>),
}

pub open spec fn subject_view(s: KnowledgeSubject) -> SubjectView {
    match s {
        KnowledgeSubject::World => SubjectView::World,
        KnowledgeSubject::Region(id) => SubjectView::Region(id@),
        KnowledgeSubject::Faction(id) => SubjectView::Faction(id@),
        KnowledgeSubject::Character { id, facet } => SubjectView::Character(id@, facet),
        KnowledgeSubject::Event { event_id } => SubjectView::Event(event_id@),
    }
}

/// The stored columns of a subject: its type, its id, its facet.
pub type Columns = (Seq<char>, Option<Seq<char>>, Option<Seq<char>>);

pub open spec fn columns_of(s: SubjectView) -> Columns {
    match s {
        SubjectView::World => ("world"@, None, None),
        SubjectView::Region(id) => ("region"@, Some(id), None),
        SubjectView::Faction(id) => ("faction"@, Some(id), None),
        SubjectView::Character(id, f) => ("character"@, Some(id), Some(facet_name(f))),
        SubjectView::Event(id) => ("event"@, Some(id), None),
    }
}

pub open spec fn or_empty(o: Option<Seq<char>>) -> Seq<char> {
    match o {
        Some(s) => s,
        None => Seq::empty(),
    }
}

/// The subject stored columns stand for: a missing id reads as empty, a
/// missing facet as identity; an unknown type or facet is an error.
pub open spec fn subject_of_columns(c: Columns) -> Result<SubjectView, Seq<char>> {
    let (t, id, facet) = c;
    if t == "world"@ {
        Ok(SubjectView::World)
    } else if t == "region"@ {
        Ok(SubjectView::Region(or_empty(id)))
    } else if t == "faction"@ {
        Ok(SubjectView::Faction(or_empty(id)))
    } else if t == "character"@ {
        match facet {
            None => Ok(SubjectView::Character(or_empty(id), CharacterFacetType::Identity)),
            Some(f) => match facet_of_name(f) {
                Some(x) => Ok(SubjectView::Character(or_empty(id), x)),
                None => Err("Invalid facet type: "@ + f),
            },
        }
    } else if t == "event"@ {
        Ok(SubjectView::Event(or_empty(id)))
    } else {
        Err("Invalid subject type: "@ + t)
    }
}

pub open spec fn opt_str(o: Option<String>) -> Option<Seq<char>> {
    match o {
        Some(s) => Some(s@),
        None => None,
    }
}

/// The stored columns of a subject.
pub fn subject_to_columns(subject: &KnowledgeSubject) -> (r: (String, Option<String>, Option<String>))
    ensures
        (r.0@, opt_str(r.1), opt_str(r.2)) == columns_of(subject_view(*subject)),
{
    match subject {
        KnowledgeSubject::World => ("world".to_owned(), None, None),
        KnowledgeSubject::Region(id) => ("region".to_owned(), Some(id.clone()), None),
        KnowledgeSubject::Faction(id) => ("faction".to_owned(), Some(id.clone()), None),
        KnowledgeSubject::Character { id, facet } => (
            "character".to_owned(),
            Some(id.clone()),
            Some(facet_type_to_str(facet)),
        ),
        KnowledgeSubject::Event { event_id } => ("event".to_owned(), Some(event_id.clone()), None),
    }
}

fn id_or_empty(o: Option<String>) -> (r: String)
    ensures
        r@ == or_empty(opt_str(o)),
{
    match o {
        Some(s) => s,
        None => String::new(),
    }
}

/// The subject stored columns stand for.
pub fn columns_to_subject(subject_type: &str, subject_id: Option<String>, facet_type: Option<String>) -> (r:
    Result<KnowledgeSubject, String>)
    ensures
        match subject_of_columns((subject_type@, opt_str(subject_id), opt_str(facet_type))) {
            Ok(v) => r matches Ok(s) && subject_view(s) == v,
            Err(e) => r matches Err(m) && m@ == e,
        },
{
    if str_eq(subject_type, "world") {
        Ok(KnowledgeSubject::World)
    } else if str_eq(subject_type, "region") {
        Ok(KnowledgeSubject::Region(id_or_empty(subject_id)))
    } else if str_eq(subject_type, "faction") {
        Ok(KnowledgeSubject::Faction(id_or_empty(subject_id)))
    } else if str_eq(subject_type, "character") {
        let facet = match facet_type {
            None => CharacterFacetType::Identity,
            Some(f) => match str_to_facet_type(f.as_str()) {
                Ok(x) => x,
                Err(e) => {
                    return Err(e);
                },
            },
        };
        Ok(KnowledgeSubject::Character { id: id_or_empty(subject_id), facet })
    } else if str_eq(subject_type, "event") {
        Ok(KnowledgeSubject::Event { event_id: id_or_empty(subject_id) })
    } else {
        Err(join_str("Invalid subject type: ", subject_type))
    }
}

/// Reading back the stored columns of a subject gives the subject.
pub proof fn law_subject_columns_round_trip(s: SubjectView)
    ensures
        subject_of_columns(columns_of(s)) == Ok::<SubjectView, Seq<char>>(s),
{
    reveal_strlit("world");
    reveal_strlit("region");
    reveal_strlit("faction");
    reveal_strlit("character");
    reveal_strlit("event");
    assert("region"@.len() != "world"@.len());
    assert("faction"@.len() != "world"@.len() && "faction"@.len() != "region"@.len());
    assert("character"@.len() != "world"@.len() && "character"@.len() != "region"@.len()
        && "character"@.len() != "faction"@.len());
    assert("event"@[0] != "world"@[0] && "event"@.len() != "region"@.len() && "event"@.len()
        != "faction"@.len() && "event"@.len() != "character"@.len());
    match s {
        SubjectView::Character(_, f) => {
            law_facet_type_round_trip(f);
        },
        _ => {},
    }
}

/// The stored type of a subject.
pub open spec fn subject_type_name(s: SubjectView) -> Seq<char> {
    columns_of(s).0
}

/// The stored type of a subject.
pub fn subject_type_to_str(subject: &KnowledgeSubject) -> (r: &'static str)
    ensures
        r@ == subject_type_name(subject_view(*subject)),
{
    match subject {
        KnowledgeSubject::World => "world",
        KnowledgeSubject::Region(_) => "region",
        KnowledgeSubject::Faction(_) => "faction",
        KnowledgeSubject::Character { .. } => "character",
        KnowledgeSubject::Event { .. } => "event",
    }
}

/// The stored id of a subject; none for the world.
pub fn subject_id(subject: &KnowledgeSubject) -> (r: Option<String>)
    ensures
        opt_str(r) == columns_of(subject_view(*subject)).1,
{
    match subject {
        KnowledgeSubject::World => None,
        KnowledgeSubject::Region(id) => Some(id.clone()),
        KnowledgeSubject::Faction(id) => Some(id.clone()),
        KnowledgeSubject::Character { id, .. } => Some(id.clone()),
        KnowledgeSubject::Event { event_id } => Some(event_id.clone()),
    }
}

/// The stored facet of a subject; only a character facet has one.
pub fn facet_type(subject: &KnowledgeSubject) -> (r: Option<String>)
    ensures
        opt_str(r) == columns_of(subject_view(*subject)).2,
{
    match subject {
        KnowledgeSubject::Character { facet, .. } => Some(facet_type_to_str(facet)),
        _ => None,
    }
}

// ---------------------------------------------------------------------------
// Access scopes
// ---------------------------------------------------------------------------

/// The stored kind and value of an access scope.
pub open spec fn scope_parts(s: AccessScope) -> (Seq<char>, Seq<char>) {
    match s {
        AccessScope::Public => ("public"@, Seq::empty()),
        AccessScope::GodOnly => ("god_only"@, Seq::empty()),
        AccessScope::Region(id) => ("region"@, id@),
        AccessScope::Faction(id) => ("faction"@, id@),
        AccessScope::Realm(id) => ("realm"@, id@),
        AccessScope::Role(id) => ("role"@, id@),
        AccessScope::Bloodline(id) => ("bloodline"@, id@),
    }
}

/// The stored kind and value of an access scope.
pub fn scope_to_parts(scope: &AccessScope) -> (r: (String, String))
    ensures
        (r.0@, r.1@) == scope_parts(*scope),
{
    match scope {
        AccessScope::Public => ("public".to_owned(), String::new()),
        AccessScope::GodOnly => ("god_only".to_owned(), String::new()),
        AccessScope::Region(id) => ("region".to_owned(), id.clone()),
        AccessScope::Faction(id) => ("faction".to_owned(), id.clone()),
        AccessScope::Realm(id) => ("realm".to_owned(), id.clone()),
        AccessScope::Role(id) => ("role".to_owned(), id.clone()),
        AccessScope::Bloodline(id) => ("bloodline".to_owned(), id.clone()),
    }
}

} // verus!
