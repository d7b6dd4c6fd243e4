//! Reading the editor's input: knowledge kinds and subjects, facet types,
//! location levels and statuses, and the canon status of a turn.

use vstd::prelude::*;
use crate::codecs::{
    facet_name, kind_of_name, status_name, str_to_knowledge_kind, SubjectView, opt_str,
};
use crate::text::{join_str, str_eq};
use crate::world_model::{
    CharacterFacetType, KnowledgeKind, KnowledgeSubject, LocationLevel, LocationStatus,
};

verus! {

/// The facet type, by its variant name or its stored name.
pub open spec fn facet_of_input(s: Seq<char>) -> Option<CharacterFacetType> {
    if s == "Appearance"@ || s == "appearance"@ {
        Some(CharacterFacetType::Appearance)
    } else if s == "Identity"@ || s == "identity"@ {
        Some(CharacterFacetType::Identity)
    } else if s == "TrueName"@ || s == "true_name"@ {
        Some(CharacterFacetType::TrueName)
    } else if s == "Species"@ || s == "species"@ {
        Some(CharacterFacetType::Species)
    } else if s == "Bloodline"@ || s == "bloodline"@ {
        Some(CharacterFacetType::Bloodline)
    } else if s == "CultivationRealm"@ || s == "cultivation_realm"@ {
        Some(CharacterFacetType::CultivationRealm)
    } else if s == "KnownAbility"@ || s == "known_ability"@ {
        Some(CharacterFacetType::KnownAbility)
    } else if s == "HiddenAbility"@ || s == "hidden_ability"@ {
        Some(CharacterFacetType::HiddenAbility)
    } else if s == "Personality"@ || s == "personality"@ {
        Some(CharacterFacetType::Personality)
    } else if s == "Background"@ || s == "background"@ {
        Some(CharacterFacetType::Background)
    } else if s == "Motivation"@ || s == "motivation"@ {
        Some(CharacterFacetType::Motivation)
    } else if s == "Trauma"@ || s == "trauma"@ {
        Some(CharacterFacetType::Trauma)
    } else if s == "MindModelCard"@ || s == "mind_model_card"@ {
        Some(CharacterFacetType::MindModelCard)
    } else {
        None
    }
}

/// The facet type, by its variant name or its stored name; an error for any other name.
pub fn parse_character_facet_type(raw: &str) -> (r: Result<CharacterFacetType, String>)
    ensures
        match facet_of_input(raw@) {
            Some(x) => r == Ok::<CharacterFacetType, String>(x),
            None => r matches Err(e) && e@ == "Invalid character facet type: "@ + raw@,
        },
{
    if str_eq(raw, "Appearance") || str_eq(raw, "appearance") {
        return Ok(CharacterFacetType::Appearance);
    }
    if str_eq(raw, "Identity") || str_eq(raw, "identity") {
        return Ok(CharacterFacetType::Identity);
    }
    if str_eq(raw, "TrueName") || str_eq(raw, "true_name") {
        return Ok(CharacterFacetType::TrueName);
    }
    if str_eq(raw, "Species") || str_eq(raw, "species") {
        return Ok(CharacterFacetType::Species);
    }
    if str_eq(raw, "Bloodline") || str_eq(raw, "bloodline") {
        return Ok(CharacterFacetType::Bloodline);
    }
    if str_eq(raw, "CultivationRealm") || str_eq(raw, "cultivation_realm") {
        return Ok(CharacterFacetType::CultivationRealm);
    }
    if str_eq(raw, "KnownAbility") || str_eq(raw, "known_ability") {
        return Ok(CharacterFacetType::KnownAbility);
    }
    if str_eq(raw, "HiddenAbility") || str_eq(raw, "hidden_ability") {
        return Ok(CharacterFacetType::HiddenAbility);
    }
    if str_eq(raw, "Personality") || str_eq(raw, "personality") {
        return Ok(CharacterFacetType::Personality);
    }
    if str_eq(raw, "Background") || str_eq(raw, "background") {
        return Ok(CharacterFacetType::Background);
    }
    if str_eq(raw, "Motivation") || str_eq(raw, "motivation") {
        return Ok(CharacterFacetType::Motivation);
    }
    if str_eq(raw, "Trauma") || str_eq(raw, "trauma") {
        return Ok(CharacterFacetType::Trauma);
    }
    if str_eq(raw, "MindModelCard") || str_eq(raw, "mind_model_card") {
        return Ok(CharacterFacetType::MindModelCard);
    }
    Err(join_str("Invalid character facet type: ", raw))
}

/// The location level, by its variant name.
pub open spec fn level_of_input(s: Seq<char>) -> Option<LocationLevel> {
    if s == "WorldRoot"@ {
        Some(LocationLevel::WorldRoot)
    } else if s == "Realm"@ {
        Some(LocationLevel::Realm)
    } else if s == "Continent"@ {
        Some(LocationLevel::Continent)
    } else if s == "NaturalRegion"@ {
        Some(LocationLevel::NaturalRegion)
    } else if s == "Polity"@ {
        Some(LocationLevel::Polity)
    } else if s == "MajorRegion"@ {
        Some(LocationLevel::MajorRegion)
    } else if s == "LocalRegion"@ {
        Some(LocationLevel::LocalRegion)
    } else if s == "Settlement"@ {
        Some(LocationLevel::Settlement)
    } else if s == "DistrictOrSite"@ {
        Some(LocationLevel::DistrictOrSite)
    } else if s == "RoomOrSubsite"@ {
        Some(LocationLevel::RoomOrSubsite)
    } else {
        None
    }
}

/// The location level, by its variant name; an error for any other name.
pub fn parse_location_level(raw: &str) -> (r: Result<LocationLevel, String>)
    ensures
        match level_of_input(raw@) {
            Some(x) => r == Ok::<LocationLevel, String>(x),
            None => r matches Err(e) && e@ == "Invalid location level: "@ + raw@,
        },
{
    if str_eq(raw, "WorldRoot") {
        return Ok(LocationLevel::WorldRoot);
    }
    if str_eq(raw, "Realm") {
        return Ok(LocationLevel::Realm);
    }
    if str_eq(raw, "Continent") {
        return Ok(LocationLevel::Continent);
    }
    if str_eq(raw, "NaturalRegion") {
        return Ok(LocationLevel::NaturalRegion);
    }
    if str_eq(raw, "Polity") {
        return Ok(LocationLevel::Polity);
    }
    if str_eq(raw, "MajorRegion") {
        return Ok(LocationLevel::MajorRegion);
    }
    if str_eq(raw, "LocalRegion") {
        return Ok(LocationLevel::LocalRegion);
    }
    if str_eq(raw, "Settlement") {
        return Ok(LocationLevel::Settlement);
    }
    if str_eq(raw, "DistrictOrSite") {
        return Ok(LocationLevel::DistrictOrSite);
    }
    if str_eq(raw, "RoomOrSubsite") {
        return Ok(LocationLevel::RoomOrSubsite);
    }
    Err(join_str("Invalid location level: ", raw))
}

/// The location status, by its variant name or its stored name.
pub open spec fn status_of_input(s: Seq<char>) -> Option<LocationStatus> {
    if s == "Active"@ || s == "active"@ {
        Some(LocationStatus::Active)
    } else if s == "Deprecated"@ || s == "deprecated"@ {
        Some(LocationStatus::Deprecated)
    } else if s == "PendingConfirmation"@ || s == "pending_confirmation"@ {
        Some(LocationStatus::PendingConfirmation)
    } else {
        None
    }
}

/// The location status, by its variant name or its stored name; an error for any other name.
pub fn parse_location_status(raw: &str) -> (r: Result<LocationStatus, String>)
    ensures
        match status_of_input(raw@) {
            Some(x) => r == Ok::<LocationStatus, String>(x),
            None => r matches Err(e) && e@ == "Invalid location status: "@ + raw@,
        },
{
    if str_eq(raw, "Active") || str_eq(raw, "active") {
        return Ok(LocationStatus::Active);
    }
    if str_eq(raw, "Deprecated") || str_eq(raw, "deprecated") {
        return Ok(LocationStatus::Deprecated);
    }
    if str_eq(raw, "PendingConfirmation") || str_eq(raw, "pending_confirmation") {
        return Ok(LocationStatus::PendingConfirmation);
    }
    Err(join_str("Invalid location status: ", raw))
}

/// The editor's input takes a facet type by its stored name.
pub proof fn law_facet_input_accepts_stored_name(x: CharacterFacetType)
    ensures
        facet_of_input(facet_name(x)) == Some(x),
{
    reveal_strlit("Appearance");
    reveal_strlit("appearance");
    reveal_strlit("Identity");
    reveal_strlit("identity");
    reveal_strlit("TrueName");
    reveal_strlit("true_name");
    reveal_strlit("Species");
    reveal_strlit("species");
    reveal_strlit("Bloodline");
    reveal_strlit("bloodline");
    reveal_strlit("CultivationRealm");
    reveal_strlit("cultivation_realm");
    reveal_strlit("KnownAbility");
    reveal_strlit("known_ability");
    reveal_strlit("HiddenAbility");
    reveal_strlit("hidden_ability");
    reveal_strlit("Personality");
    reveal_strlit("personality");
    reveal_strlit("Background");
    reveal_strlit("background");
    reveal_strlit("Motivation");
    reveal_strlit("motivation");
    reveal_strlit("Trauma");
    reveal_strlit("trauma");
    reveal_strlit("MindModelCard");
    reveal_strlit("mind_model_card");
    match x {
        CharacterFacetType::Appearance => {
            assert("appearance"@[0] != "Appearance"@[0]);
        },
        CharacterFacetType::Identity => {
            assert("identity"@.len() != "Appearance"@.len());
            assert("identity"@.len() != "appearance"@.len());
            assert("identity"@[0] != "Identity"@[0]);
        },
        CharacterFacetType::TrueName => {
            assert("true_name"@.len() != "Appearance"@.len());
            assert("true_name"@.len() != "appearance"@.len());
            assert("true_name"@.len() != "Identity"@.len());
            assert("true_name"@.len() != "identity"@.len());
            assert("true_name"@.len() != "TrueName"@.len());
        },
        CharacterFacetType::Species => {
            assert("species"@.len() != "Appearance"@.len());
            assert("species"@.len() != "appearance"@.len());
            assert("species"@.len() != "Identity"@.len());
            assert("species"@.len() != "identity"@.len());
            assert("species"@.len() != "TrueName"@.len());
            assert("species"@.len() != "true_name"@.len());
            assert("species"@[0] != "Species"@[0]);
        },
        CharacterFacetType::Bloodline => {
            assert("bloodline"@.len() != "Appearance"@.len());
            assert("bloodline"@.len() != "appearance"@.len());
            assert("bloodline"@.len() != "Identity"@.len());
            assert("bloodline"@.len() != "identity"@.len());
            assert("bloodline"@.len() != "TrueName"@.len());
            assert("bloodline"@[0] != "true_name"@[0]);
            assert("bloodline"@.len() != "Species"@.len());
            assert("bloodline"@.len() != "species"@.len());
            assert("bloodline"@[0] != "Bloodline"@[0]);
        },
        CharacterFacetType::CultivationRealm => {
            assert("cultivation_realm"@.len() != "Appearance"@.len());
            assert("cultivation_realm"@.len() != "appearance"@.len());
            assert("cultivation_realm"@.len() != "Identity"@.len());
            assert("cultivation_realm"@.len() != "identity"@.len());
            assert("cultivation_realm"@.len() != "TrueName"@.len());
            assert("cultivation_realm"@.len() != "true_name"@.len());
            assert("cultivation_realm"@.len() != "Species"@.len());
            assert("cultivation_realm"@.len() != "species"@.len());
            assert("cultivation_realm"@.len() != "Bloodline"@.len());
            assert("cultivation_realm"@.len() != "bloodline"@.len());
            assert("cultivation_realm"@.len() != "CultivationRealm"@.len());
        },
        CharacterFacetType::KnownAbility => {
            assert("known_ability"@.len() != "Appearance"@.len());
            assert("known_ability"@.len() != "appearance"@.len());
            assert("known_ability"@.len() != "Identity"@.len());
            assert("known_ability"@.len() != "identity"@.len());
            assert("known_ability"@.len() != "TrueName"@.len());
            assert("known_ability"@.len() != "true_name"@.len());
            assert("known_ability"@.len() != "Species"@.len());
            assert("known_ability"@.len() != "species"@.len());
            assert("known_ability"@.len() != "Bloodline"@.len());
            assert("known_ability"@.len() != "bloodline"@.len());
            assert("known_ability"@.len() != "CultivationRealm"@.len());
            assert("known_ability"@.len() != "cultivation_realm"@.len());
            assert("known_ability"@.len() != "KnownAbility"@.len());
        },
        CharacterFacetType::HiddenAbility => {
            assert("hidden_ability"@.len() != "Appearance"@.len());
            assert("hidden_ability"@.len() != "appearance"@.len());
            assert("hidden_ability"@.len() != "Identity"@.len());
            assert("hidden_ability"@.len() != "identity"@.len());
            assert("hidden_ability"@.len() != "TrueName"@.len());
            assert("hidden_ability"@.len() != "true_name"@.len());
            assert("hidden_ability"@.len() != "Species"@.len());
            assert("hidden_ability"@.len() != "species"@.len());
            assert("hidden_ability"@.len() != "Bloodline"@.len());
            assert("hidden_ability"@.len() != "bloodline"@.len());
            assert("hidden_ability"@.len() != "CultivationRealm"@.len());
            assert("hidden_ability"@.len() != "cultivation_realm"@.len());
            assert("hidden_ability"@.len() != "KnownAbility"@.len());
            assert("hidden_ability"@.len() != "known_ability"@.len());
            assert("hidden_ability"@.len() != "HiddenAbility"@.len());
        },
        CharacterFacetType::Personality => {
            assert("personality"@.len() != "Appearance"@.len());
            assert("personality"@.len() != "appearance"@.len());
            assert("personality"@.len() != "Identity"@.len());
            assert("personality"@.len() != "identity"@.len());
            assert("personality"@.len() != "TrueName"@.len());
            assert("personality"@.len() != "true_name"@.len());
            assert("personality"@.len() != "Species"@.len());
            assert("personality"@.len() != "species"@.len());
            assert("personality"@.len() != "Bloodline"@.len());
            assert("personality"@.len() != "bloodline"@.len());
            assert("personality"@.len() != "CultivationRealm"@.len());
            assert("personality"@.len() != "cultivation_realm"@.len());
            assert("personality"@.len() != "KnownAbility"@.len());
            assert("personality"@.len() != "known_ability"@.len());
            assert("personality"@.len() != "HiddenAbility"@.len());
            assert("personality"@.len() != "hidden_ability"@.len());
            assert("personality"@[0] != "Personality"@[0]);
        },
        CharacterFacetType::Background => {
            assert("background"@[0] != "Appearance"@[0]);
            assert("background"@[0] != "appearance"@[0]);
            assert("background"@.len() != "Identity"@.len());
            assert("background"@.len() != "identity"@.len());
            assert("background"@.len() != "TrueName"@.len());
            assert("background"@.len() != "true_name"@.len());
            assert("background"@.len() != "Species"@.len());
            assert("background"@.len() != "species"@.len());
            assert("background"@.len() != "Bloodline"@.len());
            assert("background"@.len() != "bloodline"@.len());
            assert("background"@.len() != "CultivationRealm"@.len());
            assert("background"@.len() != "cultivation_realm"@.len());
            assert("background"@.len() != "KnownAbility"@.len());
            assert("background"@.len() != "known_ability"@.len());
            assert("background"@.len() != "HiddenAbility"@.len());
            assert("background"@.len() != "hidden_ability"@.len());
            assert("background"@.len() != "Personality"@.len());
            assert("background"@.len() != "personality"@.len());
            assert("background"@[0] != "Background"@[0]);
        },
        CharacterFacetType::Motivation => {
            assert("motivation"@[0] != "Appearance"@[0]);
            assert("motivation"@[0] != "appearance"@[0]);
            assert("motivation"@.len() != "Identity"@.len());
            assert("motivation"@.len() != "identity"@.len());
            assert("motivation"@.len() != "TrueName"@.len());
            assert("motivation"@.len() != "true_name"@.len());
            assert("motivation"@.len() != "Species"@.len());
            assert("motivation"@.len() != "species"@.len());
            assert("motivation"@.len() != "Bloodline"@.len());
            assert("motivation"@.len() != "bloodline"@.len());
            assert("motivation"@.len() != "CultivationRealm"@.len());
            assert("motivation"@.len() != "cultivation_realm"@.len());
            assert("motivation"@.len() != "KnownAbility"@.len());
            assert("motivation"@.len() != "known_ability"@.len());
            assert("motivation"@.len() != "HiddenAbility"@.len());
            assert("motivation"@.len() != "hidden_ability"@.len());
            assert("motivation"@.len() != "Personality"@.len());
            assert("motivation"@.len() != "personality"@.len());
            assert("motivation"@[0] != "Background"@[0]);
            assert("motivation"@[0] != "background"@[0]);
            assert("motivation"@[0] != "Motivation"@[0]);
        },
        CharacterFacetType::Trauma => {
            assert("trauma"@.len() != "Appearance"@.len());
            assert("trauma"@.len() != "appearance"@.len());
            assert("trauma"@.len() != "Identity"@.len());
            assert("trauma"@.len() != "identity"@.len());
            assert("trauma"@.len() != "TrueName"@.len());
            assert("trauma"@.len() != "true_name"@.len());
            assert("trauma"@.len() != "Species"@.len());
            assert("trauma"@.len() != "species"@.len());
            assert("trauma"@.len() != "Bloodline"@.len());
            assert("trauma"@.len() != "bloodline"@.len());
            assert("trauma"@.len() != "CultivationRealm"@.len());
            assert("trauma"@.len() != "cultivation_realm"@.len());
            assert("trauma"@.len() != "KnownAbility"@.len());
            assert("trauma"@.len() != "known_ability"@.len());
            assert("trauma"@.len() != "HiddenAbility"@.len());
            assert("trauma"@.len() != "hidden_ability"@.len());
            assert("trauma"@.len() != "Personality"@.len());
            assert("trauma"@.len() != "personality"@.len());
            assert("trauma"@.len() != "Background"@.len());
            assert("trauma"@.len() != "background"@.len());
            assert("trauma"@.len() != "Motivation"@.len());
            assert("trauma"@.len() != "motivation"@.len());
            assert("trauma"@[0] != "Trauma"@[0]);
        },
        CharacterFacetType::MindModelCard => {
            assert("mind_model_card"@.len() != "Appearance"@.len());
            assert("mind_model_card"@.len() != "appearance"@.len());
            assert("mind_model_card"@.len() != "Identity"@.len());
            assert("mind_model_card"@.len() != "identity"@.len());
            assert("mind_model_card"@.len() != "TrueName"@.len());
            assert("mind_model_card"@.len() != "true_name"@.len());
            assert("mind_model_card"@.len() != "Species"@.len());
            assert("mind_model_card"@.len() != "species"@.len());
            assert("mind_model_card"@.len() != "Bloodline"@.len());
            assert("mind_model_card"@.len() != "bloodline"@.len());
            assert("mind_model_card"@.len() != "CultivationRealm"@.len());
            assert("mind_model_card"@.len() != "cultivation_realm"@.len());
            assert("mind_model_card"@.len() != "KnownAbility"@.len());
            assert("mind_model_card"@.len() != "known_ability"@.len());
            assert("mind_model_card"@.len() != "HiddenAbility"@.len());
            assert("mind_model_card"@.len() != "hidden_ability"@.len());
            assert("mind_model_card"@.len() != "Personality"@.len());
            assert("mind_model_card"@.len() != "personality"@.len());
            assert("mind_model_card"@.len() != "Background"@.len());
            assert("mind_model_card"@.len() != "background"@.len());
            assert("mind_model_card"@.len() != "Motivation"@.len());
            assert("mind_model_card"@.len() != "motivation"@.len());
            assert("mind_model_card"@.len() != "Trauma"@.len());
            assert("mind_model_card"@.len() != "trauma"@.len());
            assert("mind_model_card"@.len() != "MindModelCard"@.len());
        },
    }
}

/// The editor's input takes a location status by its stored name.
pub proof fn law_status_input_accepts_stored_name(x: LocationStatus)
    ensures
        status_of_input(status_name(x)) == Some(x),
{
    reveal_strlit("Active");
    reveal_strlit("active");
    reveal_strlit("Deprecated");
    reveal_strlit("deprecated");
    reveal_strlit("PendingConfirmation");
    reveal_strlit("pending_confirmation");
    match x {
        LocationStatus::Active => {
            assert("active"@[0] != "Active"@[0]);
        },
        LocationStatus::Deprecated => {
            assert("deprecated"@.len() != "Active"@.len());
            assert("deprecated"@.len() != "active"@.len());
            assert("deprecated"@[0] != "Deprecated"@[0]);
        },
        LocationStatus::PendingConfirmation => {
            assert("pending_confirmation"@.len() != "Active"@.len());
            assert("pending_confirmation"@.len() != "active"@.len());
            assert("pending_confirmation"@.len() != "Deprecated"@.len());
            assert("pending_confirmation"@.len() != "deprecated"@.len());
            assert("pending_confirmation"@.len() != "PendingConfirmation"@.len());
        },
    }
}

/// A knowledge kind, by its stored name; an error for any other name.
pub fn parse_knowledge_kind(raw: &str) -> (r: Result<KnowledgeKind, String>)
    ensures
        match kind_of_name(raw@) {
            Some(x) => r == Ok::<KnowledgeKind, String>(x),
            None => r matches Err(e) && e@ == "Invalid knowledge kind: "@ + raw@,
        },
{
    str_to_knowledge_kind(raw)
}

/// The subject the editor's input names. Every subject but the world
/// needs an id, and a character facet needs its facet type.
pub open spec fn subject_of_input(t: Seq<char>, id: Option<Seq<char>>, facet: Option<Seq<char>>) -> Result<
    SubjectView,
    Seq<char>,
> {
    if t == "world"@ {
        Ok(SubjectView::World)
    } else if t == "region"@ {
        match id {
            Some(i) => Ok(SubjectView::Region(i)),
            None => Err("Region knowledge requires subject_id"@),
        }
    } else if t == "faction"@ {
        match id {
            Some(i) => Ok(SubjectView::Faction(i)),
            None => Err("Faction knowledge requires subject_id"@),
        }
    } else if t == "character"@ {
        match id {
            None => Err("Character knowledge requires subject_id"@),
            Some(i) => match facet {
                None => Err("Character knowledge requires facet_type"@),
                Some(f) => match facet_of_input(f) {
                    Some(x) => Ok(SubjectView::Character(i, x)),
                    None => Err("Invalid character facet type: "@ + f),
                },
            },
        }
    } else if t == "event"@ {
        match id {
            Some(i) => Ok(SubjectView::Event(i)),
            None => Err("Event knowledge requires subject_id"@),
        }
    } else {
        Err("Invalid knowledge subject_type: "@ + t)
    }
}

/// The subject the editor's input names.
pub fn parse_knowledge_subject(subject_type: &str, subject_id: Option<String>, facet_type: Option<String>) -> (r:
    Result<KnowledgeSubject, String>)
    ensures
        match subject_of_input(subject_type@, opt_str(subject_id), opt_str(facet_type)) {
            Ok(v) => r matches Ok(s) && crate::codecs::subject_view(s) == v,
            Err(e) => r matches Err(m) && m@ == e,
        },
{
    if str_eq(subject_type, "world") {
        return Ok(KnowledgeSubject::World);
    }
    if str_eq(subject_type, "region") {
        return match subject_id {
            Some(id) => Ok(KnowledgeSubject::Region(id)),
            None => Err("Region knowledge requires subject_id".to_owned()),
        };
    }
    if str_eq(subject_type, "faction") {
        return match subject_id {
            Some(id) => Ok(KnowledgeSubject::Faction(id)),
            None => Err("Faction knowledge requires subject_id".to_owned()),
        };
    }
    if str_eq(subject_type, "character") {
        let id = match subject_id {
            Some(id) => id,
            None => {
                return Err("Character knowledge requires subject_id".to_owned());
            },
        };
        let raw = match facet_type {
            Some(f) => f,
            None => {
                return Err("Character knowledge requires facet_type".to_owned());
            },
        };
        return match parse_character_facet_type(raw.as_str()) {
            Ok(facet) => Ok(KnowledgeSubject::Character { id, facet }),
            Err(e) => Err(e),
        };
    }
    if str_eq(subject_type, "event") {
        return match subject_id {
            Some(id) => Ok(KnowledgeSubject::Event { event_id: id }),
            None => Err("Event knowledge requires subject_id".to_owned()),
        };
    }
    Err(join_str("Invalid knowledge subject_type: ", subject_type))
}

// ---------------------------------------------------------------------------
// Canon status of a turn
// ---------------------------------------------------------------------------

/// How the runtime ranks a turn against canon.
#[derive(Debug, Clone, Copy, PartialEq, Eq, Structural)]
pub enum RuntimeTurnCanonStatus {
    Canon,
    ProvisionalPromoted,
    ProvisionalOnly,
    NonCanon,
    FuturePreview,
}

/// How a session records a turn against canon.
#[derive(Debug, Clone, Copy, PartialEq, Eq, Structural)]
pub enum SessionTurnCanonStatus {
    CanonPromoted,
    CanonCandidate,
    NonCanon,
}

pub open spec fn session_status_of(s: RuntimeTurnCanonStatus) -> SessionTurnCanonStatus {
    match s {
        RuntimeTurnCanonStatus::Canon | RuntimeTurnCanonStatus::ProvisionalPromoted => SessionTurnCanonStatus::CanonPromoted,
        RuntimeTurnCanonStatus::ProvisionalOnly => SessionTurnCanonStatus::CanonCandidate,
        RuntimeTurnCanonStatus::NonCanon | RuntimeTurnCanonStatus::FuturePreview => SessionTurnCanonStatus::NonCanon,
    }
}

/// The session's record of a turn the runtime ranked: canon and promoted
/// turns are promoted, provisional ones candidates, the rest non-canon.
pub fn session_turn_status_from_runtime(status: RuntimeTurnCanonStatus) -> (r: SessionTurnCanonStatus)
    ensures
        r == session_status_of(status),
{
    match status {
        RuntimeTurnCanonStatus::Canon | RuntimeTurnCanonStatus::ProvisionalPromoted => SessionTurnCanonStatus::CanonPromoted,
        RuntimeTurnCanonStatus::ProvisionalOnly => SessionTurnCanonStatus::CanonCandidate,
        RuntimeTurnCanonStatus::NonCanon | RuntimeTurnCanonStatus::FuturePreview => SessionTurnCanonStatus::NonCanon,
    }
}

} // verus!
