use smart_tavern::codecs::{
    columns_to_subject, edge_relation_to_str, facet_type, facet_type_to_str,
    fact_confidence_to_str, knowledge_kind_to_str, location_level_to_str, location_status_to_str,
    mana_tendency_to_str, scope_to_parts, str_to_edge_relation, str_to_facet_type,
    str_to_fact_confidence, str_to_knowledge_kind, str_to_location_level, str_to_location_status,
    str_to_mana_tendency, subject_id, subject_to_columns, subject_type_to_str,
};
use smart_tavern::editor_input::{
    parse_character_facet_type, parse_knowledge_kind, parse_knowledge_subject,
    parse_location_level, parse_location_status, session_turn_status_from_runtime,
    RuntimeTurnCanonStatus, SessionTurnCanonStatus,
};
use smart_tavern::world_model::{
    AccessScope, CharacterFacetType, FactConfidence, KnowledgeKind, KnowledgeSubject,
    LocationEdgeRelation, LocationLevel, LocationStatus, ManaExpressionTendency,
};

const LEVELS: [LocationLevel; 10] = [
    LocationLevel::WorldRoot,
    LocationLevel::Realm,
    LocationLevel::Continent,
    LocationLevel::NaturalRegion,
    LocationLevel::Polity,
    LocationLevel::MajorRegion,
    LocationLevel::LocalRegion,
    LocationLevel::Settlement,
    LocationLevel::DistrictOrSite,
    LocationLevel::RoomOrSubsite,
];

const FACETS: [CharacterFacetType; 13] = [
    CharacterFacetType::Appearance,
    CharacterFacetType::Identity,
    CharacterFacetType::TrueName,
    CharacterFacetType::Species,
    CharacterFacetType::Bloodline,
    CharacterFacetType::CultivationRealm,
    CharacterFacetType::KnownAbility,
    CharacterFacetType::HiddenAbility,
    CharacterFacetType::Personality,
    CharacterFacetType::Background,
    CharacterFacetType::Motivation,
    CharacterFacetType::Trauma,
    CharacterFacetType::MindModelCard,
];

#[test]
fn every_enum_name_reads_back() {
    for level in LEVELS {
        assert_eq!(str_to_location_level(location_level_to_str(&level)), Ok(level));
    }
    for status in [LocationStatus::Active, LocationStatus::Deprecated, LocationStatus::PendingConfirmation] {
        assert_eq!(str_to_location_status(location_status_to_str(&status)), Ok(status));
        assert_eq!(parse_location_status(location_status_to_str(&status)), Ok(status));
    }
    for relation in [
        LocationEdgeRelation::Adjacent,
        LocationEdgeRelation::Road,
        LocationEdgeRelation::RiverRoute,
        LocationEdgeRelation::SeaRoute,
        LocationEdgeRelation::MountainPass,
        LocationEdgeRelation::ForestTrail,
        LocationEdgeRelation::BorderCrossing,
        LocationEdgeRelation::TeleportGate,
        LocationEdgeRelation::ContainsShortcut,
    ] {
        assert_eq!(str_to_edge_relation(edge_relation_to_str(&relation)), Ok(relation));
    }
    for kind in [
        KnowledgeKind::WorldFact,
        KnowledgeKind::RegionFact,
        KnowledgeKind::FactionFact,
        KnowledgeKind::CharacterFacet,
        KnowledgeKind::HistoricalEvent,
        KnowledgeKind::Memory,
    ] {
        assert_eq!(str_to_knowledge_kind(knowledge_kind_to_str(&kind)), Ok(kind));
        assert_eq!(parse_knowledge_kind(knowledge_kind_to_str(&kind)), Ok(kind));
    }
    for facet in FACETS {
        let name = facet_type_to_str(&facet);
        assert_eq!(str_to_facet_type(&name), Ok(facet));
        assert_eq!(parse_character_facet_type(&name), Ok(facet));
    }
    for c in [
        FactConfidence::Asserted,
        FactConfidence::High,
        FactConfidence::Medium,
        FactConfidence::Low,
        FactConfidence::Inferred,
    ] {
        assert_eq!(str_to_fact_confidence(fact_confidence_to_str(&c)), Ok(c));
    }
    for t in [
        ManaExpressionTendency::Inward,
        ManaExpressionTendency::Neutral,
        ManaExpressionTendency::Expressive,
    ] {
        assert_eq!(str_to_mana_tendency(mana_tendency_to_str(&t)), Ok(t));
    }
}

#[test]
fn stored_names_are_snake_case() {
    assert_eq!(location_level_to_str(&LocationLevel::DistrictOrSite), "district_or_site");
    assert_eq!(location_status_to_str(&LocationStatus::PendingConfirmation), "pending_confirmation");
    assert_eq!(facet_type_to_str(&CharacterFacetType::MindModelCard), "mind_model_card");
    assert_eq!(mana_tendency_to_str(&ManaExpressionTendency::Inward), "inward");
    assert_eq!(str_to_mana_tendency("Expressive"), Ok(ManaExpressionTendency::Expressive));
}

#[test]
fn unknown_names_are_errors() {
    assert_eq!(str_to_location_level("castle"), Err("Invalid location level: castle".to_string()));
    assert!(str_to_location_status("gone").is_err());
    assert!(str_to_edge_relation("tunnel").is_err());
    assert!(str_to_knowledge_kind("Rumor").is_err());
    assert!(str_to_facet_type("MindModelCard").is_err());
    assert!(str_to_fact_confidence("certain").is_err());
    assert!(str_to_mana_tendency("INWARD").is_err());
}

#[test]
fn subjects_round_trip_through_columns() {
    let subjects = vec![
        KnowledgeSubject::World,
        KnowledgeSubject::Region("r1".to_string()),
        KnowledgeSubject::Faction("f1".to_string()),
        KnowledgeSubject::Character { id: "c1".to_string(), facet: CharacterFacetType::Trauma },
        KnowledgeSubject::Event { event_id: "e1".to_string() },
    ];
    for subject in &subjects {
        let (t, id, facet) = subject_to_columns(subject);
        assert_eq!(t, subject_type_to_str(subject));
        assert_eq!(id, subject_id(subject));
        assert_eq!(facet, facet_type(subject));
        let back = columns_to_subject(&t, id, facet).expect("subject");
        assert_eq!(subject_to_columns(&back), subject_to_columns(subject));
    }
    assert_eq!(subject_id(&KnowledgeSubject::World), None);
}

#[test]
fn character_columns_without_facet_read_as_identity() {
    let subject = columns_to_subject("character", Some("c1".to_string()), None).expect("subject");
    assert_eq!(facet_type(&subject), Some("identity".to_string()));
    let missing_id = columns_to_subject("region", None, None).expect("subject");
    assert_eq!(subject_id(&missing_id), Some(String::new()));
    assert_eq!(
        columns_to_subject("planet", None, None).err(),
        Some("Invalid subject type: planet".to_string())
    );
    assert_eq!(
        columns_to_subject("character", Some("c".to_string()), Some("aura".to_string())).err(),
        Some("Invalid facet type: aura".to_string())
    );
}

#[test]
fn scopes_split_into_kind_and_value() {
    assert_eq!(scope_to_parts(&AccessScope::Public), ("public".to_string(), String::new()));
    assert_eq!(scope_to_parts(&AccessScope::GodOnly), ("god_only".to_string(), String::new()));
    assert_eq!(
        scope_to_parts(&AccessScope::Bloodline("dragon".to_string())),
        ("bloodline".to_string(), "dragon".to_string())
    );
}

#[test]
fn editor_input_accepts_variant_and_stored_names() {
    assert_eq!(parse_character_facet_type("TrueName"), Ok(CharacterFacetType::TrueName));
    assert_eq!(parse_character_facet_type("true_name"), Ok(CharacterFacetType::TrueName));
    assert!(parse_character_facet_type("truename").is_err());
    assert_eq!(parse_location_level("MajorRegion"), Ok(LocationLevel::MajorRegion));
    assert_eq!(
        parse_location_level("major_region"),
        Err("Invalid location level: major_region".to_string())
    );
    assert_eq!(parse_location_status("Deprecated"), Ok(LocationStatus::Deprecated));
    assert_eq!(
        parse_location_status("x"),
        Err("Invalid location status: x".to_string())
    );
}

#[test]
fn editor_subject_input_needs_ids_and_facets() {
    assert!(matches!(parse_knowledge_subject("world", None, None), Ok(KnowledgeSubject::World)));
    assert_eq!(
        parse_knowledge_subject("region", None, None).err(),
        Some("Region knowledge requires subject_id".to_string())
    );
    assert_eq!(
        parse_knowledge_subject("character", Some("c".to_string()), None).err(),
        Some("Character knowledge requires facet_type".to_string())
    );
    assert_eq!(
        parse_knowledge_subject("character", None, Some("Trauma".to_string())).err(),
        Some("Character knowledge requires subject_id".to_string())
    );
    let subject = parse_knowledge_subject(
        "character",
        Some("c".to_string()),
        Some("HiddenAbility".to_string()),
    )
    .expect("subject");
    assert_eq!(facet_type(&subject), Some("hidden_ability".to_string()));
    assert_eq!(
        parse_knowledge_subject("thing", None, None).err(),
        Some("Invalid knowledge subject_type: thing".to_string())
    );
}

#[test]
fn runtime_canon_status_maps_to_session_status() {
    assert_eq!(session_turn_status_from_runtime(RuntimeTurnCanonStatus::Canon), SessionTurnCanonStatus::CanonPromoted);
    assert_eq!(session_turn_status_from_runtime(RuntimeTurnCanonStatus::ProvisionalPromoted), SessionTurnCanonStatus::CanonPromoted);
    assert_eq!(session_turn_status_from_runtime(RuntimeTurnCanonStatus::ProvisionalOnly), SessionTurnCanonStatus::CanonCandidate);
    assert_eq!(session_turn_status_from_runtime(RuntimeTurnCanonStatus::NonCanon), SessionTurnCanonStatus::NonCanon);
    assert_eq!(session_turn_status_from_runtime(RuntimeTurnCanonStatus::FuturePreview), SessionTurnCanonStatus::NonCanon);
}
