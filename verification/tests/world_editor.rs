use smart_tavern::json::JsonValue;
use smart_tavern::quantity::Real;
use smart_tavern::world_editor::{ValidationIssue, ValidationSeverity, WorldEditorValidator};
use smart_tavern::world_model::{
    AccessPolicy, AccessScope, CharacterFacetType, DistanceRange, KnowledgeEntry, KnowledgeKind,
    KnowledgeSubject, LocationAlias, LocationEdge, LocationEdgeRelation, LocationLevel,
    LocationNode, LocationStatus, SubjectAwareness,
};

fn text(s: &str) -> JsonValue {
    JsonValue::String(s.to_string())
}

fn texts(items: &[&str]) -> JsonValue {
    JsonValue::Array(items.iter().map(|s| text(s)).collect())
}

fn object(members: Vec<(&str, JsonValue)>) -> JsonValue {
    JsonValue::Object(members.into_iter().map(|(k, v)| (k.to_string(), v)).collect())
}

fn units(n: i64) -> Real {
    Real::Finite(n * 1_000_000)
}

fn build_mind_model_entry(content: JsonValue) -> KnowledgeEntry {
    KnowledgeEntry {
        knowledge_id: "knowledge_mind_model_test".to_string(),
        kind: KnowledgeKind::CharacterFacet,
        subject: KnowledgeSubject::Character {
            id: "character_test".to_string(),
            facet: CharacterFacetType::MindModelCard,
        },
        content,
        apparent_content: None,
        access_policy: AccessPolicy {
            known_by: Vec::new(),
            scope: vec![AccessScope::Public],
            conditions: Vec::new(),
        },
        subject_awareness: SubjectAwareness::Aware,
        schema_version: "0.1".to_string(),
    }
}

fn has_issue(issues: &[ValidationIssue], path: &str, message: &str) -> bool {
    issues.iter().any(|issue| issue.field_path == path && issue.message.contains(message))
}

#[test]
fn validate_knowledge_accepts_complete_mind_model_card_content() {
    let entry = build_mind_model_entry(object(vec![
        ("summary_text", text("谨慎分析后再行动")),
        ("attention_biases", texts(&["威胁信号", "权力差距"])),
        ("risk_tolerance", text("Moderate")),
        ("default_social_strategy", text("先观察再交换信息")),
        ("value_priorities", texts(&["生存", "情报"])),
        ("cognitive_patterns", texts(&["先收集证据", "避免正面冲突"])),
        ("extensions", object(vec![])),
    ]));

    let issues = WorldEditorValidator::validate_knowledge(&entry, None).expect("validation");
    assert!(issues.is_empty());
}

#[test]
fn validate_knowledge_rejects_sparse_mind_model_card_content() {
    let entry = build_mind_model_entry(object(vec![("summary_text", text("只有摘要"))]));

    let issues = WorldEditorValidator::validate_knowledge(
        &entry,
        Some("missing field `attention_biases`"),
    )
    .expect("validation");
    assert!(issues.iter().any(|issue| {
        issue.field_path == "content" && issue.message.contains("MindModelCard content schema invalid")
    }));
}

#[test]
fn schema_error_only_counts_for_mind_model_cards() {
    let mut entry = build_mind_model_entry(text("a fact"));
    entry.kind = KnowledgeKind::WorldFact;
    entry.subject = KnowledgeSubject::World;
    let issues = WorldEditorValidator::validate_knowledge(&entry, Some("bad")).expect("validation");
    assert!(issues.is_empty());
}

#[test]
fn knowledge_checks_ids_content_scope_and_subject() {
    let mut entry = build_mind_model_entry(JsonValue::Null);
    entry.knowledge_id = "  ".to_string();
    entry.schema_version = String::new();
    entry.kind = KnowledgeKind::RegionFact;
    entry.subject_awareness = SubjectAwareness::Unaware;
    entry.access_policy.scope = vec![AccessScope::Faction(" ".to_string())];
    let issues = WorldEditorValidator::validate_knowledge(&entry, None).expect("validation");
    assert!(has_issue(&issues, "knowledge_id", "knowledge_id cannot be empty"));
    assert!(has_issue(&issues, "schema_version", "schema_version cannot be empty"));
    assert!(has_issue(&issues, "content", "content cannot be null"));
    assert!(has_issue(&issues, "access_policy.scope[0]", "access scope value cannot be empty"));
    assert!(issues.iter().any(|i| i.field_path == "subject"
        && i.severity == ValidationSeverity::Warning));
    assert!(has_issue(&issues, "apparent_content", "apparent_content"));
}

fn location() -> LocationNode {
    LocationNode {
        location_id: "loc_town".to_string(),
        name: "Town".to_string(),
        type_label: "town".to_string(),
        canonical_level: LocationLevel::Settlement,
        parent_id: Some("loc_region".to_string()),
        status: LocationStatus::Active,
        aliases: vec![LocationAlias {
            alias: "Old Town".to_string(),
            normalized_alias: "old town".to_string(),
        }],
        metadata: object(vec![]),
        schema_version: "0.1".to_string(),
    }
}

#[test]
fn well_formed_location_has_no_issues() {
    let issues = WorldEditorValidator::validate_location(&location()).expect("validation");
    assert!(issues.is_empty());
}

#[test]
fn location_issues_in_order() {
    let mut loc = location();
    loc.name = " ".to_string();
    loc.parent_id = Some("loc_town".to_string());
    loc.metadata = texts(&[]);
    loc.aliases.push(LocationAlias { alias: String::new(), normalized_alias: "x".to_string() });
    let issues = WorldEditorValidator::validate_location(&loc).expect("validation");
    let paths: Vec<&str> = issues.iter().map(|i| i.field_path.as_str()).collect();
    assert_eq!(paths, vec!["name", "parent_id", "metadata", "aliases[1].alias"]);
    assert_eq!(issues[1].message, "location cannot be its own parent");
    assert_eq!(issues[2].severity, ValidationSeverity::Warning);
}

fn edge() -> LocationEdge {
    LocationEdge {
        edge_id: "edge_1".to_string(),
        from_location_id: "a".to_string(),
        to_location_id: "b".to_string(),
        relation: LocationEdgeRelation::Road,
        terrain_cost: units(1),
        safety_cost: units(2),
        distance_km: Some(DistanceRange { min_km: units(3), max_km: units(5) }),
        travel_time: None,
        seasonal_modifiers: Vec::new(),
    }
}

#[test]
fn edge_costs_and_self_loops_are_checked() {
    assert!(WorldEditorValidator::validate_edge(&edge()).expect("validation").is_empty());
    let mut e = edge();
    e.to_location_id = "a".to_string();
    e.terrain_cost = Real::Finite(0);
    e.safety_cost = Real::NaN;
    let issues = WorldEditorValidator::validate_edge(&e).expect("validation");
    assert!(has_issue(&issues, "to_location_id", "cannot point to the same location"));
    assert!(has_issue(&issues, "terrain_cost", "positive finite"));
    assert!(has_issue(&issues, "safety_cost", "positive finite"));
}
