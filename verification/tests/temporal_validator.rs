use smart_tavern::json::{JsonNumber, JsonValue};
use smart_tavern::quantity::Real;
use smart_tavern::temporal_validator::{
    generate_id, AfterEffect, ConflictSeverity, EventOutcome, HistoricalEventContent,
    ProvisionalTruthCandidate, TemporalConsistencyValidator, TimeAnchor, TimePrecision,
    TruthConstraint, TruthConstraintKind, TruthGuidance,
};

fn text(s: &str) -> JsonValue {
    JsonValue::String(s.to_string())
}

fn object(members: Vec<(&str, JsonValue)>) -> JsonValue {
    JsonValue::Object(members.into_iter().map(|(k, v)| (k.to_string(), v)).collect())
}

fn make_test_candidate(payload: JsonValue) -> ProvisionalTruthCandidate {
    ProvisionalTruthCandidate {
        provisional_id: generate_id("prov"),
        source_session_id: "test_session".to_string(),
        source_session_turn_id: "test_turn".to_string(),
        source_scene_turn_id: Some("test_scene_turn".to_string()),
        source_kind: "test".to_string(),
        payload,
        confidence: Real::Finite(800_000),
    }
}

fn make_test_constraint(kind: TruthConstraintKind, payload: JsonValue) -> TruthConstraint {
    TruthConstraint {
        constraint_id: generate_id("constraint"),
        source_knowledge_id: "test_event".to_string(),
        constraint_kind: kind,
        applies_to_refs: vec!["char_1".to_string()],
        structured_payload: payload,
    }
}

fn anchor(ordinal: i64) -> TimeAnchor {
    TimeAnchor {
        calendar_id: "default".to_string(),
        ordinal,
        precision: TimePrecision::Day,
        display_text: format!("Day {ordinal}"),
    }
}

fn guidance(constraints: Vec<TruthConstraint>) -> TruthGuidance {
    TruthGuidance {
        session_id: "test".to_string(),
        period_anchor: anchor(100),
        related_event_ids: vec!["event_1".to_string()],
        hard_constraints: constraints,
    }
}

#[test]
fn detects_required_outcome_violation() {
    let candidate = make_test_candidate(object(vec![(
        "prevented_outcomes",
        JsonValue::Array(vec![text("constraint_test")]),
    )]));
    let constraint = make_test_constraint(
        TruthConstraintKind::RequiredOutcome,
        object(vec![
            ("description", text("survives the battle")),
            ("domain", text("CharacterLifeState")),
            ("subject_id", text("char_1")),
        ]),
    );
    let constraint = TruthConstraint { constraint_id: "constraint_test".to_string(), ..constraint };
    let conflicts =
        TemporalConsistencyValidator::validate(&[candidate], &guidance(vec![constraint])).unwrap();
    assert_eq!(conflicts.len(), 1);
    assert_eq!(conflicts[0].severity, ConflictSeverity::Hard);
}

#[test]
fn detects_forbidden_outcome_violation() {
    let candidate = make_test_candidate(object(vec![(
        "outcomes",
        JsonValue::Array(vec![object(vec![
            ("description", text("dies in battle")),
            ("domain", text("CharacterLifeState")),
            ("subject_id", text("char_1")),
        ])]),
    )]));
    let constraint = make_test_constraint(
        TruthConstraintKind::ForbiddenOutcome,
        object(vec![
            ("description", text("dies in battle")),
            ("domain", text("CharacterLifeState")),
            ("subject_id", text("char_1")),
        ]),
    );
    let conflicts =
        TemporalConsistencyValidator::validate(&[candidate], &guidance(vec![constraint])).unwrap();
    assert_eq!(conflicts.len(), 1);
}

#[test]
fn allows_consistent_candidates() {
    let candidate = make_test_candidate(object(vec![(
        "outcomes",
        JsonValue::Array(vec![object(vec![
            ("description", text("forms alliance")),
            ("domain", text("Relationship")),
            ("subject_id", text("char_1")),
            ("target_id", text("char_2")),
        ])]),
    )]));
    let constraint = make_test_constraint(
        TruthConstraintKind::RequiredOutcome,
        object(vec![
            ("description", text("survives")),
            ("domain", text("CharacterLifeState")),
            ("subject_id", text("char_3")),
        ]),
    );
    let conflicts =
        TemporalConsistencyValidator::validate(&[candidate], &guidance(vec![constraint])).unwrap();
    assert!(conflicts.is_empty());
}

#[test]
fn time_validation_works() {
    let candidate_time = anchor(150);
    let valid_from = anchor(100);
    let valid_until = anchor(200);
    assert!(TemporalConsistencyValidator::is_time_valid(
        &candidate_time,
        Some(&valid_from),
        Some(&valid_until)
    ));
    assert!(!TemporalConsistencyValidator::is_time_valid(&candidate_time, Some(&valid_until), None));
    assert!(!TemporalConsistencyValidator::is_time_valid(&candidate_time, None, Some(&valid_from)));
}

#[test]
fn time_bounds_are_inclusive() {
    let t = anchor(100);
    assert!(TemporalConsistencyValidator::is_time_valid(&t, Some(&anchor(100)), Some(&anchor(100))));
    assert!(TemporalConsistencyValidator::is_time_valid(&t, None, None));
}

#[test]
fn negation_patterns_go_both_ways() {
    assert!(TemporalConsistencyValidator::is_negation_of("Cannot fly", "can fly"));
    assert!(TemporalConsistencyValidator::is_negation_of("can fly", "cannot fly"));
    assert!(TemporalConsistencyValidator::is_negation_of("never returns", "returns"));
    assert!(TemporalConsistencyValidator::is_negation_of("WASN'T there", "was there"));
    assert!(!TemporalConsistencyValidator::is_negation_of("can fly", "can fly"));
    assert!(!TemporalConsistencyValidator::is_negation_of("not here", "not here"));
}

#[test]
fn similar_descriptions_share_most_words() {
    assert!(TemporalConsistencyValidator::descriptions_similar("Dies in battle", "dies in battle"));
    assert!(TemporalConsistencyValidator::descriptions_similar("dies", "the hero dies"));
    assert!(TemporalConsistencyValidator::descriptions_similar("hero dies at dawn", "hero dies at dusk"));
    assert!(!TemporalConsistencyValidator::descriptions_similar("hero dies at dawn", "villain flees at dusk"));
    assert!(!TemporalConsistencyValidator::descriptions_similar("a b", "c d"));
}

#[test]
fn after_effects_block_earlier_changes() {
    let candidate = make_test_candidate(object(vec![
        ("affected_fact_refs", JsonValue::Array(vec![text("fact-1")])),
        ("story_time_ordinal", JsonValue::Number(JsonNumber::PosInt(50))),
    ]));
    let event = HistoricalEventContent {
        event_id: "war".to_string(),
        required_outcomes: vec![EventOutcome {
            outcome_id: "o1".to_string(),
            domain: "CharacterLifeState".to_string(),
            subject_id: "char_1".to_string(),
            target_id: None,
            description: "survives".to_string(),
        }],
        forbidden_outcomes: Vec::new(),
        known_after_effects: vec![AfterEffect { fact_ref: "fact-1".to_string(), valid_from_ordinal: 100 }],
    };
    let conflicts =
        TemporalConsistencyValidator::validate_against_historical_event(&candidate, &event).unwrap();
    assert_eq!(conflicts.len(), 1);
    assert_eq!(conflicts[0].source_constraint_ids, vec!["event_war_aftereffect_fact-1".to_string()]);
    assert_eq!(conflicts[0].session_id, "test_session");
    assert!(conflicts[0].conflict_id.starts_with("conflict_"));
    assert!(conflicts[0].resolved_at.is_none());
    match &conflicts[0].summary {
        JsonValue::Object(members) => {
            assert_eq!(members[0].0, "constraint_kind");
            assert!(matches!(&members[0].1, JsonValue::String(s) if s == "KnownAfterEffect"));
            assert!(matches!(&members[2].1, JsonValue::String(s) if s == "Candidate violates constraint: event_war_aftereffect_fact-1"));
        }
        _ => panic!("summary should be an object"),
    }
}

#[test]
fn generated_ids_carry_their_prefix() {
    let id = generate_id("conflict");
    assert!(id.starts_with("conflict_"));
    assert_eq!(id.len(), "conflict_".len() + 36);
}

#[test]
fn checking_concatenated_candidates_adds_up_the_conflicts() {
    let violating = || {
        make_test_candidate(object(vec![(
            "prevented_outcomes",
            JsonValue::Array(vec![text("constraint_test")]),
        )]))
    };
    let harmless = || make_test_candidate(object(vec![("outcomes", JsonValue::Array(vec![]))]));
    let constraint = || {
        let c = make_test_constraint(
            TruthConstraintKind::RequiredOutcome,
            object(vec![("description", text("survives the battle"))]),
        );
        TruthConstraint { constraint_id: "constraint_test".to_string(), ..c }
    };
    let g = guidance(vec![constraint()]);
    let first = TemporalConsistencyValidator::validate(&[violating(), harmless()], &g).unwrap();
    let second = TemporalConsistencyValidator::validate(&[violating()], &g).unwrap();
    let both =
        TemporalConsistencyValidator::validate(&[violating(), harmless(), violating()], &g).unwrap();
    assert_eq!(first.len(), 1);
    assert_eq!(second.len(), 1);
    assert_eq!(both.len(), first.len() + second.len());
}

#[test]
fn conflict_ids_are_prefixed_uuids() {
    let candidate = make_test_candidate(object(vec![(
        "prevented_outcomes",
        JsonValue::Array(vec![text("constraint_test")]),
    )]));
    let constraint = make_test_constraint(
        TruthConstraintKind::RequiredOutcome,
        object(vec![("description", text("survives the battle"))]),
    );
    let constraint = TruthConstraint { constraint_id: "constraint_test".to_string(), ..constraint };
    let conflicts =
        TemporalConsistencyValidator::validate(&[candidate], &guidance(vec![constraint])).unwrap();
    assert!(conflicts[0].conflict_id.starts_with("conflict_"));
    assert_eq!(conflicts[0].conflict_id.len(), "conflict_".len() + 36);
}

#[test]
fn negation_examples_ignore_case() {
    assert!(TemporalConsistencyValidator::is_negation_of("never survives", "survives"));
    assert!(TemporalConsistencyValidator::is_negation_of(
        "not survives the battle",
        "survives the battle"
    ));
    assert!(TemporalConsistencyValidator::is_negation_of("NEVER Survives", "survives"));
    assert!(!TemporalConsistencyValidator::is_negation_of("survives", "survives"));
}
