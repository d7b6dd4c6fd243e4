use smart_tavern::json::JsonValue;
use smart_tavern::turn_model::{
    OutcomePlan, OutcomePlannerInput, OutcomePlannerOutput, PlannerConflict, ReactionIntent,
    ReactionOption, ReactionWindow, ReactorEligibility, SurfaceRealizerInput,
    SurfaceRealizerOutput,
};
use smart_tavern::turn_validator::{
    TurnValidationResult, ValidationIssue, ValidationSeverity, Validator,
};

fn issue(rule: &str, severity: ValidationSeverity) -> ValidationIssue {
    ValidationIssue {
        rule: rule.to_string(),
        severity,
        description: format!("{rule} happened"),
        field_path: None,
    }
}

#[test]
fn fresh_result_passes() {
    let r = TurnValidationResult::new();
    assert!(r.passed);
    assert!(r.critical_summary.is_empty());
    assert!(r.all_issues().is_empty());
}

#[test]
fn warnings_keep_the_turn_passing() {
    let mut r = TurnValidationResult::new();
    r.add_extractor_issues(vec![issue("w1", ValidationSeverity::Warning)]);
    r.add_narrative_issues(vec![issue("w2", ValidationSeverity::Warning)]);
    assert!(r.passed);
    assert_eq!(r.count_by_severity(ValidationSeverity::Warning), 2);
    assert_eq!(r.count_by_severity(ValidationSeverity::Error), 0);
}

#[test]
fn an_error_anywhere_fails_the_turn() {
    let mut r = TurnValidationResult::new();
    r.add_cognitive_issues("hero".to_string(), vec![issue("e1", ValidationSeverity::Error)]);
    assert!(!r.passed);
    assert!(r.critical_summary.is_empty());
}

#[test]
fn critical_issues_are_summarised_in_order() {
    let mut r = TurnValidationResult::new();
    r.add_outcome_issues(vec![issue("late", ValidationSeverity::Critical)]);
    r.add_extractor_issues(vec![
        issue("early", ValidationSeverity::Critical),
        issue("minor", ValidationSeverity::Warning),
    ]);
    assert!(!r.passed);
    assert_eq!(
        r.critical_summary,
        vec!["[early] early happened".to_string(), "[late] late happened".to_string()]
    );
    let rules: Vec<&str> = r.all_issues().iter().map(|i| i.rule.as_str()).collect();
    assert_eq!(rules, vec!["early", "minor", "late"]);
    assert_eq!(r.count_by_severity(ValidationSeverity::Critical), 2);
}

#[test]
fn cognitive_issues_replace_those_of_the_same_character() {
    let mut r = TurnValidationResult::new();
    r.add_cognitive_issues("hero".to_string(), vec![issue("bad", ValidationSeverity::Error)]);
    r.add_cognitive_issues("mage".to_string(), vec![issue("note", ValidationSeverity::Warning)]);
    r.add_cognitive_issues("hero".to_string(), Vec::new());
    assert!(r.passed);
    assert_eq!(r.all_issues().len(), 1);
    assert_eq!(r.cognitive_issues.len(), 2);
}

#[test]
fn counts_add_up_to_all_issues() {
    let mut r = TurnValidationResult::new();
    r.add_reaction_issues(vec![
        issue("a", ValidationSeverity::Warning),
        issue("b", ValidationSeverity::Error),
        issue("c", ValidationSeverity::Critical),
    ]);
    let total = r.count_by_severity(ValidationSeverity::Warning)
        + r.count_by_severity(ValidationSeverity::Error)
        + r.count_by_severity(ValidationSeverity::Critical);
    assert_eq!(total, r.all_issues().len());
}

fn window() -> ReactionWindow {
    ReactionWindow {
        eligible_reactors: vec![ReactorEligibility {
            character_id: "hero".to_string(),
            available_reaction_options: vec![ReactionOption { option_id: "dodge".to_string() }],
        }],
    }
}

#[test]
fn reactions_need_an_eligible_character_and_option() {
    let ok = ReactionIntent { character_id: "hero".to_string(), chosen_option_id: "dodge".to_string() };
    assert!(Validator::validate_reaction(&ok, &window()).is_empty());

    let stranger = ReactionIntent { character_id: "thief".to_string(), chosen_option_id: "dodge".to_string() };
    let issues = Validator::validate_reaction(&stranger, &window());
    assert_eq!(issues.len(), 1);
    assert_eq!(issues[0].rule, "reaction_eligibility");
    assert_eq!(issues[0].description, "character 'thief' is not eligible to react in this window");

    let wrong = ReactionIntent { character_id: "hero".to_string(), chosen_option_id: "fly".to_string() };
    let issues = Validator::validate_reaction(&wrong, &window());
    assert_eq!(issues.len(), 1);
    assert_eq!(issues[0].rule, "invalid_reaction_option");
    assert_eq!(issues[0].field_path.as_deref(), Some("chosen_option_id"));
}

#[test]
fn outcome_plans_warn_when_empty_or_conflicting() {
    let output = OutcomePlannerOutput {
        outcome_plan: OutcomePlan { outward_actions: Vec::new(), narratable_facts: Vec::new() },
        conflict_reports: vec![PlannerConflict { summary_json: "{\"x\":1}".to_string() }],
    };
    let issues = Validator::validate_outcome(&output, &OutcomePlannerInput { turn_id: "t".to_string() });
    let rules: Vec<&str> = issues.iter().map(|i| i.rule.as_str()).collect();
    assert_eq!(rules, vec!["no_outward_actions", "outcome_conflict", "no_narratable_facts"]);
    assert_eq!(issues[1].description, "conflict report 0: {\"x\":1}");
    assert_eq!(issues[1].field_path.as_deref(), Some("conflict_reports[0]"));

    let fine = OutcomePlannerOutput {
        outcome_plan: OutcomePlan {
            outward_actions: vec![JsonValue::Null],
            narratable_facts: vec![JsonValue::Bool(true)],
        },
        conflict_reports: Vec::new(),
    };
    assert!(Validator::validate_outcome(&fine, &OutcomePlannerInput { turn_id: "t".to_string() }).is_empty());
}

#[test]
fn narratives_must_not_be_blank_long_or_templated() {
    let input = SurfaceRealizerInput { turn_id: "t".to_string() };
    let blank = SurfaceRealizerOutput { narrative_text: "  ".to_string() };
    let issues = Validator::validate_narrative(&blank, &input);
    assert_eq!(issues.len(), 1);
    assert_eq!(issues[0].rule, "empty_narrative");
    assert_eq!(issues[0].severity, ValidationSeverity::Error);

    let templated = SurfaceRealizerOutput { narrative_text: "Hello {{user}}".to_string() };
    let issues = Validator::validate_narrative(&templated, &input);
    assert_eq!(issues.len(), 1);
    assert_eq!(issues[0].rule, "unresolved_placeholders");

    let long = SurfaceRealizerOutput { narrative_text: "a".repeat(10_001) };
    let issues = Validator::validate_narrative(&long, &input);
    assert_eq!(issues.len(), 1);
    assert_eq!(issues[0].description, "narrative is very long (10001 chars)");
}

#[test]
fn contains_any_lowers_the_needles() {
    assert!(Validator::contains_any("the hero attacks", &["ATTACK", "flee"]));
    assert!(!Validator::contains_any("The Hero waits", &["hero"]));
}
