use smart_tavern::editor_snapshot::knowledge_summary;
use smart_tavern::turn_validator::Validator;
use smart_tavern::world_editor::{ValidationIssue, ValidationSeverity};
use smart_tavern::world_patch::{
    append_validation_items, commit_result, stale_revision_result, validate_world_editor_changes, validation_result,
    EditorCommitResult, WorldEditorChanges,
};

fn issue(severity: ValidationSeverity, path: &str, message: &str) -> ValidationIssue {
    ValidationIssue { severity, field_path: path.to_string(), message: message.to_string() }
}

#[test]
fn issues_are_sorted_into_the_report() {
    let mut blockers = Vec::new();
    let mut warnings = Vec::new();
    let mut info = Vec::new();
    append_validation_items(
        &mut blockers,
        &mut warnings,
        &mut info,
        vec![
            issue(ValidationSeverity::Warning, "a", "soft"),
            issue(ValidationSeverity::Error, "b", "hard"),
            issue(ValidationSeverity::Error, "c", "harder"),
        ],
    );
    assert_eq!(blockers.len(), 2);
    assert_eq!(blockers[0].severity, "blocker");
    assert_eq!(blockers[0].code, "world_editor_validation");
    assert_eq!(blockers[0].field_path.as_deref(), Some("b"));
    assert_eq!(blockers[1].message, "harder");
    assert_eq!(warnings.len(), 1);
    assert_eq!(warnings[0].severity, "warning");
    assert_eq!(info.len(), 1);
    assert_eq!(info[0].code, "world_editor_validation_complete");
    assert_eq!(info[0].message, "World Editor patch 已执行真实模型校验。");
    let report = validation_result(blockers, warnings, info);
    assert!(!report.is_valid);
    let clean = validation_result(Vec::new(), Vec::new(), Vec::new());
    assert!(clean.is_valid);
}

#[test]
fn stale_patches_are_answered_with_the_current_revision() {
    assert!(stale_revision_result(4, 4).is_none());
    let r = stale_revision_result(5, 4).unwrap();
    assert!(!r.success);
    assert_eq!(r.commit_id, None);
    assert_eq!(r.new_revision, 5);
    assert_eq!(r.error.as_deref(), Some("editor revision 已过期，当前 revision=5，提交基线=4"));
}

#[test]
fn commit_outcomes_become_results() {
    let ok = commit_result(
        3,
        Ok(EditorCommitResult {
            commit_id: "c-1".to_string(),
            resulting_revision: 4,
            changed_location_ids: vec![],
            changed_knowledge_ids: vec![],
            changed_character_ids: vec![],
        }),
    );
    assert!(ok.success);
    assert_eq!((ok.commit_id.as_deref(), ok.new_revision, ok.error), (Some("c-1"), 4, None));
    let err = commit_result(3, Err("boom".to_string()));
    assert!(!err.success);
    assert_eq!((err.commit_id, err.new_revision, err.error.as_deref()), (None, 3, Some("boom")));
}

#[test]
fn empty_patches_have_no_issues() {
    let issues = validate_world_editor_changes(&WorldEditorChanges::default(), &Vec::new(), &Vec::new()).unwrap();
    assert!(issues.is_empty());
}

#[test]
fn knowledge_summaries_read_the_summary_text() {
    let s = knowledge_summary(
        "k1".to_string(),
        "world_fact".to_string(),
        "world".to_string(),
        None,
        None,
        r#"{"summary_text":"The sky is green","detail":1.5}"#,
        &Some("{}".to_string()),
        r#"{"scope":["GodOnly"]}"#,
        "2024-01-01T00:00:00Z".to_string(),
    );
    assert_eq!(s.summary_text, "The sky is green");
    assert!(s.has_god_only);
    assert!(s.has_apparent_content);
    let bare = knowledge_summary(
        "k2".to_string(),
        "memory".to_string(),
        "character".to_string(),
        Some("c1".to_string()),
        Some("appearance".to_string()),
        "not json",
        &None,
        r#"{"scope":["Public"]}"#,
        "t".to_string(),
    );
    assert_eq!(bare.summary_text, "");
    assert!(!bare.has_god_only);
    assert!(!bare.has_apparent_content);
    assert_eq!(bare.subject_id.as_deref(), Some("c1"));
}

#[test]
fn a_turn_with_nothing_to_check_passes() {
    let r = Validator::validate_turn(None, &Vec::new(), &[], None, None);
    assert!(r.passed);
    assert!(r.extractor_issues.is_empty());
    assert!(r.cognitive_issues.is_empty());
    assert!(r.reaction_issues.is_empty());
}
