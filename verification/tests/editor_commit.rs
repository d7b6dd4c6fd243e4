use smart_tavern::editor_commit::{
    assemble_rollback_patch, changed_ids, check_commit_allowed, rollback_lookups, rollback_patch_json,
    rollback_plan, summarize_commit_validation, world_editor_status, world_is_paused, LookupPurpose, RecordSection, RollbackAction,
};
use smart_tavern::json::{json_eq, JsonValue};
use smart_tavern::quantity::Real;
use smart_tavern::world_model::{
    LocationEdge, LocationEdgeRelation, LocationLevel, LocationNode, LocationStatus,
};
use smart_tavern::world_patch::WorldEditorChanges;

fn object(members: Vec<(&str, JsonValue)>) -> JsonValue {
    JsonValue::Object(members.into_iter().map(|(k, v)| (k.to_string(), v)).collect())
}

fn location(id: &str, name: &str) -> LocationNode {
    LocationNode {
        location_id: id.to_string(),
        name: name.to_string(),
        type_label: "town".to_string(),
        canonical_level: LocationLevel::Settlement,
        parent_id: None,
        status: LocationStatus::Active,
        aliases: Vec::new(),
        metadata: object(vec![]),
        schema_version: "0.1".to_string(),
    }
}

fn edge(id: &str) -> LocationEdge {
    LocationEdge {
        edge_id: id.to_string(),
        from_location_id: "a".to_string(),
        to_location_id: "b".to_string(),
        relation: LocationEdgeRelation::Road,
        terrain_cost: Real::Finite(1_000_000),
        safety_cost: Real::Finite(1_000_000),
        distance_km: None,
        travel_time: None,
        seasonal_modifiers: Vec::new(),
    }
}

#[test]
fn commits_need_a_paused_world_and_the_current_revision() {
    assert_eq!(
        check_commit_allowed(false, 3, 3),
        Err("World is not paused - cannot commit editor changes".to_string())
    );
    assert_eq!(check_commit_allowed(true, 4, 3), Err("Revision mismatch: expected 3, got 4".to_string()));
    assert_eq!(check_commit_allowed(true, 3, 3), Ok(4));
    assert_eq!(check_commit_allowed(true, 0, 0), Ok(1));
}

#[test]
fn validation_errors_refuse_the_commit() {
    let mut changes = WorldEditorChanges::default();
    changes.location_creates.push(location("loc_a", " "));
    changes.location_updates.push(location("", "Town"));
    let err = summarize_commit_validation(&changes, &vec![], &vec![]).unwrap_err();
    assert_eq!(
        err,
        "World editor validation failed: name: location name cannot be empty; location_id: location_id cannot be empty"
    );
}

#[test]
fn warnings_are_counted_and_kept() {
    let mut changes = WorldEditorChanges::default();
    let mut loc = location("loc_a", "Town");
    loc.metadata = JsonValue::Null;
    changes.location_creates.push(loc);
    changes.edge_creates.push(edge("edge_1"));
    let summary = summarize_commit_validation(&changes, &vec![], &vec![]).expect("summary");
    assert_eq!(summary.error_count, 0);
    assert_eq!(summary.warning_count, 1);
    assert_eq!(
        summary.warnings,
        vec!["metadata: metadata should be a JSON object for forward-compatible editor patches".to_string()]
    );
}

#[test]
fn edge_errors_count_in_commit_validation() {
    let mut changes = WorldEditorChanges::default();
    let mut e = edge("");
    e.safety_cost = Real::Finite(-1);
    changes.edge_creates.push(e);
    let err = summarize_commit_validation(&changes, &vec![], &vec![]).unwrap_err();
    assert!(err.starts_with("World editor validation failed: edge_id: edge_id cannot be empty; safety_cost:"));
}

#[test]
fn changed_ids_follow_write_order() {
    let mut changes = WorldEditorChanges::default();
    changes.location_creates.push(location("loc_new", "New"));
    changes.location_updates.push(location("loc_old", "Old"));
    changes.location_deletes.push("loc_gone".to_string());
    changes.edge_creates.push(edge("edge_new"));
    changes.edge_deletes.push("edge_gone".to_string());
    changes.knowledge_deletes.push("k1".to_string());
    let ids = changed_ids(&changes);
    assert_eq!(ids.locations, vec!["loc_new", "loc_old", "loc_gone"]);
    assert_eq!(ids.relationships, vec!["edge_new", "edge_gone"]);
    assert_eq!(ids.knowledge, vec!["k1"]);
    assert!(ids.characters.is_empty());
}

fn sample_changes() -> WorldEditorChanges {
    let mut changes = WorldEditorChanges::default();
    changes.location_creates.push(location("loc_new", "New"));
    changes.location_updates.push(location("loc_old", "Old"));
    changes.edge_deletes.push("edge_gone".to_string());
    changes
}

#[test]
fn lookups_list_updates_and_deletes() {
    let lookups = rollback_lookups(&sample_changes());
    assert_eq!(lookups.len(), 2);
    assert_eq!(lookups[0].section, RecordSection::Locations);
    assert_eq!(lookups[0].purpose, LookupPurpose::Update);
    assert_eq!(lookups[0].id, "loc_old");
    assert_eq!(lookups[1].section, RecordSection::Edges);
    assert_eq!(lookups[1].purpose, LookupPurpose::Delete);
    assert_eq!(lookups[1].id, "edge_gone");
}

#[test]
fn a_missing_image_refuses_the_rollback_patch() {
    let changes = sample_changes();
    let err = assemble_rollback_patch(&changes, &vec![None, Some(JsonValue::Bool(true))]).unwrap_err();
    assert_eq!(err, "Location not found for update: loc_old");
    let err = assemble_rollback_patch(&changes, &vec![Some(JsonValue::Bool(true)), None]).unwrap_err();
    assert_eq!(err, "Location edge not found for delete: edge_gone");
}

#[test]
fn rollback_deletes_created_and_restores_changed_records() {
    let changes = sample_changes();
    let old_location = object(vec![("name", JsonValue::String("Old".to_string()))]);
    let old_edge = object(vec![("edge_id", JsonValue::String("edge_gone".to_string()))]);
    let patch = assemble_rollback_patch(&changes, &vec![Some(old_location), Some(old_edge)])
        .expect("patch");
    assert_eq!(patch.locations.len(), 2);
    assert_eq!(patch.locations[0].0, "loc_new");
    assert!(matches!(patch.locations[0].1, JsonValue::Null));
    assert_eq!(patch.edges.len(), 1);
    assert!(patch.knowledge.is_empty() && patch.characters.is_empty());

    let stored = rollback_patch_json(patch);
    let plan = rollback_plan(&stored);
    assert_eq!(plan.len(), 3);
    match &plan[0] {
        RollbackAction::Delete { section, id } => {
            assert_eq!(*section, RecordSection::Locations);
            assert_eq!(id, "loc_new");
        }
        other => panic!("unexpected {other:?}"),
    }
    match &plan[1] {
        RollbackAction::Restore { section, id, image } => {
            assert_eq!(*section, RecordSection::Locations);
            assert_eq!(id, "loc_old");
            assert!(json_eq(image, &object(vec![("name", JsonValue::String("Old".to_string()))])));
        }
        other => panic!("unexpected {other:?}"),
    }
    match &plan[2] {
        RollbackAction::Restore { section, id, .. } => {
            assert_eq!(*section, RecordSection::Edges);
            assert_eq!(id, "edge_gone");
        }
        other => panic!("unexpected {other:?}"),
    }
}

#[test]
fn a_later_write_of_the_same_record_wins() {
    let mut changes = WorldEditorChanges::default();
    changes.location_creates.push(location("loc_x", "X"));
    changes.location_updates.push(location("loc_x", "X2"));
    let image = object(vec![("v", JsonValue::Bool(false))]);
    let patch = assemble_rollback_patch(&changes, &vec![Some(image)]).expect("patch");
    assert_eq!(patch.locations.len(), 1);
    assert_eq!(patch.locations[0].0, "loc_x");
    assert!(json_eq(&patch.locations[0].1, &object(vec![("v", JsonValue::Bool(false))])));
}

#[test]
fn plans_skip_absent_sections() {
    let plan = rollback_plan(&object(vec![(
        "knowledge",
        object(vec![("k1", JsonValue::Null)]),
    )]));
    assert_eq!(plan.len(), 1);
    assert!(matches!(&plan[0], RollbackAction::Delete { section: RecordSection::Knowledge, .. }));
    assert!(rollback_plan(&JsonValue::Null).is_empty());
}

#[test]
fn status_and_pause_agree() {
    assert_eq!(world_editor_status(1, 0), "active_turn");
    assert_eq!(world_editor_status(0, 2), "pending_llm");
    assert_eq!(world_editor_status(0, 0), "paused");
    assert!(!world_is_paused(1, 0));
    assert!(!world_is_paused(0, 2));
    assert!(world_is_paused(0, 0));
    for (a, p) in [(0, 0), (3, 0), (0, 5), (2, 2)] {
        assert_eq!(world_editor_status(a, p) == "paused", world_is_paused(a, p));
    }
}
