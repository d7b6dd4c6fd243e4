use smart_tavern::editor_state::{check_location_deletable, WorldEditorState};

#[test]
fn a_new_editor_is_paused_at_revision_zero() {
    let editor = WorldEditorState::new("world_demo".to_string());
    assert!(editor.is_paused());
    assert_eq!(editor.revision(), 0);
    assert_eq!(editor.world_id, "world_demo");
    assert_eq!(editor.ensure_editable(), Ok(()));
}

#[test]
fn edits_need_a_paused_world_and_count_up() {
    let mut editor = WorldEditorState::new("w".to_string());
    editor.record_edit();
    editor.record_edit();
    assert_eq!(editor.revision(), 2);
    editor.set_paused(false);
    assert!(!editor.is_paused());
    assert_eq!(
        editor.ensure_editable(),
        Err("World is not paused - editor operations not allowed".to_string())
    );
    assert_eq!(editor.revision(), 2);
    editor.set_paused(true);
    assert_eq!(editor.ensure_editable(), Ok(()));
}

#[test]
fn locations_with_children_stay() {
    assert_eq!(check_location_deletable(0), Ok(()));
    assert_eq!(
        check_location_deletable(3),
        Err("Cannot delete location with children".to_string())
    );
}
