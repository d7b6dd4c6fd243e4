use smart_tavern::json::JsonValue;
use smart_tavern::lore_selection::{
    character_lore_ids, lore_file_id, merge_global_lore_ids, persona_scan_text, preset_max_tokens,
    world_info_plan, worldbook_read_outcome,
    CharLoreBinding, UserPersona, WorldInfoSourceKind,
};

fn strs(v: &[&str]) -> Vec<String> {
    v.iter().map(|s| s.to_string()).collect()
}

/// The id of the stored worldbook with this name, as the store's files
/// give it.
fn find_lore_id_by_name(files: &[(&str, &str)], world_name: &str) -> Option<String> {
    files
        .iter()
        .filter_map(|(file, name)| lore_file_id(file).map(|id| (id, *name)))
        .find(|(_, name)| *name == world_name)
        .map(|(id, _)| id)
}

#[test]
fn character_bound_worldbook_is_enabled_by_default_until_explicitly_disabled() {
    let files = [("lore-1.json", "Default World")];
    let world_lore_id = find_lore_id_by_name(&files, "Default World");
    let enabled = character_lore_ids(world_lore_id.clone(), "Hero", &Vec::new(), &Vec::new());
    assert_eq!(enabled, vec!["lore-1".to_string()]);

    let disabled = character_lore_ids(world_lore_id, "Hero", &Vec::new(), &strs(&["lore-1"]));
    assert!(disabled.is_empty());
}

#[test]
fn missing_worldbook_is_treated_as_absent_not_error() {
    let read: Result<JsonValue, String> =
        Err("Failed to read lores/missing-id.json: No such file or directory".to_string());
    let loaded = worldbook_read_outcome(read).expect("missing lore should not error");
    assert!(loaded.is_none());
}

#[test]
fn other_read_errors_stand() {
    let read: Result<JsonValue, String> = Err("Invalid path component: ..".to_string());
    assert_eq!(worldbook_read_outcome(read).err(), Some("Invalid path component: ..".to_string()));
    let read: Result<i32, String> = Ok(7);
    assert_eq!(worldbook_read_outcome(read), Ok(Some(7)));
}

#[test]
fn bindings_add_extra_books_of_the_character() {
    let bindings = vec![
        CharLoreBinding { name: "Hero".to_string(), extra_books: strs(&["b1", "b2"]) },
        CharLoreBinding { name: "Villain".to_string(), extra_books: strs(&["v1"]) },
        CharLoreBinding { name: "Hero".to_string(), extra_books: strs(&["b3"]) },
    ];
    assert_eq!(
        character_lore_ids(Some("w".to_string()), "Hero", &bindings, &strs(&["b2"])),
        strs(&["w", "b1", "b3"])
    );
    assert_eq!(character_lore_ids(None, "Villain", &bindings, &Vec::new()), strs(&["v1"]));
    assert!(character_lore_ids(None, "Nobody", &bindings, &Vec::new()).is_empty());
}

#[test]
fn plan_takes_chat_then_global_then_character_each_once() {
    let plan = world_info_plan(
        &None,
        &strs(&["c1", "c2"]),
        &Some("ignored".to_string()),
        &strs(&["c2", "g2"]),
        &strs(&["g1", "c1", "g2"]),
        &strs(&["g1", "k1", "c2"]),
    );
    assert_eq!(
        plan,
        vec![
            (WorldInfoSourceKind::ChatLore, "c1".to_string()),
            (WorldInfoSourceKind::GlobalLore, "g1".to_string()),
            (WorldInfoSourceKind::CharacterLore, "k1".to_string()),
            (WorldInfoSourceKind::CharacterLore, "c2".to_string()),
        ]
    );
}

#[test]
fn plan_prefers_the_requested_chat_worldbook() {
    let plan = world_info_plan(&Some("r".to_string()), &strs(&["e"]), &Some("w".to_string()), &Vec::new(), &Vec::new(), &Vec::new());
    assert_eq!(plan, vec![(WorldInfoSourceKind::ChatLore, "r".to_string())]);
    let plan = world_info_plan(&None, &Vec::new(), &Some("w".to_string()), &Vec::new(), &Vec::new(), &Vec::new());
    assert_eq!(plan, vec![(WorldInfoSourceKind::ChatLore, "w".to_string())]);
    let plan = world_info_plan(&None, &Vec::new(), &None, &Vec::new(), &Vec::new(), &Vec::new());
    assert!(plan.is_empty());
}

#[test]
fn worldbook_files_lose_one_json_suffix() {
    assert_eq!(lore_file_id("lore-1.json"), Some("lore-1".to_string()));
    assert_eq!(lore_file_id("a.json.json"), Some("a.json".to_string()));
    assert_eq!(lore_file_id("notes.txt"), None);
}

#[test]
fn persona_text_joins_name_and_description() {
    assert_eq!(persona_scan_text(&None), "");
    let p = |n: &str, d: &str| Some(UserPersona { name: n.to_string(), description: d.to_string() });
    assert_eq!(persona_scan_text(&p("  ", " ")), "");
    assert_eq!(persona_scan_text(&p(" Ann ", "")), "Ann");
    assert_eq!(persona_scan_text(&p("", " a mage ")), "a mage");
    assert_eq!(persona_scan_text(&p("Ann", "a mage")), "Ann\na mage");
}

#[test]
fn selected_global_lorebooks_are_added_once() {
    let merged = merge_global_lore_ids(&strs(&["a", "b"]), &strs(&["b", "c", "c", "d"]));
    assert_eq!(merged, strs(&["a", "b", "c", "d"]));
    assert_eq!(merge_global_lore_ids(&[], &strs(&["x"])), strs(&["x"]));
}

#[test]
fn positive_preset_token_limit_wins() {
    assert_eq!(preset_max_tokens(Some(100), Some(300)), Some(300));
    assert_eq!(preset_max_tokens(Some(100), Some(0)), Some(100));
    assert_eq!(preset_max_tokens(None, None), None);
}
