use smart_tavern::json::JsonValue;
use smart_tavern::preset_names::{
    active_preset_of, check_preset_deletable, check_preset_name, check_preset_savable, default_preset_name,
    legacy_active_preset_name, preset_list_item, resolve_active_preset_name, saved_active_preset, sort_presets,
    PresetListItem,
};

fn obj(members: Vec<(&str, JsonValue)>) -> JsonValue {
    JsonValue::Object(members.into_iter().map(|(k, v)| (k.to_string(), v)).collect())
}

fn s(x: &str) -> JsonValue {
    JsonValue::String(x.to_string())
}

#[test]
fn global_state_without_active_preset_falls_back_to_default_or_legacy_name() {
    let state = obj(vec![
        ("active_api_config_id", JsonValue::Null),
        ("active_prompt_preset", s("Legacy Prompt")),
        ("auto_select_preset", JsonValue::Bool(false)),
        ("world_info_settings", obj(vec![])),
        ("regex_settings", obj(vec![])),
    ]);
    assert_eq!(active_preset_of(&state, ""), "Legacy Prompt");
    assert_eq!(active_preset_of(&obj(vec![]), ""), "Default");
}

#[test]
fn stored_active_preset_is_kept_unless_blank() {
    let state = obj(vec![("active_preset", s("Mine")), ("active_prompt_preset", s("Old"))]);
    assert_eq!(active_preset_of(&state, "Mine"), "Mine");
    let blank = obj(vec![("active_preset", s("  ")), ("active_sampler_preset", s(" Old "))]);
    assert_eq!(active_preset_of(&blank, "  "), "Old");
}

#[test]
fn legacy_names_are_consulted_in_order() {
    let state = obj(vec![
        ("active_reasoning_preset", s("R")),
        ("active_prompt_preset", s("   ")),
        ("active_context_preset", s("C")),
    ]);
    assert_eq!(legacy_active_preset_name(&state), Some("C".to_string()));
    assert_eq!(legacy_active_preset_name(&obj(vec![("active_prompt_preset", JsonValue::Null)])), None);
}

#[test]
fn active_preset_resolution() {
    assert_eq!(default_preset_name(), "Default");
    assert_eq!(resolve_active_preset_name(Some(" Pick "), "Active"), Some("Pick".to_string()));
    assert_eq!(resolve_active_preset_name(Some("  "), " Active "), Some("Active".to_string()));
    assert_eq!(resolve_active_preset_name(None, ""), Some("Default".to_string()));
}

#[test]
fn preset_names_that_can_be_set_saved_and_deleted() {
    assert_eq!(saved_active_preset(""), "Default");
    assert_eq!(saved_active_preset(" Mine "), " Mine ");
    assert_eq!(check_preset_name("  "), Err("Preset name must not be empty".to_string()));
    assert_eq!(check_preset_name(" Mine "), Ok("Mine".to_string()));
    assert_eq!(check_preset_savable(""), Err("Preset must have a name".to_string()));
    assert!(check_preset_savable("x").is_ok());
    assert_eq!(check_preset_deletable("Default"), Err("Default preset cannot be deleted".to_string()));
    assert!(check_preset_deletable("Mine").is_ok());
}

#[test]
fn presets_are_listed_by_name() {
    let item = |f: &str| preset_list_item(f, None);
    assert!(item("readme.txt").is_none());
    let items: Vec<PresetListItem> = ["b.json", "Default.json", "a.json"].iter().filter_map(|f| item(f)).collect();
    let sorted: Vec<String> = sort_presets(items).into_iter().map(|p| p.name).collect();
    assert_eq!(sorted, vec!["Default", "a", "b"]);
    let with_api = preset_list_item("x.json", Some("api-1".to_string())).unwrap();
    assert_eq!(with_api.source_api_id, Some("api-1".to_string()));
}
