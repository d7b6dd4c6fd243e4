use smart_tavern::json::JsonValue;
use smart_tavern::worldbook_refs::{
    character_lore_check, lore_id_of_file, scrub_chat, scrub_global_state, unbind_character_world,
    CharacterLoreCheck,
};

fn s(x: &str) -> JsonValue {
    JsonValue::String(x.to_string())
}

fn arr(items: Vec<JsonValue>) -> JsonValue {
    JsonValue::Array(items)
}

fn obj(members: Vec<(&str, JsonValue)>) -> JsonValue {
    JsonValue::Object(members.into_iter().map(|(k, v)| (k.to_string(), v)).collect())
}

fn get<'a>(v: &'a JsonValue, key: &str) -> &'a JsonValue {
    match v {
        JsonValue::Object(m) => &m.iter().find(|(k, _)| k == key).expect("member").1,
        _ => panic!("not an object"),
    }
}

fn has(v: &JsonValue, key: &str) -> bool {
    match v {
        JsonValue::Object(m) => m.iter().any(|(k, _)| k == key),
        _ => false,
    }
}

fn strings(v: &JsonValue) -> Vec<String> {
    match v {
        JsonValue::Array(items) => items
            .iter()
            .map(|x| match x {
                JsonValue::String(t) => t.clone(),
                _ => panic!("not a string"),
            })
            .collect(),
        _ => panic!("not an array"),
    }
}

fn first(v: &JsonValue) -> &JsonValue {
    match v {
        JsonValue::Array(items) => &items[0],
        _ => panic!("not an array"),
    }
}

fn global_state() -> JsonValue {
    obj(vec![(
        "world_info_settings",
        obj(vec![
            ("global_select", arr(vec![s("lore-a"), s("lore-b")])),
            ("char_lore", arr(vec![obj(vec![("name", s("Hero")), ("extra_books", arr(vec![s("lore-a"), s("lore-c")]))])])),
        ]),
    )])
}

fn session() -> JsonValue {
    obj(vec![
        ("id", s("session-1")),
        ("name", s("Test")),
        ("created_at", s("")),
        ("updated_at", s("")),
        (
            "chat_metadata",
            obj(vec![("world_info", s("lore-a")), ("disabled_world_info", arr(vec![s("lore-a"), s("lore-z")]))]),
        ),
        ("messages", arr(vec![])),
    ])
}

#[test]
fn deleting_worldbook_cleans_global_and_chat_references() {
    let (global_state, global_changed) = scrub_global_state(global_state(), "lore-a");
    assert!(global_changed);
    let settings = get(&global_state, "world_info_settings");
    assert_eq!(strings(get(settings, "global_select")), vec!["lore-b"]);
    assert_eq!(strings(get(first(get(settings, "char_lore")), "extra_books")), vec!["lore-c"]);

    let (chat, chat_changed) = scrub_chat(session(), "lore-a");
    assert!(chat_changed);
    let meta = get(&chat, "chat_metadata");
    assert!(matches!(get(meta, "world_info"), JsonValue::Null));
    assert_eq!(strings(get(meta, "disabled_world_info")), vec!["lore-z"]);
}

#[test]
fn cleaning_twice_changes_nothing_more() {
    let (once, _) = scrub_global_state(global_state(), "lore-a");
    let (twice, changed) = scrub_global_state(once, "lore-a");
    assert!(!changed);
    let settings = get(&twice, "world_info_settings");
    assert_eq!(strings(get(settings, "global_select")), vec!["lore-b"]);
    let (chat, _) = scrub_chat(session(), "lore-a");
    let (_, changed) = scrub_chat(chat, "lore-a");
    assert!(!changed);
}

#[test]
fn states_without_the_worldbook_are_left_alone() {
    let (state, changed) = scrub_global_state(global_state(), "lore-x");
    assert!(!changed);
    let settings = get(&state, "world_info_settings");
    assert_eq!(strings(get(settings, "global_select")), vec!["lore-a", "lore-b"]);
    let (_, changed) = scrub_global_state(obj(vec![("other", s("x"))]), "lore-a");
    assert!(!changed);
    let (chat, changed) = scrub_chat(obj(vec![("chat_metadata", s("not an object"))]), "lore-a");
    assert!(!changed);
    assert!(matches!(get(&chat, "chat_metadata"), JsonValue::String(_)));
}

#[test]
fn only_the_chat_world_naming_the_worldbook_is_cleared() {
    let chat = obj(vec![("chat_metadata", obj(vec![("world_info", s("lore-b"))]))]);
    let (chat, changed) = scrub_chat(chat, "lore-a");
    assert!(!changed);
    assert!(matches!(get(get(&chat, "chat_metadata"), "world_info"), JsonValue::String(_)));
}

fn card(world: Option<&str>, lore: Option<&str>) -> JsonValue {
    let mut ext = vec![("talkativeness", s("0.5"))];
    if let Some(w) = world {
        ext.push(("world", s(w)));
    }
    if let Some(l) = lore {
        ext.push(("rst_world_lore_id", s(l)));
    }
    obj(vec![("spec", s("chara_card_v3")), ("data", obj(vec![("name", s("Hero")), ("extensions", obj(ext))]))])
}

#[test]
fn character_cards_are_checked_by_binding() {
    assert_eq!(character_lore_check(&card(None, Some("lore-a")), "lore-a"), CharacterLoreCheck::Skip);
    assert_eq!(character_lore_check(&card(Some("Realm"), Some("lore-a")), "lore-a"), CharacterLoreCheck::Unbind);
    assert_eq!(
        character_lore_check(&card(Some("Realm"), Some("lore-b")), "lore-a"),
        CharacterLoreCheck::LookUpWorld("Realm".to_string())
    );
    assert_eq!(
        character_lore_check(&card(Some("Realm"), None), "lore-a"),
        CharacterLoreCheck::LookUpWorld("Realm".to_string())
    );
    assert_eq!(character_lore_check(&s("not a card"), "lore-a"), CharacterLoreCheck::Skip);
}

#[test]
fn unbinding_removes_the_world_binding() {
    let (c, changed) = unbind_character_world(card(Some("Realm"), Some("lore-a")));
    assert!(changed);
    let ext = get(get(&c, "data"), "extensions");
    assert!(!has(ext, "world"));
    assert!(!has(ext, "rst_world_lore_id"));
    assert!(has(ext, "talkativeness"));
    let (_, changed) = unbind_character_world(obj(vec![("data", obj(vec![]))]));
    assert!(!changed);
}

#[test]
fn worldbook_ids_drop_every_json_suffix() {
    assert_eq!(lore_id_of_file("lore-a.json"), "lore-a");
    assert_eq!(lore_id_of_file("lore-a.json.json"), "lore-a");
    assert_eq!(lore_id_of_file("lore-a"), "lore-a");
    assert_eq!(lore_id_of_file(".json"), "");
    assert_eq!(lore_id_of_file("a.JSON"), "a.JSON");
}
