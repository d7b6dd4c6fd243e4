use smart_tavern::json::{json_eq, JsonValue};
use smart_tavern::preset_merge::{
    builtin_prompt_preset, filter_builtin_items_for_save, merge_builtin_prompt_items,
    merge_with_builtin_preset, PresetTexts, PromptItem, PromptOrder, PromptOrderItem, PromptPreset,
};

fn prompt(id: &str, content: &str) -> PromptItem {
    PromptItem {
        identifier: id.to_string(),
        body: JsonValue::Object(vec![("content".to_string(), JsonValue::String(content.to_string()))]),
    }
}

fn item(id: &str, enabled: bool) -> PromptOrderItem {
    PromptOrderItem { identifier: id.to_string(), enabled }
}

fn texts(all: &str) -> PresetTexts {
    PresetTexts {
        wi_format: all.to_string(),
        scenario_format: all.to_string(),
        personality_format: all.to_string(),
        impersonation_prompt: all.to_string(),
        new_chat_prompt: all.to_string(),
        new_group_chat_prompt: all.to_string(),
        new_example_chat_prompt: all.to_string(),
        continue_nudge_prompt: all.to_string(),
        group_nudge_prompt: all.to_string(),
    }
}

fn defaults() -> PromptPreset {
    PromptPreset {
        prompts: vec![prompt("main", "default main"), prompt("jailbreak", "default jb")],
        prompt_order: vec![
            PromptOrder { character_id: 100000, order: vec![item("main", true), item("jailbreak", true)] },
            PromptOrder { character_id: 100001, order: vec![item("main", true)] },
        ],
        texts: texts("{0}"),
    }
}

fn ids(p: &PromptPreset) -> Vec<String> {
    p.prompts.iter().map(|x| x.identifier.clone()).collect()
}

#[test]
fn empty_presets_take_the_builtin_entries() {
    let mut preset = PromptPreset { prompts: vec![], prompt_order: vec![], texts: texts("") };
    merge_builtin_prompt_items(&mut preset, &defaults());
    assert_eq!(ids(&preset), vec!["main", "jailbreak"]);
    assert_eq!(preset.prompt_order.len(), 2);
    assert_eq!(preset.texts.new_chat_prompt, "{0}");
    assert_eq!(preset.texts.group_nudge_prompt, "{0}");
}

#[test]
fn stored_entries_are_kept_and_missing_ones_added() {
    let mut preset = PromptPreset {
        prompts: vec![prompt("custom", "mine"), prompt("main", "my main")],
        prompt_order: vec![PromptOrder { character_id: 100001, order: vec![item("custom", true), item("main", false)] }],
        texts: texts("kept"),
    };
    preset.texts.wi_format = "  ".to_string();
    merge_builtin_prompt_items(&mut preset, &defaults());
    assert_eq!(ids(&preset), vec!["custom", "main", "jailbreak"]);
    assert!(json_eq(&preset.prompts[1].body, &prompt("main", "my main").body));
    let order = &preset.prompt_order[0].order;
    let order_ids: Vec<&str> = order.iter().map(|o| o.identifier.as_str()).collect();
    assert_eq!(order_ids, vec!["custom", "main"]);
    assert!(!order[1].enabled);
    assert_eq!(preset.texts.wi_format, "{0}");
    assert_eq!(preset.texts.scenario_format, "kept");
}

#[test]
fn orders_of_unknown_characters_follow_the_first_builtin_order() {
    let mut preset = PromptPreset {
        prompts: vec![prompt("main", "x")],
        prompt_order: vec![PromptOrder { character_id: 7, order: vec![item("jailbreak", false)] }],
        texts: texts("t"),
    };
    merge_builtin_prompt_items(&mut preset, &defaults());
    let order = &preset.prompt_order[0].order;
    assert_eq!(order.len(), 2);
    assert_eq!(order[0].identifier, "jailbreak");
    assert!(!order[0].enabled);
    assert_eq!(order[1].identifier, "main");
    assert!(order[1].enabled);
}

#[test]
fn merging_twice_changes_nothing() {
    let mut preset = PromptPreset {
        prompts: vec![prompt("custom", "mine")],
        prompt_order: vec![PromptOrder { character_id: 100000, order: vec![item("custom", true)] }],
        texts: texts(""),
    };
    merge_builtin_prompt_items(&mut preset, &defaults());
    let once_ids = ids(&preset);
    let once_order: Vec<(String, bool)> =
        preset.prompt_order[0].order.iter().map(|o| (o.identifier.clone(), o.enabled)).collect();
    merge_builtin_prompt_items(&mut preset, &defaults());
    assert_eq!(ids(&preset), once_ids);
    let twice_order: Vec<(String, bool)> =
        preset.prompt_order[0].order.iter().map(|o| (o.identifier.clone(), o.enabled)).collect();
    assert_eq!(twice_order, once_order);
    assert_eq!(preset.texts.wi_format, "{0}");
}

#[test]
fn builtin_preset_has_its_prompts_orders_and_texts() {
    let p = builtin_prompt_preset();
    assert_eq!(p.prompts.len(), 12);
    assert_eq!(p.prompts[0].identifier, "main");
    assert_eq!(p.prompts[11].identifier, "personaDescription");
    assert_eq!(p.prompt_order.len(), 2);
    assert_eq!(p.prompt_order[0].character_id, 100000);
    assert_eq!(p.prompt_order[0].order.len(), 12);
    assert_eq!(p.prompt_order[1].character_id, 100001);
    assert_eq!(p.prompt_order[1].order.len(), 11);
    let enhance = p.prompt_order[0].order.iter().find(|o| o.identifier == "enhanceDefinitions").unwrap();
    assert!(!enhance.enabled);
    assert_eq!(p.texts.wi_format, "{0}");
    assert_eq!(p.texts.new_chat_prompt, "[Start a new Chat]");
}

#[test]
fn empty_preset_takes_the_builtin_preset() {
    let mut preset = PromptPreset { prompts: vec![], prompt_order: vec![], texts: texts("") };
    merge_with_builtin_preset(&mut preset);
    assert_eq!(preset.prompts.len(), 12);
    assert_eq!(preset.prompt_order.len(), 2);
    assert_eq!(preset.texts.group_nudge_prompt, "[Write the next reply only as {{char}}.]");
}

#[test]
fn saving_keeps_only_the_users_own_prompts() {
    let preset = PromptPreset {
        prompts: vec![prompt("main", "edited"), prompt("my_prompt", "mine"), prompt("jailbreak", "x"), prompt("extra", "e")],
        prompt_order: vec![PromptOrder {
            character_id: 100000,
            order: vec![item("main", false), item("my_prompt", true), item("jailbreak", true)],
        }],
        texts: texts("kept"),
    };
    let saved = filter_builtin_items_for_save(preset);
    assert_eq!(ids(&saved), vec!["my_prompt".to_string(), "extra".to_string()]);
    assert_eq!(saved.prompt_order.len(), 1);
    let order: Vec<(String, bool)> =
        saved.prompt_order[0].order.iter().map(|o| (o.identifier.clone(), o.enabled)).collect();
    assert_eq!(
        order,
        vec![("main".to_string(), false), ("my_prompt".to_string(), true), ("jailbreak".to_string(), true)]
    );
    assert_eq!(saved.texts.wi_format, "kept");
}
