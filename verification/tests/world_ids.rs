use smart_tavern::world_ids::{
    allocate_world_id, slugify_world_name, validate_path_component, MAX_WORLD_ID_ATTEMPTS,
};

#[test]
fn rejects_world_id_with_parent_traversal() {
    let error = validate_path_component("..").expect_err("parent traversal should fail");
    assert!(error.contains("Invalid"));
}

#[test]
fn rejects_world_id_with_path_separator_payload() {
    let error =
        validate_path_component("world/name").expect_err("separator payload should fail");
    assert!(error.contains("Invalid path component"));
}

#[test]
fn slugifies_world_name_into_safe_id_suffix() {
    assert_eq!(slugify_world_name("My First World"), "my_first_world");
    assert_eq!(slugify_world_name("仙侠 测试"), "");
    assert_eq!(slugify_world_name("world!!!demo"), "worlddemo");
}

#[test]
fn allocates_incremental_world_ids_when_collision_exists() {
    let existing = vec!["world_demo".to_string(), "world_demo_2".to_string()];
    let world_id = allocate_world_id("Demo", &existing).expect("world id");
    assert_eq!(world_id, "world_demo_3");
}

#[test]
fn path_component_accepts_plain_names_and_rejects_empty_and_dot() {
    assert!(validate_path_component("world_demo").is_ok());
    assert!(validate_path_component("..x").is_ok());
    assert_eq!(
        validate_path_component("").unwrap_err(),
        "Invalid path component: "
    );
    assert!(validate_path_component(".").is_err());
    assert!(validate_path_component("a\\b").is_err());
}

#[test]
fn slug_collapses_separators_and_trims_underscores() {
    assert_eq!(slugify_world_name("  --Hello__World--  "), "hello_world");
    assert_eq!(slugify_world_name("A-B c"), "a_b_c");
    assert_eq!(slugify_world_name("!!!"), "");
}

#[test]
fn allocation_uses_plain_world_for_empty_slug() {
    assert_eq!(allocate_world_id("???", &[]).unwrap(), "world");
    let taken = vec!["world".to_string()];
    assert_eq!(allocate_world_id("", &taken).unwrap(), "world_2");
}

#[test]
fn allocation_fails_when_every_candidate_is_taken() {
    let mut existing = vec!["world_dup".to_string()];
    for n in 2..MAX_WORLD_ID_ATTEMPTS {
        existing.push(format!("world_dup_{}", n));
    }
    assert_eq!(
        allocate_world_id("Dup", &existing),
        Err("Failed to allocate a unique world_id".to_string())
    );
    existing.pop();
    assert_eq!(allocate_world_id("Dup", &existing), Ok("world_dup_9999".to_string()));
}

#[test]
fn slugs_are_stable_and_only_safe_characters() {
    for name in ["  Hello,  World!! ", "__a--b__", "Ünïcode Name", "x_1 Y_2", "ABC"] {
        let slug = slugify_world_name(name);
        assert_eq!(slugify_world_name(&slug), slug);
        assert!(slug.chars().all(|c| c.is_ascii_lowercase() || c.is_ascii_digit() || c == '_'));
        assert!(!slug.starts_with('_') && !slug.ends_with('_') && !slug.contains("__"));
    }
    assert_eq!(slugify_world_name("!!! ... ???"), "");
    assert_eq!(slugify_world_name("Hello, World").replace('_', ""), "helloworld");
}

#[test]
fn allocated_ids_are_safe_path_components() {
    let existing = vec!["world_a_b".to_string()];
    for name in ["a/b", "..", "a\\b", "", "A B"] {
        let id = allocate_world_id(name, &existing).unwrap();
        assert!(validate_path_component(&id).is_ok(), "{}", id);
    }
    assert_eq!(allocate_world_id("A B", &existing), Ok("world_a_b_2".to_string()));
}
