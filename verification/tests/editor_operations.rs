use smart_tavern::editor_operations::{
    extract_world_rules_yaml, frontend_location_fields, route_operation,
    FrontendWorldEditorOperation, OperationRoute,
};
use smart_tavern::json::{json_eq, JsonValue};
use smart_tavern::world_model::{LocationLevel, LocationStatus};

fn op(kind: &str) -> FrontendWorldEditorOperation {
    FrontendWorldEditorOperation {
        kind: kind.to_string(),
        payload: None,
        location_id: None,
        knowledge_id: None,
        character_id: None,
        relation_id: None,
        state_record_id: None,
        normalized_alias: None,
    }
}

fn text(s: &str) -> JsonValue {
    JsonValue::String(s.to_string())
}

fn object(members: Vec<(&str, JsonValue)>) -> JsonValue {
    JsonValue::Object(members.into_iter().map(|(k, v)| (k.to_string(), v)).collect())
}

#[test]
fn operations_route_by_kind() {
    let mut upsert = op("UpsertLocationNode");
    upsert.payload = Some(object(vec![]));
    assert!(matches!(route_operation(&upsert), Ok(OperationRoute::UpsertLocation(_))));

    let mut delete = op("DeleteKnowledgeEntry");
    delete.knowledge_id = Some("k1".to_string());
    match route_operation(&delete) {
        Ok(OperationRoute::DeleteKnowledge(id)) => assert_eq!(id, "k1"),
        other => panic!("unexpected {other:?}"),
    }
    assert!(matches!(route_operation(&op("UpsertWorldRules")), Ok(OperationRoute::WorldRules)));
}

#[test]
fn operations_without_their_data_are_refused() {
    assert_eq!(
        route_operation(&op("UpsertKnowledgeEntry")).unwrap_err(),
        "UpsertKnowledgeEntry 缺少 payload"
    );
    assert_eq!(
        route_operation(&op("DeleteCharacterRecord")).unwrap_err(),
        "DeleteCharacterRecord 缺少 character_id"
    );
    assert_eq!(
        route_operation(&op("DeleteLocationNode")).unwrap_err(),
        "DeleteLocationNode 缺少 location_id"
    );
    assert_eq!(
        route_operation(&op("RenameWorld")).unwrap_err(),
        "暂不支持的 World Editor 操作: RenameWorld"
    );
}

#[test]
fn the_last_world_rules_win() {
    let mut first = op("UpsertWorldRules");
    first.payload = Some(text("a: 1"));
    let mut second = op("UpsertWorldRules");
    second.payload = Some(text("a: 2"));
    let ops = vec![first, op("DeleteLocationNode"), second];
    assert_eq!(extract_world_rules_yaml(&ops), Ok(Some("a: 2".to_string())));
    assert_eq!(extract_world_rules_yaml(&vec![]), Ok(None));
    let ops = vec![op("UpsertWorldRules")];
    assert_eq!(
        extract_world_rules_yaml(&ops),
        Err("UpsertWorldRules payload 必须是 YAML 字符串".to_string())
    );
}

fn location_payload(extra: Vec<(&str, JsonValue)>) -> JsonValue {
    let mut members = vec![
        ("location_id", text("loc_1")),
        ("name", text("Harbor")),
        ("canonical_level", text("Settlement")),
        ("status", text("active")),
    ];
    members.extend(extra);
    object(members)
}

#[test]
fn location_fields_take_defaults() {
    let fields = frontend_location_fields(&location_payload(vec![])).expect("fields");
    assert_eq!(fields.location_id, "loc_1");
    assert_eq!(fields.canonical_level, LocationLevel::Settlement);
    assert_eq!(fields.status, LocationStatus::Active);
    assert_eq!(fields.type_label, "Settlement");
    assert_eq!(fields.schema_version, "0.1");
    assert_eq!(fields.parent_id, None);
    assert!(json_eq(&fields.tags, &JsonValue::Array(vec![])));
    assert!(json_eq(&fields.metadata, &object(vec![])));
    assert!(json_eq(&fields.aliases, &JsonValue::Array(vec![])));
}

#[test]
fn location_fields_keep_what_is_given() {
    let fields = frontend_location_fields(&location_payload(vec![
        ("type_label", text("port")),
        ("parent_id", text("loc_0")),
        ("polity_id", JsonValue::Null),
        ("created_at", text("2024-05-01T10:00:00Z")),
    ]))
    .expect("fields");
    assert_eq!(fields.type_label, "port");
    assert_eq!(fields.parent_id, Some("loc_0".to_string()));
    assert_eq!(fields.polity_id, None);
    assert_eq!(fields.created_at, Some("2024-05-01T10:00:00Z".to_string()));
}

#[test]
fn location_payload_errors_come_in_order() {
    assert_eq!(
        frontend_location_fields(&text("x")).unwrap_err(),
        "Invalid LocationNode payload: expected object"
    );
    assert_eq!(
        frontend_location_fields(&object(vec![("name", text("n"))])).unwrap_err(),
        "Location payload missing string field 'location_id'"
    );
    let mut bad_level = location_payload(vec![]);
    if let JsonValue::Object(m) = &mut bad_level {
        m[2].1 = text("settlement");
    }
    assert_eq!(
        frontend_location_fields(&bad_level).unwrap_err(),
        "Invalid location level: settlement"
    );
    assert_eq!(
        frontend_location_fields(&location_payload(vec![("parent_id", JsonValue::Bool(true))]))
            .unwrap_err(),
        "Location payload field 'parent_id' must be string or null"
    );
}

#[test]
fn bad_timestamps_are_refused() {
    let err = frontend_location_fields(&location_payload(vec![("updated_at", text("yesterday"))]))
        .unwrap_err();
    let head = "Invalid RFC3339 timestamp 'yesterday': ";
    assert!(err.starts_with(head));
    assert!(err.len() > head.len());
}
