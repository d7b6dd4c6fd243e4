use smart_tavern::chat_content::{
    claude_code_content_blocks, claude_code_messages_url, claude_code_request_body,
    openai_chat_message_content, ChatMessage, ChatRole, ContentPart, ImageUrl,
};
use smart_tavern::file_upload::FileRef;
use smart_tavern::json::{json_eq, json_get, JsonNumber, JsonValue};

fn text(s: &str) -> JsonValue {
    JsonValue::String(s.to_string())
}

fn object(members: Vec<(&str, JsonValue)>) -> JsonValue {
    JsonValue::Object(members.into_iter().map(|(k, v)| (k.to_string(), v)).collect())
}

fn get<'a>(v: &'a JsonValue, key: &str) -> &'a JsonValue {
    json_get(v, key).expect("member")
}

fn item(v: &JsonValue, i: usize) -> &JsonValue {
    match v {
        JsonValue::Array(items) => &items[i],
        _ => panic!("not an array"),
    }
}

fn is_text(v: &JsonValue, s: &str) -> bool {
    matches!(v, JsonValue::String(x) if x == s)
}

fn part(s: &str) -> ContentPart {
    ContentPart::Text { text: s.to_string() }
}

#[test]
fn pure_text_messages_use_string_content_for_compatible_chat_apis() {
    let content = openai_chat_message_content(&[part("hello"), part("world")]);
    assert!(json_eq(&content, &text("hello\nworld")));
}

#[test]
fn multimodal_messages_keep_content_parts() {
    let content = openai_chat_message_content(&[
        part("look"),
        ContentPart::ImageRef {
            image_url: ImageUrl { url: "data:image/png;base64,abc".to_string() },
        },
    ]);
    assert!(matches!(content, JsonValue::Array(_)));
}

#[test]
fn openai_parts_carry_their_fields() {
    let file = FileRef {
        attachment_id: None,
        file_id: Some("file_1".to_string()),
        file_uri: None,
        file_data: None,
        filename: Some("a.pdf".to_string()),
        mime_type: None,
    };
    let content = openai_chat_message_content(&[ContentPart::FileRef { file }]);
    let first = item(&content, 0);
    assert!(is_text(get(first, "type"), "file"));
    let f = get(first, "file");
    assert!(is_text(get(f, "file_id"), "file_1"));
    assert!(matches!(get(f, "file_data"), JsonValue::Null));
    assert!(is_text(get(f, "filename"), "a.pdf"));
    assert!(json_eq(&openai_chat_message_content(&[]), &text("")));
}

#[test]
fn claude_code_appends_v1_messages_to_anthropic_client_base_url() {
    assert_eq!(
        claude_code_messages_url("https://maas-coding-api.cn-huabei-1.xf-yun.com/anthropic"),
        "https://maas-coding-api.cn-huabei-1.xf-yun.com/anthropic/v1/messages"
    );
    assert_eq!(
        claude_code_messages_url("https://example.test/anthropic/v1"),
        "https://example.test/anthropic/v1/messages"
    );
}

#[test]
fn claude_code_base_url_loses_trailing_slashes() {
    assert_eq!(claude_code_messages_url("http://localhost:8080//"), "http://localhost:8080/v1/messages");
    assert_eq!(claude_code_messages_url("http://h/v1/"), "http://h/v1/messages");
}

fn message(role: ChatRole, s: &str) -> ChatMessage {
    ChatMessage { role, content: vec![part(s)], name: None }
}

fn conversation() -> Vec<ChatMessage> {
    vec![
        message(ChatRole::System, "system prompt"),
        message(ChatRole::User, "hello"),
        message(ChatRole::Assistant, "hi"),
    ]
}

#[test]
fn claude_code_uses_anthropic_messages_shape() {
    let body = claude_code_request_body("astron-code-latest", "req-1", Some(128), &conversation(), None);
    assert!(is_text(get(&body, "model"), "astron-code-latest"));
    assert!(matches!(get(&body, "max_tokens"), JsonValue::Number(JsonNumber::PosInt(128))));
    assert!(json_eq(
        get(&body, "system"),
        &JsonValue::Array(vec![object(vec![("type", text("text")), ("text", text("system prompt"))])])
    ));
    let messages = get(&body, "messages");
    assert!(is_text(get(item(messages, 0), "role"), "user"));
    assert!(is_text(get(item(get(item(messages, 0), "content"), 0), "type"), "text"));
    assert!(is_text(get(item(messages, 1), "role"), "assistant"));
    assert!(json_get(&body, "top_p").is_none());
    assert!(json_get(&body, "stop_sequences").is_none());
    match messages {
        JsonValue::Array(items) => {
            assert_eq!(items.len(), 2);
            assert!(items.iter().all(|m| !is_text(get(m, "role"), "system")));
        }
        _ => panic!("messages"),
    }
    assert!(is_text(
        get(get(&body, "metadata"), "user_id"),
        "{\"device_id\":\"rst-local\",\"account_uuid\":\"\",\"session_id\":\"req-1\"}"
    ));
}

#[test]
fn claude_code_structured_output_uses_tool_schema() {
    let schema = object(vec![
        ("type", text("object")),
        (
            "properties",
            object(vec![("answer", object(vec![("type", text("string"))]))]),
        ),
        ("required", JsonValue::Array(vec![text("answer")])),
    ]);
    let body = claude_code_request_body("astron-code-latest", "req-1", Some(128), &conversation(), Some(schema));
    assert!(json_get(&body, "response_format").is_none());
    assert!(is_text(get(item(get(&body, "tools"), 0), "name"), "structured_output"));
    assert!(json_eq(
        get(&body, "tool_choice"),
        &object(vec![("type", text("tool")), ("name", text("structured_output"))])
    ));
}

#[test]
fn claude_code_defaults_and_blocks() {
    let body = claude_code_request_body("m", "r", None, &[message(ChatRole::Developer, "")], None);
    assert!(matches!(get(&body, "max_tokens"), JsonValue::Number(JsonNumber::PosInt(4096))));
    assert!(json_eq(get(&body, "system"), &JsonValue::Array(vec![])));
    let blocks = claude_code_content_blocks(&[ContentPart::ImageRef {
        image_url: ImageUrl { url: "data:image/gif;base64,R0lG".to_string() },
    }]);
    let source = get(item(&blocks, 0), "source");
    assert!(is_text(get(source, "media_type"), "image/gif"));
    assert!(is_text(get(source, "data"), "R0lG"));
    let tool = claude_code_content_blocks(&[ContentPart::ToolResult {
        tool_call_id: "call_1".to_string(),
        content: "done".to_string(),
    }]);
    assert!(is_text(get(item(&tool, 0), "tool_use_id"), "call_1"));
}
