use smart_tavern::chat_content::{ChatMessage, ChatRole, ContentPart, ImageUrl};
use smart_tavern::file_upload::FileRef;
use smart_tavern::json::{json_eq, json_get, JsonNumber, JsonValue};
use smart_tavern::provider_bodies::{
    anthropic_request_body, gemini_request_body, openai_chat_request_body,
    openai_responses_request_body,
};

fn text(s: &str) -> JsonValue {
    JsonValue::String(s.to_string())
}

fn get<'a>(v: &'a JsonValue, key: &str) -> &'a JsonValue {
    json_get(v, key).expect("member")
}

fn items(v: &JsonValue) -> &Vec<JsonValue> {
    match v {
        JsonValue::Array(items) => items,
        _ => panic!("not an array"),
    }
}

fn message(role: ChatRole, parts: Vec<ContentPart>) -> ChatMessage {
    ChatMessage { role, content: parts, name: None }
}

fn part(s: &str) -> ContentPart {
    ContentPart::Text { text: s.to_string() }
}

#[test]
fn openai_chat_body_holds_only_what_is_asked() {
    let msgs = vec![
        message(ChatRole::Developer, vec![part("rules")]),
        message(ChatRole::User, vec![part("hi")]),
    ];
    let body = openai_chat_request_body("gpt-4o", &msgs, None, &vec![], false, None);
    assert!(json_eq(get(&body, "model"), &text("gpt-4o")));
    let m = items(get(&body, "messages"));
    assert_eq!(m.len(), 2);
    assert!(json_eq(get(&m[0], "role"), &text("developer")));
    assert!(json_eq(get(&m[1], "content"), &text("hi")));
    for key in ["max_tokens", "stop", "stream", "response_format"] {
        assert!(json_get(&body, key).is_none());
    }
}

#[test]
fn openai_chat_body_adds_limits_stops_stream_and_schema() {
    let msgs = vec![message(ChatRole::Tool, vec![part("result")])];
    let schema = JsonValue::Object(vec![("type".to_string(), text("object"))]);
    let body = openai_chat_request_body(
        "m",
        &msgs,
        Some(64),
        &vec!["END".to_string()],
        true,
        Some(schema),
    );
    assert!(matches!(get(&body, "max_tokens"), JsonValue::Number(JsonNumber::PosInt(64))));
    assert!(json_eq(get(&body, "stop"), &JsonValue::Array(vec![text("END")])));
    assert!(matches!(get(&body, "stream"), JsonValue::Bool(true)));
    let format = get(&body, "response_format");
    assert!(json_eq(get(format, "type"), &text("json_schema")));
    let js = get(format, "json_schema");
    assert!(json_eq(get(js, "name"), &text("response")));
    assert!(matches!(get(js, "strict"), JsonValue::Bool(true)));
    assert!(json_eq(get(get(js, "schema"), "type"), &text("object")));
    assert!(json_eq(get(&items(get(&body, "messages"))[0], "role"), &text("tool")));
}

#[test]
fn anthropic_body_separates_system_text() {
    let msgs = vec![
        message(ChatRole::System, vec![part("first"), part("ignored")]),
        message(ChatRole::System, vec![ContentPart::ImageRef { image_url: ImageUrl { url: "x".to_string() } }]),
        message(ChatRole::System, vec![part("second")]),
        message(ChatRole::User, vec![part("hello")]),
        message(ChatRole::Developer, vec![part("dev")]),
        message(ChatRole::Assistant, vec![part("hi")]),
    ];
    let body = anthropic_request_body("model-x", None, &msgs, None);
    assert!(json_eq(get(&body, "system"), &text("first\nsecond")));
    assert!(matches!(get(&body, "max_tokens"), JsonValue::Number(JsonNumber::PosInt(4096))));
    let turns = items(get(&body, "messages"));
    assert_eq!(turns.len(), 3);
    assert!(json_eq(get(&turns[0], "role"), &text("user")));
    assert!(json_eq(get(&turns[1], "role"), &text("user")));
    assert!(json_eq(get(&turns[2], "role"), &text("assistant")));
    assert!(json_get(&body, "tools").is_none());
}

#[test]
fn anthropic_body_without_system_text_has_no_system() {
    let body = anthropic_request_body("m", Some(10), &[message(ChatRole::User, vec![part("q")])], None);
    assert!(json_get(&body, "system").is_none());
    let schema = JsonValue::Object(vec![]);
    let body = anthropic_request_body("m", Some(10), &[], Some(schema));
    let tool = &items(get(&body, "tools"))[0];
    assert!(json_eq(get(tool, "name"), &text("structured_output")));
    assert!(json_eq(get(tool, "description"), &text("Return structured JSON output")));
}

#[test]
fn anthropic_documents_go_by_file_id_or_inline() {
    let uploaded = FileRef {
        attachment_id: None,
        file_id: Some("file_9".to_string()),
        file_uri: None,
        file_data: Some("ignored".to_string()),
        filename: None,
        mime_type: None,
    };
    let inline = FileRef { file_id: None, ..uploaded.clone() };
    let msgs = vec![message(
        ChatRole::User,
        vec![
            ContentPart::FileRef { file: uploaded },
            ContentPart::FileRef { file: inline },
            ContentPart::ImageRef {
                image_url: ImageUrl { url: "data:image/png;base64,QQ==".to_string() },
            },
        ],
    )];
    let body = anthropic_request_body("m", None, &msgs, None);
    let blocks = items(get(&items(get(&body, "messages"))[0], "content"));
    let s0 = get(&blocks[0], "source");
    assert!(json_eq(get(s0, "type"), &text("file")));
    assert!(json_eq(get(s0, "file_id"), &text("file_9")));
    let s1 = get(&blocks[1], "source");
    assert!(json_eq(get(s1, "media_type"), &text("application/pdf")));
    assert!(json_eq(get(s1, "data"), &text("ignored")));
    let s2 = get(&blocks[2], "source");
    assert!(json_eq(get(s2, "media_type"), &text("image/png")));
    assert!(json_eq(get(s2, "data"), &text("QQ==")));
}

#[test]
fn responses_body_drops_tool_results_and_adds_options() {
    let msgs = vec![message(
        ChatRole::User,
        vec![
            part("see"),
            ContentPart::ToolResult { tool_call_id: "c".to_string(), content: "x".to_string() },
            ContentPart::ImageRef { image_url: ImageUrl { url: "https://img".to_string() } },
        ],
    )];
    let body = openai_responses_request_body("gpt-4o", &msgs, Some(99), true, Some(JsonValue::Bool(true)));
    let input = items(get(&body, "input"));
    let content = items(get(&input[0], "content"));
    assert_eq!(content.len(), 2);
    assert!(json_eq(get(&content[0], "type"), &text("input_text")));
    assert!(json_eq(get(&content[1], "type"), &text("input_image")));
    assert!(json_eq(get(&content[1], "detail"), &text("auto")));
    let format = get(get(&body, "text"), "format");
    assert!(json_eq(get(format, "type"), &text("json_schema")));
    assert!(matches!(get(format, "strict"), JsonValue::Bool(true)));
    assert!(matches!(get(&body, "max_output_tokens"), JsonValue::Number(JsonNumber::PosInt(99))));
    assert!(matches!(get(&body, "stream"), JsonValue::Bool(true)));
    let plain = openai_responses_request_body("gpt-4o", &msgs, None, false, None);
    for key in ["text", "max_output_tokens", "stream"] {
        assert!(json_get(&plain, key).is_none());
    }
}

#[test]
fn gemini_body_has_contents_instruction_and_config() {
    let uploaded = FileRef {
        attachment_id: None,
        file_id: None,
        file_uri: Some("files/abc".to_string()),
        file_data: None,
        filename: None,
        mime_type: Some("application/pdf".to_string()),
    };
    let msgs = vec![
        message(ChatRole::System, vec![part("be brief")]),
        message(ChatRole::User, vec![part("q"), ContentPart::FileRef { file: uploaded }]),
        message(ChatRole::Assistant, vec![part("a")]),
    ];
    let body = gemini_request_body(&msgs, Some(0), Some(256), &vec!["STOP".to_string()], None);
    let contents = items(get(&body, "contents"));
    assert_eq!(contents.len(), 2);
    assert!(json_eq(get(&contents[1], "role"), &text("model")));
    let parts = items(get(&contents[0], "parts"));
    assert!(json_eq(get(&parts[0], "text"), &text("q")));
    assert!(json_eq(get(get(&parts[1], "file_data"), "file_uri"), &text("files/abc")));
    let instruction = get(&body, "systemInstruction");
    assert!(json_eq(get(&items(get(instruction, "parts"))[0], "text"), &text("be brief")));
    let config = get(&body, "generationConfig");
    assert!(matches!(get(config, "topK"), JsonValue::Number(JsonNumber::PosInt(0))));
    assert!(matches!(get(config, "maxOutputTokens"), JsonValue::Number(JsonNumber::PosInt(256))));
    assert!(json_eq(get(config, "stopSequences"), &JsonValue::Array(vec![text("STOP")])));
    assert!(json_get(config, "responseSchema").is_none());
}

#[test]
fn gemini_config_is_always_present() {
    let body = gemini_request_body(&[], None, None, &vec![], Some(JsonValue::Null));
    assert!(json_get(&body, "systemInstruction").is_none());
    let config = get(&body, "generationConfig");
    assert!(matches!(get(config, "responseSchema"), JsonValue::Null));
    assert!(json_eq(get(config, "responseMimeType"), &text("application/json")));
    let empty = gemini_request_body(&[], None, None, &vec![], None);
    assert!(json_eq(get(&empty, "generationConfig"), &JsonValue::Object(vec![])));
}
