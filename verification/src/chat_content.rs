//! Chat messages and how the OpenAI chat and `claude_code` protocols write
//! them into a request body.

use vstd::prelude::*;
use crate::data_urls::{
    claude_image_base64_from_data_url, claude_image_mime_type_from_data_url, data_url_after_comma,
    data_url_mime_to_semicolon,
};
use crate::file_upload::FileRef;
use crate::json::{json_view, views, JsonNumber, JsonValue, JsonView};
use crate::text::{chars_to_string, ends_with, extend_chars, has_suffix, join_strings, join_with, str_chars, strings_view, sub_chars};

verus! {

/// Who speaks a message.
#[derive(Debug, Clone, Copy, PartialEq, Eq, Structural)]
pub enum ChatRole {
    System,
    Developer,
    User,
    Assistant,
    Tool,
}

/// An image, by its URL (often a data URL).
#[derive(Debug, Clone)]
pub struct ImageUrl {
    pub url: String,
}

/// One part of a message.
#[derive(Debug, Clone)]
pub enum ContentPart {
    Text { text: String },
    ImageRef { image_url: ImageUrl },
    FileRef { file: FileRef },
    ToolResult { tool_call_id: String, content: String },
}

/// A message of a chat request.
#[derive(Debug, Clone)]
pub struct ChatMessage {
    pub role: ChatRole,
    pub content: Vec<ContentPart>,
    pub name: Option<String>,
}

pub open spec fn s(x: Seq<char>) -> JsonView {
    JsonView::Str(x)
}

pub open spec fn opt_json(o: Option<String>) -> JsonView {
    match o {
        Some(x) => JsonView::Str(x@),
        None => JsonView::Null,
    }
}

pub(crate) fn opt_value(o: &Option<String>) -> (r: JsonValue)
    ensures
        json_view(r) == opt_json(*o),
{
    match o {
        Some(x) => JsonValue::String(x.clone()),
        None => JsonValue::Null,
    }
}

pub(crate) fn object(members: Vec<(String, JsonValue)>) -> (r: JsonValue)
    ensures
        json_view(r) == JsonView::Object(members@.map_values(|m: (String, JsonValue)| (m.0@, json_view(m.1)))),
{
    let r = JsonValue::Object(members);
    assert(json_view(r)->Object_0 =~= members@.map_values(|m: (String, JsonValue)| (m.0@, json_view(m.1))));
    r
}

pub(crate) fn array(items: Vec<JsonValue>) -> (r: JsonValue)
    ensures
        json_view(r) == JsonView::Array(views(items@)),
{
    let r = JsonValue::Array(items);
    assert(json_view(r)->Array_0 =~= views(items@));
    r
}

pub(crate) fn text_value(x: &str) -> (r: JsonValue)
    ensures
        json_view(r) == s(x@),
{
    JsonValue::String(x.to_owned())
}

// ---------------------------------------------------------------------------
// OpenAI chat
// ---------------------------------------------------------------------------

pub open spec fn is_text(p: ContentPart) -> bool {
    p is Text
}

pub open spec fn text_of(p: ContentPart) -> Seq<char> {
    match p {
        ContentPart::Text { text } => text@,
        _ => Seq::empty(),
    }
}

/// A part as the OpenAI chat protocol writes it.
pub open spec fn openai_part(p: ContentPart) -> JsonView {
    match p {
        ContentPart::Text { text } => JsonView::Object(seq![("type"@, s("text"@)), ("text"@, s(text@))]),
        ContentPart::ImageRef { image_url } => JsonView::Object(
            seq![
                ("type"@, s("image_url"@)),
                ("image_url"@, JsonView::Object(seq![("url"@, s(image_url.url@))])),
            ],
        ),
        ContentPart::FileRef { file } => JsonView::Object(
            seq![
                ("type"@, s("file"@)),
                (
                    "file"@,
                    JsonView::Object(
                        seq![
                            ("file_id"@, opt_json(file.file_id)),
                            ("file_data"@, opt_json(file.file_data)),
                            ("filename"@, opt_json(file.filename)),
                        ],
                    ),
                ),
            ],
        ),
        ContentPart::ToolResult { tool_call_id, content } => JsonView::Object(
            seq![
                ("type"@, s("tool_result"@)),
                ("tool_call_id"@, s(tool_call_id@)),
                ("content"@, s(content@)),
            ],
        ),
    }
}

/// The content of a message for the OpenAI chat protocol: where every part
/// is text, one string of the texts joined by line breaks (as compatible
/// chat APIs expect); else an array of the parts.
pub open spec fn openai_content(parts: Seq<ContentPart>) -> JsonView {
    if forall|i: int| 0 <= i < parts.len() ==> is_text(#[trigger] parts[i]) {
        s(join_with(parts.map_values(|p: ContentPart| text_of(p)), "\n"@))
    } else {
        JsonView::Array(parts.map_values(|p: ContentPart| openai_part(p)))
    }
}

fn openai_part_value(p: &ContentPart) -> (r: JsonValue)
    ensures
        json_view(r) == openai_part(*p),
{
    match p {
        ContentPart::Text { text } => {
            let r = object(vec![("type".to_owned(), text_value("text")), ("text".to_owned(), JsonValue::String(text.clone()))]);
            assert(json_view(r)->Object_0 =~= openai_part(*p)->Object_0);
            r
        },
        ContentPart::ImageRef { image_url } => {
            let inner = object(vec![("url".to_owned(), JsonValue::String(image_url.url.clone()))]);
            assert(json_view(inner)->Object_0 =~= seq![("url"@, s(image_url.url@))]);
            let r = object(vec![("type".to_owned(), text_value("image_url")), ("image_url".to_owned(), inner)]);
            assert(json_view(r)->Object_0 =~= openai_part(*p)->Object_0);
            r
        },
        ContentPart::FileRef { file } => {
            let inner = object(
                vec![
                    ("file_id".to_owned(), opt_value(&file.file_id)),
                    ("file_data".to_owned(), opt_value(&file.file_data)),
                    ("filename".to_owned(), opt_value(&file.filename)),
                ],
            );
            assert(json_view(inner)->Object_0 =~= seq![
                ("file_id"@, opt_json(file.file_id)),
                ("file_data"@, opt_json(file.file_data)),
                ("filename"@, opt_json(file.filename)),
            ]);
            let r = object(vec![("type".to_owned(), text_value("file")), ("file".to_owned(), inner)]);
            assert(json_view(r)->Object_0 =~= openai_part(*p)->Object_0);
            r
        },
        ContentPart::ToolResult { tool_call_id, content } => {
            let r = object(
                vec![
                    ("type".to_owned(), text_value("tool_result")),
                    ("tool_call_id".to_owned(), JsonValue::String(tool_call_id.clone())),
                    ("content".to_owned(), JsonValue::String(content.clone())),
                ],
            );
            assert(json_view(r)->Object_0 =~= openai_part(*p)->Object_0);
            r
        },
    }
}

/// The content of a message for the OpenAI chat protocol.
pub fn openai_chat_message_content(content: &[ContentPart]) -> (r: JsonValue)
    ensures
        json_view(r) == openai_content(content@),
{
    let mut all_text = true;
    let mut i: usize = 0;
    while i < content.len()
        invariant
            i <= content.len(),
            all_text == forall|k: int| 0 <= k < i ==> is_text(#[trigger] content@[k]),
        decreases content.len() - i,
    {
        match &content[i] {
            ContentPart::Text { .. } => {},
            _ => {
                all_text = false;
            },
        }
        i += 1;
    }
    if all_text {
        let mut texts: Vec<String> = Vec::new();
        let mut j: usize = 0;
        while j < content.len()
            invariant
                j <= content.len(),
                strings_view(texts@) == content@.take(j as int).map_values(|p: ContentPart| text_of(p)),
            decreases content.len() - j,
        {
            let ghost before = texts@;
            let t = match &content[j] {
                ContentPart::Text { text } => text.clone(),
                _ => String::new(),
            };
            texts.push(t);
            assert(content@.take((j + 1) as int).map_values(|p: ContentPart| text_of(p)) =~= content@.take(
                j as int,
            ).map_values(|p: ContentPart| text_of(p)).push(text_of(content@[j as int])));
            assert(strings_view(texts@) =~= strings_view(before).push(t@));
            j += 1;
        }
        assert(content@.take(content.len() as int) =~= content@);
        JsonValue::String(join_strings(&texts, "\n"))
    } else {
        let mut items: Vec<JsonValue> = Vec::new();
        let mut j: usize = 0;
        while j < content.len()
            invariant
                j <= content.len(),
                views(items@) == content@.take(j as int).map_values(|p: ContentPart| openai_part(p)),
            decreases content.len() - j,
        {
            let ghost before = items@;
            let v = openai_part_value(&content[j]);
            items.push(v);
            assert(content@.take((j + 1) as int).map_values(|p: ContentPart| openai_part(p)) =~= content@.take(
                j as int,
            ).map_values(|p: ContentPart| openai_part(p)).push(openai_part(content@[j as int])));
            assert(views(items@) =~= views(before).push(json_view(v)));
            j += 1;
        }
        assert(content@.take(content.len() as int) =~= content@);
        array(items)
    }
}

// ---------------------------------------------------------------------------
// `claude_code`
// ---------------------------------------------------------------------------

/// The text without the slashes that end it.
pub open spec fn trim_trailing_slashes(t: Seq<char>) -> Seq<char>
    decreases t.len(),
{
    if t.len() > 0 && t.last() == '/' {
        trim_trailing_slashes(t.drop_last())
    } else {
        t
    }
}

/// The messages endpoint under a base URL (its trailing slashes dropped):
/// `/messages` after a base that ends in `/v1`, else `/v1/messages`.
pub open spec fn messages_url_of(base_url: Seq<char>) -> Seq<char> {
    let b = trim_trailing_slashes(base_url);
    if ends_with(b, "/v1"@) {
        b + "/messages"@
    } else {
        b + "/v1/messages"@
    }
}

/// The `claude_code` messages endpoint under a base URL.
pub fn claude_code_messages_url(base_url: &str) -> (r: String)
    ensures
        r@ == messages_url_of(base_url@),
{
    let v = str_chars(base_url);
    let mut n = v.len();
    assert(v@.take(n as int) =~= v@);
    while n > 0 && v[n - 1] == '/'
        invariant
            n <= v.len(),
            v@ == base_url@,
            trim_trailing_slashes(v@.take(n as int)) == trim_trailing_slashes(v@),
        decreases n,
    {
        assert(v@.take(n as int).drop_last() =~= v@.take((n - 1) as int));
        n -= 1;
    }
    let b = sub_chars(&v, 0, n);
    assert(b@ =~= v@.take(n as int));
    assert(trim_trailing_slashes(b@) == b@);
    let mut out = b.clone();
    let suffix = str_chars("/v1");
    if has_suffix(&b, &suffix) {
        extend_chars(&mut out, &str_chars("/messages"));
    } else {
        extend_chars(&mut out, &str_chars("/v1/messages"));
    }
    chars_to_string(&out)
}

/// A part as a `claude_code` content block: images and documents go inline
/// as base64.
pub open spec fn claude_block(p: ContentPart) -> JsonView {
    match p {
        ContentPart::Text { text } => JsonView::Object(seq![("type"@, s("text"@)), ("text"@, s(text@))]),
        ContentPart::ImageRef { image_url } => JsonView::Object(
            seq![
                ("type"@, s("image"@)),
                (
                    "source"@,
                    JsonView::Object(
                        seq![
                            ("type"@, s("base64"@)),
                            ("media_type"@, s(data_url_mime_to_semicolon(image_url.url@))),
                            ("data"@, s(data_url_after_comma(image_url.url@))),
                        ],
                    ),
                ),
            ],
        ),
        ContentPart::FileRef { file } => JsonView::Object(
            seq![
                ("type"@, s("document"@)),
                (
                    "source"@,
                    JsonView::Object(
                        seq![
                            ("type"@, s("base64"@)),
                            (
                                "media_type"@,
                                s(
                                    match file.mime_type {
                                        Some(m) => m@,
                                        None => "application/pdf"@,
                                    },
                                ),
                            ),
                            (
                                "data"@,
                                s(
                                    match file.file_data {
                                        Some(d) => d@,
                                        None => Seq::empty(),
                                    },
                                ),
                            ),
                        ],
                    ),
                ),
            ],
        ),
        ContentPart::ToolResult { tool_call_id, content } => JsonView::Object(
            seq![
                ("type"@, s("tool_result"@)),
                ("tool_use_id"@, s(tool_call_id@)),
                ("content"@, s(content@)),
            ],
        ),
    }
}

pub(crate) fn or_text(o: &Option<String>, default: &str) -> (r: JsonValue)
    ensures
        json_view(r) == s(
            match *o {
                Some(x) => x@,
                None => default@,
            },
        ),
{
    match o {
        Some(x) => JsonValue::String(x.clone()),
        None => text_value(default),
    }
}

fn claude_block_value(p: &ContentPart) -> (r: JsonValue)
    ensures
        json_view(r) == claude_block(*p),
{
    match p {
        ContentPart::Text { text } => {
            let r = object(vec![("type".to_owned(), text_value("text")), ("text".to_owned(), JsonValue::String(text.clone()))]);
            assert(json_view(r)->Object_0 =~= claude_block(*p)->Object_0);
            r
        },
        ContentPart::ImageRef { image_url } => {
            let source = object(
                vec![
                    ("type".to_owned(), text_value("base64")),
                    ("media_type".to_owned(), JsonValue::String(claude_image_mime_type_from_data_url(image_url.url.as_str()))),
                    ("data".to_owned(), JsonValue::String(claude_image_base64_from_data_url(image_url.url.as_str()))),
                ],
            );
            let r = object(vec![("type".to_owned(), text_value("image")), ("source".to_owned(), source)]);
            assert(json_view(source)->Object_0 =~= claude_block(*p)->Object_0[1].1->Object_0);
            assert(json_view(r)->Object_0 =~= claude_block(*p)->Object_0);
            r
        },
        ContentPart::FileRef { file } => {
            let source = object(
                vec![
                    ("type".to_owned(), text_value("base64")),
                    ("media_type".to_owned(), or_text(&file.mime_type, "application/pdf")),
                    ("data".to_owned(), or_text(&file.file_data, "")),
                ],
            );
            proof {
                reveal_strlit("");
                assert(""@ =~= Seq::<char>::empty());
            }
            let r = object(vec![("type".to_owned(), text_value("document")), ("source".to_owned(), source)]);
            assert(json_view(source)->Object_0 =~= claude_block(*p)->Object_0[1].1->Object_0);
            assert(json_view(r)->Object_0 =~= claude_block(*p)->Object_0);
            r
        },
        ContentPart::ToolResult { tool_call_id, content } => {
            let r = object(
                vec![
                    ("type".to_owned(), text_value("tool_result")),
                    ("tool_use_id".to_owned(), JsonValue::String(tool_call_id.clone())),
                    ("content".to_owned(), JsonValue::String(content.clone())),
                ],
            );
            assert(json_view(r)->Object_0 =~= claude_block(*p)->Object_0);
            r
        },
    }
}

/// The content blocks of a message for `claude_code`.
pub fn claude_code_content_blocks(parts: &[ContentPart]) -> (r: JsonValue)
    ensures
        json_view(r) == JsonView::Array(parts@.map_values(|p: ContentPart| claude_block(p))),
{
    let mut items: Vec<JsonValue> = Vec::new();
    let mut j: usize = 0;
    while j < parts.len()
        invariant
            j <= parts.len(),
            views(items@) == parts@.take(j as int).map_values(|p: ContentPart| claude_block(p)),
        decreases parts.len() - j,
    {
        let ghost before = items@;
        let v = claude_block_value(&parts[j]);
        items.push(v);
        assert(parts@.take((j + 1) as int).map_values(|p: ContentPart| claude_block(p)) =~= parts@.take(
            j as int,
        ).map_values(|p: ContentPart| claude_block(p)).push(claude_block(parts@[j as int])));
        assert(views(items@) =~= views(before).push(json_view(v)));
        j += 1;
    }
    assert(parts@.take(parts.len() as int) =~= parts@);
    array(items)
}

/// The non-empty texts of a system message, as text blocks.
pub open spec fn system_texts(parts: Seq<ContentPart>) -> Seq<JsonView>
    decreases parts.len(),
{
    if parts.len() == 0 {
        Seq::empty()
    } else {
        system_texts(parts.drop_last()) + match parts.last() {
            ContentPart::Text { text } => if text@.len() > 0 {
                seq![JsonView::Object(seq![("type"@, s("text"@)), ("text"@, s(text@))])]
            } else {
                Seq::empty()
            },
            _ => Seq::empty(),
        }
    }
}

pub open spec fn is_system(r: ChatRole) -> bool {
    r == ChatRole::System || r == ChatRole::Developer
}

/// The system blocks of a conversation: the texts of its system and
/// developer messages.
pub open spec fn system_blocks(msgs: Seq<ChatMessage>) -> Seq<JsonView>
    decreases msgs.len(),
{
    if msgs.len() == 0 {
        Seq::empty()
    } else {
        system_blocks(msgs.drop_last()) + if is_system(msgs.last().role) {
            system_texts(msgs.last().content@)
        } else {
            Seq::empty()
        }
    }
}

/// The turns of a conversation: each other message, as the assistant's or
/// the user's (tool results speak as the user).
pub open spec fn message_items(msgs: Seq<ChatMessage>) -> Seq<JsonView>
    decreases msgs.len(),
{
    if msgs.len() == 0 {
        Seq::empty()
    } else {
        message_items(msgs.drop_last()) + if is_system(msgs.last().role) {
            Seq::empty()
        } else {
            seq![
                JsonView::Object(
                    seq![
                        (
                            "role"@,
                            s(
                                if msgs.last().role == ChatRole::Assistant {
                                    "assistant"@
                                } else {
                                    "user"@
                                },
                            ),
                        ),
                        (
                            "content"@,
                            JsonView::Array(msgs.last().content@.map_values(|p: ContentPart| claude_block(p))),
                        ),
                    ],
                ),
            ]
        }
    }
}

pub open spec fn user_id_of(request_id: Seq<char>) -> Seq<char> {
    "{\"device_id\":\"rst-local\",\"account_uuid\":\"\",\"session_id\":\""@ + request_id + "\"}"@
}

pub open spec fn structured_output_members(schema: JsonView) -> Seq<(Seq<char>, JsonView)> {
    seq![
        (
            "tools"@,
            JsonView::Array(
                seq![
                    JsonView::Object(
                        seq![
                            ("name"@, s("structured_output"@)),
                            ("description"@, s("Return the requested JSON object."@)),
                            ("input_schema"@, schema),
                        ],
                    ),
                ],
            ),
        ),
        ("tool_choice"@, JsonView::Object(seq![("type"@, s("tool"@)), ("name"@, s("structured_output"@))])),
    ]
}

/// A `claude_code` request body, sampling aside: the model, the token limit
/// (4096 where none is asked), the system blocks, the turns, the metadata
/// naming the request; and, where a schema is asked for, a tool that
/// returns it, which the model must call.
pub open spec fn claude_code_body(
    model: Seq<char>,
    request_id: Seq<char>,
    max_tokens: Option<u32>,
    msgs: Seq<ChatMessage>,
    schema: Option<JsonView>,
) -> JsonView {
    JsonView::Object(
        seq![
            ("model"@, s(model)),
            (
                "max_tokens"@,
                JsonView::Number(
                    JsonNumber::PosInt(
                        match max_tokens {
                            Some(m) => m as u64,
                            None => 4096u64,
                        },
                    ),
                ),
            ),
            ("system"@, JsonView::Array(system_blocks(msgs))),
            ("messages"@, JsonView::Array(message_items(msgs))),
            ("metadata"@, JsonView::Object(seq![("user_id"@, s(user_id_of(request_id)))])),
        ] + match schema {
            Some(sc) => structured_output_members(sc),
            None => Seq::empty(),
        },
    )
}

fn push_system_texts(out: &mut Vec<JsonValue>, parts: &Vec<ContentPart>)
    ensures
        views(final(out)@) == views(old(out)@) + system_texts(parts@),
{
    let mut j: usize = 0;
    while j < parts.len()
        invariant
            j <= parts.len(),
            views(out@) == views(old(out)@) + system_texts(parts@.take(j as int)),
        decreases parts.len() - j,
    {
        let ghost before = out@;
        assert(parts@.take((j + 1) as int).drop_last() =~= parts@.take(j as int));
        match &parts[j] {
            ContentPart::Text { text } => {
                if str_chars(text.as_str()).len() > 0 {
                    let b = object(vec![("type".to_owned(), text_value("text")), ("text".to_owned(), JsonValue::String(text.clone()))]);
                    assert(json_view(b)->Object_0 =~= seq![("type"@, s("text"@)), ("text"@, s(text@))]);
                    out.push(b);
                    assert(views(out@) =~= views(before).push(json_view(b)));
                } else {
                    assert(system_texts(parts@.take((j + 1) as int)) =~= system_texts(parts@.take(j as int)));
                }
            },
            _ => {
                assert(system_texts(parts@.take((j + 1) as int)) =~= system_texts(parts@.take(j as int)));
            },
        }
        j += 1;
    }
    assert(parts@.take(parts.len() as int) =~= parts@);
}

/// A `claude_code` request body, sampling aside.
pub fn claude_code_request_body(
    model: &str,
    request_id: &str,
    max_tokens: Option<u32>,
    messages: &[ChatMessage],
    schema: Option<JsonValue>,
) -> (r: JsonValue)
    ensures
        json_view(r) == claude_code_body(
            model@,
            request_id@,
            max_tokens,
            messages@,
            match schema {
                Some(sc) => Some(json_view(sc)),
                None => None,
            },
        ),
{
    let mut system: Vec<JsonValue> = Vec::new();
    let mut turns: Vec<JsonValue> = Vec::new();
    let mut i: usize = 0;
    while i < messages.len()
        invariant
            i <= messages.len(),
            views(system@) == system_blocks(messages@.take(i as int)),
            views(turns@) == message_items(messages@.take(i as int)),
        decreases messages.len() - i,
    {
        let m = &messages[i];
        assert(messages@.take((i + 1) as int).drop_last() =~= messages@.take(i as int));
        let ghost t0 = turns@;
        if m.role == ChatRole::System || m.role == ChatRole::Developer {
            push_system_texts(&mut system, &m.content);
            assert(views(turns@) =~= message_items(messages@.take((i + 1) as int)));
        } else {
            let role = if m.role == ChatRole::Assistant {
                text_value("assistant")
            } else {
                text_value("user")
            };
            let blocks = claude_code_content_blocks(m.content.as_slice());
            let item = object(vec![("role".to_owned(), role), ("content".to_owned(), blocks)]);
            assert(json_view(item)->Object_0 =~= message_items(messages@.take((i + 1) as int)).last()->Object_0);
            turns.push(item);
            assert(views(turns@) =~= views(t0).push(json_view(item)));
            assert(views(system@) =~= system_blocks(messages@.take((i + 1) as int)));
        }
        i += 1;
    }
    assert(messages@.take(messages.len() as int) =~= messages@);
    let limit: u64 = match max_tokens {
        Some(m) => m as u64,
        None => 4096,
    };
    let mut uid = str_chars("{\"device_id\":\"rst-local\",\"account_uuid\":\"\",\"session_id\":\"");
    extend_chars(&mut uid, &str_chars(request_id));
    extend_chars(&mut uid, &str_chars("\"}"));
    let metadata = object(vec![("user_id".to_owned(), JsonValue::String(chars_to_string(&uid)))]);
    let system_value = array(system);
    let turns_value = array(turns);
    let mut members: Vec<(String, JsonValue)> = vec![
        ("model".to_owned(), text_value(model)),
        ("max_tokens".to_owned(), JsonValue::Number(JsonNumber::PosInt(limit))),
        ("system".to_owned(), system_value),
        ("messages".to_owned(), turns_value),
        ("metadata".to_owned(), metadata),
    ];
    let ghost base = members@.map_values(|m: (String, JsonValue)| (m.0@, json_view(m.1)));
    let ghost sc_view: Option<JsonView> = match schema {
        Some(ref sc) => Some(json_view(*sc)),
        None => None,
    };
    match schema {
        Some(sc) => {
            let tool = object(
                vec![
                    ("name".to_owned(), text_value("structured_output")),
                    ("description".to_owned(), text_value("Return the requested JSON object.")),
                    ("input_schema".to_owned(), sc),
                ],
            );
            let ghost tool_view = json_view(tool);
            let tools = array(vec![tool]);
            let choice = object(vec![("type".to_owned(), text_value("tool")), ("name".to_owned(), text_value("structured_output"))]);
            members.push(("tools".to_owned(), tools));
            members.push(("tool_choice".to_owned(), choice));
            assert(tool_view->Object_0 =~= structured_output_members(sc_view.unwrap())[0].1->Array_0[0]->Object_0);
            assert(json_view(tools)->Array_0 =~= structured_output_members(sc_view.unwrap())[0].1->Array_0);
            assert(json_view(choice)->Object_0 =~= structured_output_members(sc_view.unwrap())[1].1->Object_0);
        },
        None => {},
    }
    let r = object(members);
    assert(json_view(metadata)->Object_0 =~= seq![("user_id"@, s(user_id_of(request_id@)))]);
    assert(json_view(r)->Object_0 =~= claude_code_body(model@, request_id@, max_tokens, messages@, sc_view)->Object_0);
    r
}

} // verus!
