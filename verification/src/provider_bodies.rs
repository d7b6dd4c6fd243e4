//! Request bodies of the OpenAI chat and Anthropic messages protocols, for
//! messages whose files are already uploaded or inlined. Sampling
//! parameters are added apart.

use vstd::prelude::*;
use crate::chat_content::{
    array, object, openai_chat_message_content, openai_content, opt_json, opt_value, or_text, s, text_value,
    ChatMessage, ChatRole, ContentPart,
};
use crate::data_urls::{data_url_mime, data_url_payload, image_base64_from_data_url, image_mime_type_from_data_url};
use crate::json::{json_view, views, JsonNumber, JsonValue, JsonView};
use crate::text::{join_strings, join_with, str_chars, strings_view};

verus! {

pub open spec fn opt_schema(schema: Option<JsonValue>) -> Option<JsonView> {
    match schema {
        Some(sc) => Some(json_view(sc)),
        None => None,
    }
}

// ---------------------------------------------------------------------------
// OpenAI chat
// ---------------------------------------------------------------------------

pub open spec fn openai_role(r: ChatRole) -> Seq<char> {
    match r {
        ChatRole::System => "system"@,
        ChatRole::Developer => "developer"@,
        ChatRole::User => "user"@,
        ChatRole::Assistant => "assistant"@,
        ChatRole::Tool => "tool"@,
    }
}

pub open spec fn openai_message(m: ChatMessage) -> JsonView {
    JsonView::Object(seq![("role"@, s(openai_role(m.role))), ("content"@, openai_content(m.content@))])
}

/// An OpenAI chat request body, sampling aside: the model and the messages;
/// the token limit where one is asked; the stop sequences where there are
/// any; `stream` where the request streams; and a strict JSON schema
/// response format where a schema is asked for.
pub open spec fn openai_chat_body(
    model: Seq<char>,
    msgs: Seq<ChatMessage>,
    max_tokens: Option<u32>,
    stop: Seq<Seq<char>>,
    stream: bool,
    schema: Option<JsonView>,
) -> JsonView {
    JsonView::Object(
        seq![
            ("model"@, s(model)),
            ("messages"@, JsonView::Array(msgs.map_values(|m: ChatMessage| openai_message(m)))),
        ] + match max_tokens {
            Some(m) => seq![("max_tokens"@, JsonView::Number(JsonNumber::PosInt(m as u64)))],
            None => Seq::empty(),
        } + if stop.len() > 0 {
            seq![("stop"@, JsonView::Array(stop.map_values(|x: Seq<char>| s(x))))]
        } else {
            Seq::empty()
        } + if stream {
            seq![("stream"@, JsonView::Bool(true))]
        } else {
            Seq::empty()
        } + match schema {
            Some(sc) => seq![
                (
                    "response_format"@,
                    JsonView::Object(
                        seq![
                            ("type"@, s("json_schema"@)),
                            (
                                "json_schema"@,
                                JsonView::Object(
                                    seq![
                                        ("name"@, s("response"@)),
                                        ("strict"@, JsonView::Bool(true)),
                                        ("schema"@, sc),
                                    ],
                                ),
                            ),
                        ],
                    ),
                ),
            ],
            None => Seq::empty(),
        },
    )
}

fn role_text(r: ChatRole) -> (t: &'static str)
    ensures
        t@ == openai_role(r),
{
    match r {
        ChatRole::System => "system",
        ChatRole::Developer => "developer",
        ChatRole::User => "user",
        ChatRole::Assistant => "assistant",
        ChatRole::Tool => "tool",
    }
}

pub open spec fn members_view(m: Seq<(String, JsonValue)>) -> Seq<(Seq<char>, JsonView)> {
    m.map_values(|x: (String, JsonValue)| (x.0@, json_view(x.1)))
}

fn push_member(members: &mut Vec<(String, JsonValue)>, key: &str, value: JsonValue)
    ensures
        members_view(final(members)@) == members_view(old(members)@).push((key@, json_view(value))),
{
    let ghost v = json_view(value);
    members.push((key.to_owned(), value));
    assert(members_view(members@) =~= members_view(old(members)@).push((key@, v)));
}

/// An OpenAI chat request body, sampling aside.
pub fn openai_chat_request_body(
    model: &str,
    messages: &[ChatMessage],
    max_tokens: Option<u32>,
    stop_sequences: &Vec<String>,
    stream: bool,
    schema: Option<JsonValue>,
) -> (r: JsonValue)
    ensures
        json_view(r) == openai_chat_body(
            model@,
            messages@,
            max_tokens,
            strings_view(stop_sequences@),
            stream,
            opt_schema(schema),
        ),
{
    let ghost sc_view = opt_schema(schema);
    let mut items: Vec<JsonValue> = Vec::new();
    let mut i: usize = 0;
    while i < messages.len()
        invariant
            i <= messages.len(),
            views(items@) == messages@.take(i as int).map_values(|m: ChatMessage| openai_message(m)),
        decreases messages.len() - i,
    {
        let ghost before = items@;
        let m = &messages[i];
        let content = openai_chat_message_content(m.content.as_slice());
        let item = object(vec![("role".to_owned(), text_value(role_text(m.role))), ("content".to_owned(), content)]);
        assert(json_view(item)->Object_0 =~= openai_message(*m)->Object_0);
        items.push(item);
        assert(messages@.take((i + 1) as int).map_values(|m: ChatMessage| openai_message(m)) =~= messages@.take(
            i as int,
        ).map_values(|m: ChatMessage| openai_message(m)).push(openai_message(messages@[i as int])));
        assert(views(items@) =~= views(before).push(json_view(item)));
        i += 1;
    }
    assert(messages@.take(messages.len() as int) =~= messages@);
    let mut members: Vec<(String, JsonValue)> = Vec::new();
    push_member(&mut members, "model", text_value(model));
    push_member(&mut members, "messages", array(items));
    assert(members_view(members@) =~= seq![
        ("model"@, s(model@)),
        ("messages"@, JsonView::Array(messages@.map_values(|m: ChatMessage| openai_message(m)))),
    ]);
    let ghost head = members_view(members@);
    let ghost max_part: Seq<(Seq<char>, JsonView)> = match max_tokens {
        Some(m) => seq![("max_tokens"@, JsonView::Number(JsonNumber::PosInt(m as u64)))],
        None => Seq::empty(),
    };
    match max_tokens {
        Some(m) => push_member(&mut members, "max_tokens", JsonValue::Number(JsonNumber::PosInt(m as u64))),
        None => {},
    }
    assert(members_view(members@) =~= head + max_part);
    let ghost with_max = members_view(members@);
    let ghost stop_part: Seq<(Seq<char>, JsonView)> = if strings_view(stop_sequences@).len() > 0 {
        seq![("stop"@, JsonView::Array(strings_view(stop_sequences@).map_values(|x: Seq<char>| s(x))))]
    } else {
        Seq::empty()
    };
    if stop_sequences.len() > 0 {
        let mut stops: Vec<JsonValue> = Vec::new();
        let mut j: usize = 0;
        while j < stop_sequences.len()
            invariant
                j <= stop_sequences.len(),
                views(stops@) == strings_view(stop_sequences@).take(j as int).map_values(|x: Seq<char>| s(x)),
            decreases stop_sequences.len() - j,
        {
            let ghost before = stops@;
            let v = JsonValue::String(stop_sequences[j].clone());
            stops.push(v);
            assert(strings_view(stop_sequences@).take((j + 1) as int).map_values(|x: Seq<char>| s(x))
                =~= strings_view(stop_sequences@).take(j as int).map_values(|x: Seq<char>| s(x)).push(
                s(stop_sequences@[j as int]@),
            ));
            assert(views(stops@) =~= views(before).push(json_view(v)));
            j += 1;
        }
        assert(strings_view(stop_sequences@).take(stop_sequences.len() as int) =~= strings_view(stop_sequences@));
        push_member(&mut members, "stop", array(stops));
    }
    assert(members_view(members@) =~= with_max + stop_part);
    let ghost with_stop = members_view(members@);
    let ghost stream_part: Seq<(Seq<char>, JsonView)> = if stream {
        seq![("stream"@, JsonView::Bool(true))]
    } else {
        Seq::empty()
    };
    if stream {
        push_member(&mut members, "stream", JsonValue::Bool(true));
    }
    assert(members_view(members@) =~= with_stop + stream_part);
    let ghost with_stream = members_view(members@);
    let ghost schema_part: Seq<(Seq<char>, JsonView)> = match sc_view {
        Some(sc) => seq![
            (
                "response_format"@,
                JsonView::Object(
                    seq![
                        ("type"@, s("json_schema"@)),
                        (
                            "json_schema"@,
                            JsonView::Object(
                                seq![("name"@, s("response"@)), ("strict"@, JsonView::Bool(true)), ("schema"@, sc)],
                            ),
                        ),
                    ],
                ),
            ),
        ],
        None => Seq::empty(),
    };
    match schema {
        Some(sc) => {
            let inner = object(
                vec![
                    ("name".to_owned(), text_value("response")),
                    ("strict".to_owned(), JsonValue::Bool(true)),
                    ("schema".to_owned(), sc),
                ],
            );
            let ghost inner_view = json_view(inner);
            let format = object(vec![("type".to_owned(), text_value("json_schema")), ("json_schema".to_owned(), inner)]);
            assert(inner_view->Object_0 =~= seq![("name"@, s("response"@)), ("strict"@, JsonView::Bool(true)), ("schema"@, sc_view.unwrap())]);
            let ghost fv = json_view(format);
            assert(fv->Object_0 =~= schema_part[0].1->Object_0);
            push_member(&mut members, "response_format", format);
            assert(members_view(members@) =~= with_stream + schema_part);
        },
        None => {
            assert(members_view(members@) =~= with_stream + schema_part);
        },
    }
    let r = object(members);
    assert(members_view(members@) =~= json_view(r)->Object_0);
    assert(json_view(r)->Object_0 =~= openai_chat_body(
        model@,
        messages@,
        max_tokens,
        strings_view(stop_sequences@),
        stream,
        sc_view,
    )->Object_0);
    r
}

// ---------------------------------------------------------------------------
// Anthropic messages
// ---------------------------------------------------------------------------

/// The text of the first text part, if any.
pub open spec fn first_text(parts: Seq<ContentPart>) -> Option<Seq<char>>
    decreases parts.len(),
{
    if parts.len() == 0 {
        None
    } else {
        match first_text(parts.drop_last()) {
            Some(t) => Some(t),
            None => match parts.last() {
                ContentPart::Text { text } => Some(text@),
                _ => None,
            },
        }
    }
}

/// The first text of each system message.
pub open spec fn system_lines(msgs: Seq<ChatMessage>) -> Seq<Seq<char>>
    decreases msgs.len(),
{
    if msgs.len() == 0 {
        Seq::empty()
    } else {
        system_lines(msgs.drop_last()) + if msgs.last().role == ChatRole::System {
            match first_text(msgs.last().content@) {
                Some(t) => seq![t],
                None => Seq::empty(),
            }
        } else {
            Seq::empty()
        }
    }
}

/// A part as an Anthropic content block: an image inline as base64; a
/// document by its uploaded file id, else inline.
pub open spec fn anthropic_part(p: ContentPart) -> JsonView {
    match p {
        ContentPart::Text { text } => JsonView::Object(seq![("type"@, s("text"@)), ("text"@, s(text@))]),
        ContentPart::ImageRef { image_url } => JsonView::Object(
            seq![
                ("type"@, s("image"@)),
                (
                    "source"@,
                    JsonView::Object(
                        seq![
                            ("type"@, s("base64"@)),
                            ("media_type"@, s(data_url_mime(image_url.url@))),
                            ("data"@, s(data_url_payload(image_url.url@))),
                        ],
                    ),
                ),
            ],
        ),
        ContentPart::FileRef { file } => match file.file_id {
            Some(id) => JsonView::Object(
                seq![
                    ("type"@, s("document"@)),
                    ("source"@, JsonView::Object(seq![("type"@, s("file"@)), ("file_id"@, s(id@))])),
                ],
            ),
            None => JsonView::Object(
                seq![
                    ("type"@, s("document"@)),
                    (
                        "source"@,
                        JsonView::Object(
                            seq![
                                ("type"@, s("base64"@)),
                                (
                                    "media_type"@,
                                    s(
                                        match file.mime_type {
                                            Some(m) => m@,
                                            None => "application/pdf"@,
                                        },
                                    ),
                                ),
                                (
                                    "data"@,
                                    s(
                                        match file.file_data {
                                            Some(d) => d@,
                                            None => Seq::empty(),
                                        },
                                    ),
                                ),
                            ],
                        ),
                    ),
                ],
            ),
        },
        ContentPart::ToolResult { tool_call_id, content } => JsonView::Object(
            seq![
                ("type"@, s("tool_result"@)),
                ("tool_use_id"@, s(tool_call_id@)),
                ("content"@, s(content@)),
            ],
        ),
    }
}

/// The turns: every message but the system ones, as the assistant's or the
/// user's.
pub open spec fn anthropic_turns(msgs: Seq<ChatMessage>) -> Seq<JsonView>
    decreases msgs.len(),
{
    if msgs.len() == 0 {
        Seq::empty()
    } else {
        anthropic_turns(msgs.drop_last()) + if msgs.last().role == ChatRole::System {
            Seq::empty()
        } else {
            seq![
                JsonView::Object(
                    seq![
                        (
                            "role"@,
                            s(
                                if msgs.last().role == ChatRole::Assistant {
                                    "assistant"@
                                } else {
                                    "user"@
                                },
                            ),
                        ),
                        (
                            "content"@,
                            JsonView::Array(msgs.last().content@.map_values(|p: ContentPart| anthropic_part(p))),
                        ),
                    ],
                ),
            ]
        }
    }
}

/// An Anthropic request body, sampling aside: the model, the token limit
/// (4096 where none is asked), the system text where there is any (the
/// first text of each system message, one per line), the turns; and,
/// where a schema is asked for, a tool that returns it.
pub open spec fn anthropic_body(
    model: Seq<char>,
    max_tokens: Option<u32>,
    msgs: Seq<ChatMessage>,
    schema: Option<JsonView>,
) -> JsonView {
    let system = join_with(system_lines(msgs), "\n"@);
    JsonView::Object(
        seq![
            ("model"@, s(model)),
            (
                "max_tokens"@,
                JsonView::Number(
                    JsonNumber::PosInt(
                        match max_tokens {
                            Some(m) => m as u64,
                            None => 4096u64,
                        },
                    ),
                ),
            ),
        ] + if system.len() > 0 {
            seq![("system"@, s(system))]
        } else {
            Seq::empty()
        } + seq![("messages"@, JsonView::Array(anthropic_turns(msgs)))] + match schema {
            Some(sc) => seq![
                (
                    "tools"@,
                    JsonView::Array(
                        seq![
                            JsonView::Object(
                                seq![
                                    ("name"@, s("structured_output"@)),
                                    ("description"@, s("Return structured JSON output"@)),
                                    ("input_schema"@, sc),
                                ],
                            ),
                        ],
                    ),
                ),
            ],
            None => Seq::empty(),
        },
    )
}

fn first_text_of(parts: &Vec<ContentPart>) -> (r: Option<String>)
    ensures
        match r {
            Some(t) => first_text(parts@) == Some(t@),
            None => first_text(parts@) is None,
        },
{
    let mut i: usize = 0;
    while i < parts.len()
        invariant
            i <= parts.len(),
            first_text(parts@.take(i as int)) is None,
        decreases parts.len() - i,
    {
        assert(parts@.take((i + 1) as int).drop_last() =~= parts@.take(i as int));
        match &parts[i] {
            ContentPart::Text { text } => {
                proof {
                    lemma_first_text_prefix(parts@, (i + 1) as int);
                }
                return Some(text.clone());
            },
            _ => {},
        }
        i += 1;
    }
    assert(parts@.take(parts.len() as int) =~= parts@);
    None
}

proof fn lemma_first_text_prefix(parts: Seq<ContentPart>, n: int)
    requires
        0 <= n <= parts.len(),
        first_text(parts.take(n)) is Some,
    ensures
        first_text(parts) == first_text(parts.take(n)),
    decreases parts.len() - n,
{
    if n < parts.len() {
        assert(parts.take(n + 1).drop_last() =~= parts.take(n));
        lemma_first_text_prefix(parts, n + 1);
    } else {
        assert(parts.take(n) =~= parts);
    }
}

fn anthropic_part_value(p: &ContentPart) -> (r: JsonValue)
    ensures
        json_view(r) == anthropic_part(*p),
{
    match p {
        ContentPart::Text { text } => {
            let r = object(vec![("type".to_owned(), text_value("text")), ("text".to_owned(), JsonValue::String(text.clone()))]);
            assert(json_view(r)->Object_0 =~= anthropic_part(*p)->Object_0);
            r
        },
        ContentPart::ImageRef { image_url } => {
            let source = object(
                vec![
                    ("type".to_owned(), text_value("base64")),
                    ("media_type".to_owned(), JsonValue::String(image_mime_type_from_data_url(image_url.url.as_str()))),
                    ("data".to_owned(), JsonValue::String(image_base64_from_data_url(image_url.url.as_str()))),
                ],
            );
            let ghost sv = json_view(source);
            let r = object(vec![("type".to_owned(), text_value("image")), ("source".to_owned(), source)]);
            assert(sv->Object_0 =~= anthropic_part(*p)->Object_0[1].1->Object_0);
            assert(json_view(r)->Object_0 =~= anthropic_part(*p)->Object_0);
            r
        },
        ContentPart::FileRef { file } => match &file.file_id {
            Some(id) => {
                let source = object(vec![("type".to_owned(), text_value("file")), ("file_id".to_owned(), JsonValue::String(id.clone()))]);
                let ghost sv = json_view(source);
                let r = object(vec![("type".to_owned(), text_value("document")), ("source".to_owned(), source)]);
                assert(sv->Object_0 =~= anthropic_part(*p)->Object_0[1].1->Object_0);
                assert(json_view(r)->Object_0 =~= anthropic_part(*p)->Object_0);
                r
            },
            None => {
                let source = object(
                    vec![
                        ("type".to_owned(), text_value("base64")),
                        ("media_type".to_owned(), or_text(&file.mime_type, "application/pdf")),
                        ("data".to_owned(), or_text(&file.file_data, "")),
                    ],
                );
                proof {
                    reveal_strlit("");
                    assert(""@ =~= Seq::<char>::empty());
                }
                let ghost sv = json_view(source);
                let r = object(vec![("type".to_owned(), text_value("document")), ("source".to_owned(), source)]);
                assert(sv->Object_0 =~= anthropic_part(*p)->Object_0[1].1->Object_0);
                assert(json_view(r)->Object_0 =~= anthropic_part(*p)->Object_0);
                r
            },
        },
        ContentPart::ToolResult { tool_call_id, content } => {
            let r = object(
                vec![
                    ("type".to_owned(), text_value("tool_result")),
                    ("tool_use_id".to_owned(), JsonValue::String(tool_call_id.clone())),
                    ("content".to_owned(), JsonValue::String(content.clone())),
                ],
            );
            assert(json_view(r)->Object_0 =~= anthropic_part(*p)->Object_0);
            r
        },
    }
}

fn anthropic_blocks(parts: &Vec<ContentPart>) -> (r: JsonValue)
    ensures
        json_view(r) == JsonView::Array(parts@.map_values(|p: ContentPart| anthropic_part(p))),
{
    let mut items: Vec<JsonValue> = Vec::new();
    let mut j: usize = 0;
    while j < parts.len()
        invariant
            j <= parts.len(),
            views(items@) == parts@.take(j as int).map_values(|p: ContentPart| anthropic_part(p)),
        decreases parts.len() - j,
    {
        let ghost before = items@;
        let v = anthropic_part_value(&parts[j]);
        items.push(v);
        assert(parts@.take((j + 1) as int).map_values(|p: ContentPart| anthropic_part(p)) =~= parts@.take(
            j as int,
        ).map_values(|p: ContentPart| anthropic_part(p)).push(anthropic_part(parts@[j as int])));
        assert(views(items@) =~= views(before).push(json_view(v)));
        j += 1;
    }
    assert(parts@.take(parts.len() as int) =~= parts@);
    array(items)
}

/// An Anthropic request body, sampling aside.
pub fn anthropic_request_body(
    model: &str,
    max_tokens: Option<u32>,
    messages: &[ChatMessage],
    schema: Option<JsonValue>,
) -> (r: JsonValue)
    ensures
        json_view(r) == anthropic_body(model@, max_tokens, messages@, opt_schema(schema)),
{
    let ghost sc_view = opt_schema(schema);
    let mut lines: Vec<String> = Vec::new();
    let mut turns: Vec<JsonValue> = Vec::new();
    let mut i: usize = 0;
    while i < messages.len()
        invariant
            i <= messages.len(),
            strings_view(lines@) == system_lines(messages@.take(i as int)),
            views(turns@) == anthropic_turns(messages@.take(i as int)),
        decreases messages.len() - i,
    {
        let m = &messages[i];
        assert(messages@.take((i + 1) as int).drop_last() =~= messages@.take(i as int));
        let ghost l0 = lines@;
        let ghost t0 = turns@;
        if m.role == ChatRole::System {
            match first_text_of(&m.content) {
                Some(t) => {
                    lines.push(t);
                    assert(strings_view(lines@) =~= strings_view(l0).push(lines@.last()@));
                },
                None => {
                    assert(strings_view(lines@) =~= system_lines(messages@.take((i + 1) as int)));
                },
            }
            assert(views(turns@) =~= anthropic_turns(messages@.take((i + 1) as int)));
        } else {
            let role = if m.role == ChatRole::Assistant {
                text_value("assistant")
            } else {
                text_value("user")
            };
            let blocks = anthropic_blocks(&m.content);
            let item = object(vec![("role".to_owned(), role), ("content".to_owned(), blocks)]);
            assert(json_view(item)->Object_0 =~= anthropic_turns(messages@.take((i + 1) as int)).last()->Object_0);
            turns.push(item);
            assert(views(turns@) =~= views(t0).push(json_view(item)));
            assert(strings_view(lines@) =~= system_lines(messages@.take((i + 1) as int)));
        }
        i += 1;
    }
    assert(messages@.take(messages.len() as int) =~= messages@);
    let system = join_strings(&lines, "\n");
    let limit: u64 = match max_tokens {
        Some(m) => m as u64,
        None => 4096,
    };
    let mut members: Vec<(String, JsonValue)> = Vec::new();
    push_member(&mut members, "model", text_value(model));
    push_member(&mut members, "max_tokens", JsonValue::Number(JsonNumber::PosInt(limit)));
    if str_chars(system.as_str()).len() > 0 {
        push_member(&mut members, "system", JsonValue::String(system));
    }
    push_member(&mut members, "messages", array(turns));
    match schema {
        Some(sc) => {
            let tool = object(
                vec![
                    ("name".to_owned(), text_value("structured_output")),
                    ("description".to_owned(), text_value("Return structured JSON output")),
                    ("input_schema".to_owned(), sc),
                ],
            );
            let ghost tool_view = json_view(tool);
            let tools = array(vec![tool]);
            assert(tool_view->Object_0 =~= seq![
                ("name"@, s("structured_output"@)),
                ("description"@, s("Return structured JSON output"@)),
                ("input_schema"@, sc_view.unwrap()),
            ]);
            assert(json_view(tools)->Array_0 =~= seq![tool_view]);
            push_member(&mut members, "tools", tools);
        },
        None => {},
    }
    let r = object(members);
    assert(json_view(r)->Object_0 =~= anthropic_body(model@, max_tokens, messages@, sc_view)->Object_0);
    r
}

// ---------------------------------------------------------------------------
// OpenAI responses
// ---------------------------------------------------------------------------

/// The input items of a message's parts; tool results have none.
pub open spec fn responses_parts(parts: Seq<ContentPart>) -> Seq<JsonView>
    decreases parts.len(),
{
    if parts.len() == 0 {
        Seq::empty()
    } else {
        responses_parts(parts.drop_last()) + match parts.last() {
            ContentPart::Text { text } => seq![
                JsonView::Object(seq![("type"@, s("input_text"@)), ("text"@, s(text@))]),
            ],
            ContentPart::ImageRef { image_url } => seq![
                JsonView::Object(
                    seq![
                        ("type"@, s("input_image"@)),
                        ("image_url"@, s(image_url.url@)),
                        ("detail"@, s("auto"@)),
                    ],
                ),
            ],
            ContentPart::FileRef { file } => seq![
                JsonView::Object(
                    seq![
                        ("type"@, s("input_file"@)),
                        ("file_id"@, opt_json(file.file_id)),
                        ("file_data"@, opt_json(file.file_data)),
                        ("filename"@, opt_json(file.filename)),
                    ],
                ),
            ],
            ContentPart::ToolResult { .. } => Seq::empty(),
        }
    }
}

pub open spec fn responses_item(m: ChatMessage) -> JsonView {
    JsonView::Object(
        seq![("role"@, s(openai_role(m.role))), ("content"@, JsonView::Array(responses_parts(m.content@)))],
    )
}

/// An OpenAI responses request body, sampling aside: the model and the
/// input; a strict JSON schema text format where a schema is asked for;
/// the output token limit where one is asked; `stream` where the request
/// streams.
pub open spec fn openai_responses_body(
    model: Seq<char>,
    msgs: Seq<ChatMessage>,
    max_tokens: Option<u32>,
    stream: bool,
    schema: Option<JsonView>,
) -> JsonView {
    JsonView::Object(
        seq![
            ("model"@, s(model)),
            ("input"@, JsonView::Array(msgs.map_values(|m: ChatMessage| responses_item(m)))),
        ] + match schema {
            Some(sc) => seq![
                (
                    "text"@,
                    JsonView::Object(
                        seq![
                            (
                                "format"@,
                                JsonView::Object(
                                    seq![
                                        ("type"@, s("json_schema"@)),
                                        ("name"@, s("response"@)),
                                        ("schema"@, sc),
                                        ("strict"@, JsonView::Bool(true)),
                                    ],
                                ),
                            ),
                        ],
                    ),
                ),
            ],
            None => Seq::empty(),
        } + match max_tokens {
            Some(m) => seq![("max_output_tokens"@, JsonView::Number(JsonNumber::PosInt(m as u64)))],
            None => Seq::empty(),
        } + if stream {
            seq![("stream"@, JsonView::Bool(true))]
        } else {
            Seq::empty()
        },
    )
}

fn responses_parts_value(parts: &Vec<ContentPart>) -> (r: JsonValue)
    ensures
        json_view(r) == JsonView::Array(responses_parts(parts@)),
{
    let mut items: Vec<JsonValue> = Vec::new();
    let mut j: usize = 0;
    while j < parts.len()
        invariant
            j <= parts.len(),
            views(items@) == responses_parts(parts@.take(j as int)),
        decreases parts.len() - j,
    {
        let ghost before = items@;
        assert(parts@.take((j + 1) as int).drop_last() =~= parts@.take(j as int));
        match &parts[j] {
            ContentPart::Text { text } => {
                let v = object(vec![("type".to_owned(), text_value("input_text")), ("text".to_owned(), JsonValue::String(text.clone()))]);
                assert(json_view(v)->Object_0 =~= responses_parts(parts@.take((j + 1) as int)).last()->Object_0);
                items.push(v);
                assert(views(items@) =~= views(before).push(json_view(v)));
            },
            ContentPart::ImageRef { image_url } => {
                let v = object(
                    vec![
                        ("type".to_owned(), text_value("input_image")),
                        ("image_url".to_owned(), JsonValue::String(image_url.url.clone())),
                        ("detail".to_owned(), text_value("auto")),
                    ],
                );
                assert(json_view(v)->Object_0 =~= responses_parts(parts@.take((j + 1) as int)).last()->Object_0);
                items.push(v);
                assert(views(items@) =~= views(before).push(json_view(v)));
            },
            ContentPart::FileRef { file } => {
                let v = object(
                    vec![
                        ("type".to_owned(), text_value("input_file")),
                        ("file_id".to_owned(), opt_value(&file.file_id)),
                        ("file_data".to_owned(), opt_value(&file.file_data)),
                        ("filename".to_owned(), opt_value(&file.filename)),
                    ],
                );
                assert(json_view(v)->Object_0 =~= responses_parts(parts@.take((j + 1) as int)).last()->Object_0);
                items.push(v);
                assert(views(items@) =~= views(before).push(json_view(v)));
            },
            ContentPart::ToolResult { .. } => {
                assert(responses_parts(parts@.take((j + 1) as int)) =~= responses_parts(parts@.take(j as int)));
            },
        }
        j += 1;
    }
    assert(parts@.take(parts.len() as int) =~= parts@);
    array(items)
}

/// An OpenAI responses request body, sampling aside.
pub fn openai_responses_request_body(
    model: &str,
    messages: &[ChatMessage],
    max_tokens: Option<u32>,
    stream: bool,
    schema: Option<JsonValue>,
) -> (r: JsonValue)
    ensures
        json_view(r) == openai_responses_body(model@, messages@, max_tokens, stream, opt_schema(schema)),
{
    let ghost sc_view = opt_schema(schema);
    let mut items: Vec<JsonValue> = Vec::new();
    let mut i: usize = 0;
    while i < messages.len()
        invariant
            i <= messages.len(),
            views(items@) == messages@.take(i as int).map_values(|m: ChatMessage| responses_item(m)),
        decreases messages.len() - i,
    {
        let ghost before = items@;
        let m = &messages[i];
        let content = responses_parts_value(&m.content);
        let item = object(vec![("role".to_owned(), text_value(role_text(m.role))), ("content".to_owned(), content)]);
        assert(json_view(item)->Object_0 =~= responses_item(*m)->Object_0);
        items.push(item);
        assert(messages@.take((i + 1) as int).map_values(|m: ChatMessage| responses_item(m)) =~= messages@.take(
            i as int,
        ).map_values(|m: ChatMessage| responses_item(m)).push(responses_item(messages@[i as int])));
        assert(views(items@) =~= views(before).push(json_view(item)));
        i += 1;
    }
    assert(messages@.take(messages.len() as int) =~= messages@);
    let mut members: Vec<(String, JsonValue)> = Vec::new();
    push_member(&mut members, "model", text_value(model));
    push_member(&mut members, "input", array(items));
    let ghost head = members_view(members@);
    assert(head =~= seq![
        ("model"@, s(model@)),
        ("input"@, JsonView::Array(messages@.map_values(|m: ChatMessage| responses_item(m)))),
    ]);
    let ghost schema_part: Seq<(Seq<char>, JsonView)> = match sc_view {
        Some(sc) => seq![
            (
                "text"@,
                JsonView::Object(
                    seq![
                        (
                            "format"@,
                            JsonView::Object(
                                seq![
                                    ("type"@, s("json_schema"@)),
                                    ("name"@, s("response"@)),
                                    ("schema"@, sc),
                                    ("strict"@, JsonView::Bool(true)),
                                ],
                            ),
                        ),
                    ],
                ),
            ),
        ],
        None => Seq::empty(),
    };
    match schema {
        Some(sc) => {
            let format = object(
                vec![
                    ("type".to_owned(), text_value("json_schema")),
                    ("name".to_owned(), text_value("response")),
                    ("schema".to_owned(), sc),
                    ("strict".to_owned(), JsonValue::Bool(true)),
                ],
            );
            let ghost fv = json_view(format);
            let text = object(vec![("format".to_owned(), format)]);
            assert(fv->Object_0 =~= schema_part[0].1->Object_0[0].1->Object_0);
            assert(json_view(text)->Object_0 =~= schema_part[0].1->Object_0);
            push_member(&mut members, "text", text);
        },
        None => {},
    }
    assert(members_view(members@) =~= head + schema_part);
    let ghost with_schema = members_view(members@);
    let ghost max_part: Seq<(Seq<char>, JsonView)> = match max_tokens {
        Some(m) => seq![("max_output_tokens"@, JsonView::Number(JsonNumber::PosInt(m as u64)))],
        None => Seq::empty(),
    };
    match max_tokens {
        Some(m) => push_member(&mut members, "max_output_tokens", JsonValue::Number(JsonNumber::PosInt(m as u64))),
        None => {},
    }
    assert(members_view(members@) =~= with_schema + max_part);
    let ghost with_max = members_view(members@);
    let ghost stream_part: Seq<(Seq<char>, JsonView)> = if stream {
        seq![("stream"@, JsonView::Bool(true))]
    } else {
        Seq::empty()
    };
    if stream {
        push_member(&mut members, "stream", JsonValue::Bool(true));
    }
    assert(members_view(members@) =~= with_max + stream_part);
    let r = object(members);
    assert(members_view(members@) =~= json_view(r)->Object_0);
    assert(json_view(r)->Object_0 =~= openai_responses_body(model@, messages@, max_tokens, stream, sc_view)->Object_0);
    r
}

// ---------------------------------------------------------------------------
// Gemini
// ---------------------------------------------------------------------------

pub open spec fn or_pdf(m: Option<String>) -> Seq<char> {
    match m {
        Some(x) => x@,
        None => "application/pdf"@,
    }
}

/// A part as Gemini takes it: images and documents inline, a document by
/// its uploaded URI where it has one; a tool result as an empty part.
pub open spec fn gemini_part(p: ContentPart) -> JsonView {
    match p {
        ContentPart::Text { text } => JsonView::Object(seq![("text"@, s(text@))]),
        ContentPart::ImageRef { image_url } => JsonView::Object(
            seq![
                (
                    "inline_data"@,
                    JsonView::Object(
                        seq![
                            ("mime_type"@, s(data_url_mime(image_url.url@))),
                            ("data"@, s(data_url_payload(image_url.url@))),
                        ],
                    ),
                ),
            ],
        ),
        ContentPart::FileRef { file } => match file.file_uri {
            Some(uri) => JsonView::Object(
                seq![
                    (
                        "file_data"@,
                        JsonView::Object(seq![("mime_type"@, s(or_pdf(file.mime_type))), ("file_uri"@, s(uri@))]),
                    ),
                ],
            ),
            None => JsonView::Object(
                seq![
                    (
                        "inline_data"@,
                        JsonView::Object(
                            seq![
                                ("mime_type"@, s(or_pdf(file.mime_type))),
                                (
                                    "data"@,
                                    s(
                                        match file.file_data {
                                            Some(d) => d@,
                                            None => Seq::empty(),
                                        },
                                    ),
                                ),
                            ],
                        ),
                    ),
                ],
            ),
        },
        ContentPart::ToolResult { .. } => JsonView::Object(Seq::empty()),
    }
}

/// The contents: every message but the system ones, as the model's or the
/// user's.
pub open spec fn gemini_contents(msgs: Seq<ChatMessage>) -> Seq<JsonView>
    decreases msgs.len(),
{
    if msgs.len() == 0 {
        Seq::empty()
    } else {
        gemini_contents(msgs.drop_last()) + if msgs.last().role == ChatRole::System {
            Seq::empty()
        } else {
            seq![
                JsonView::Object(
                    seq![
                        (
                            "role"@,
                            s(
                                if msgs.last().role == ChatRole::Assistant {
                                    "model"@
                                } else {
                                    "user"@
                                },
                            ),
                        ),
                        ("parts"@, JsonView::Array(msgs.last().content@.map_values(|p: ContentPart| gemini_part(p)))),
                    ],
                ),
            ]
        }
    }
}

/// The generation config, sampling aside: `topK`, the output token limit
/// and the stop sequences where given; a JSON response schema where one is
/// asked for.
pub open spec fn gemini_generation_config(
    top_k: Option<u32>,
    max_tokens: Option<u32>,
    stop: Seq<Seq<char>>,
    schema: Option<JsonView>,
) -> Seq<(Seq<char>, JsonView)> {
    (match top_k {
        Some(k) => seq![("topK"@, JsonView::Number(JsonNumber::PosInt(k as u64)))],
        None => Seq::empty(),
    }) + match max_tokens {
        Some(m) => seq![("maxOutputTokens"@, JsonView::Number(JsonNumber::PosInt(m as u64)))],
        None => Seq::empty(),
    } + if stop.len() > 0 {
        seq![("stopSequences"@, JsonView::Array(stop.map_values(|x: Seq<char>| s(x))))]
    } else {
        Seq::empty()
    } + match schema {
        Some(sc) => seq![("responseSchema"@, sc), ("responseMimeType"@, s("application/json"@))],
        None => Seq::empty(),
    }
}

/// A Gemini request body, sampling aside: the contents; the system
/// instruction where there is any (the first text of each system message,
/// one per line); and the generation config, always present.
pub open spec fn gemini_body(
    msgs: Seq<ChatMessage>,
    top_k: Option<u32>,
    max_tokens: Option<u32>,
    stop: Seq<Seq<char>>,
    schema: Option<JsonView>,
) -> JsonView {
    let system = join_with(system_lines(msgs), "\n"@);
    JsonView::Object(
        seq![("contents"@, JsonView::Array(gemini_contents(msgs)))] + if system.len() > 0 {
            seq![
                (
                    "systemInstruction"@,
                    JsonView::Object(
                        seq![("parts"@, JsonView::Array(seq![JsonView::Object(seq![("text"@, s(system))])]))],
                    ),
                ),
            ]
        } else {
            Seq::empty()
        } + seq![
            (
                "generationConfig"@,
                JsonView::Object(gemini_generation_config(top_k, max_tokens, stop, schema)),
            ),
        ],
    )
}

fn gemini_part_value(p: &ContentPart) -> (r: JsonValue)
    ensures
        json_view(r) == gemini_part(*p),
{
    match p {
        ContentPart::Text { text } => {
            let r = object(vec![("text".to_owned(), JsonValue::String(text.clone()))]);
            assert(json_view(r)->Object_0 =~= gemini_part(*p)->Object_0);
            r
        },
        ContentPart::ImageRef { image_url } => {
            let inner = object(
                vec![
                    ("mime_type".to_owned(), JsonValue::String(image_mime_type_from_data_url(image_url.url.as_str()))),
                    ("data".to_owned(), JsonValue::String(image_base64_from_data_url(image_url.url.as_str()))),
                ],
            );
            let ghost iv = json_view(inner);
            let r = object(vec![("inline_data".to_owned(), inner)]);
            assert(iv->Object_0 =~= gemini_part(*p)->Object_0[0].1->Object_0);
            assert(json_view(r)->Object_0 =~= gemini_part(*p)->Object_0);
            r
        },
        ContentPart::FileRef { file } => match &file.file_uri {
            Some(uri) => {
                let inner = object(
                    vec![
                        ("mime_type".to_owned(), or_text(&file.mime_type, "application/pdf")),
                        ("file_uri".to_owned(), JsonValue::String(uri.clone())),
                    ],
                );
                let ghost iv = json_view(inner);
                let r = object(vec![("file_data".to_owned(), inner)]);
                assert(iv->Object_0 =~= gemini_part(*p)->Object_0[0].1->Object_0);
                assert(json_view(r)->Object_0 =~= gemini_part(*p)->Object_0);
                r
            },
            None => {
                let inner = object(
                    vec![
                        ("mime_type".to_owned(), or_text(&file.mime_type, "application/pdf")),
                        ("data".to_owned(), or_text(&file.file_data, "")),
                    ],
                );
                proof {
                    reveal_strlit("");
                    assert(""@ =~= Seq::<char>::empty());
                }
                let ghost iv = json_view(inner);
                let r = object(vec![("inline_data".to_owned(), inner)]);
                assert(iv->Object_0 =~= gemini_part(*p)->Object_0[0].1->Object_0);
                assert(json_view(r)->Object_0 =~= gemini_part(*p)->Object_0);
                r
            },
        },
        ContentPart::ToolResult { .. } => {
            let r = object(Vec::new());
            assert(json_view(r)->Object_0 =~= Seq::<(Seq<char>, JsonView)>::empty());
            r
        },
    }
}

fn gemini_parts(parts: &Vec<ContentPart>) -> (r: JsonValue)
    ensures
        json_view(r) == JsonView::Array(parts@.map_values(|p: ContentPart| gemini_part(p))),
{
    let mut items: Vec<JsonValue> = Vec::new();
    let mut j: usize = 0;
    while j < parts.len()
        invariant
            j <= parts.len(),
            views(items@) == parts@.take(j as int).map_values(|p: ContentPart| gemini_part(p)),
        decreases parts.len() - j,
    {
        let ghost before = items@;
        let v = gemini_part_value(&parts[j]);
        items.push(v);
        assert(parts@.take((j + 1) as int).map_values(|p: ContentPart| gemini_part(p)) =~= parts@.take(
            j as int,
        ).map_values(|p: ContentPart| gemini_part(p)).push(gemini_part(parts@[j as int])));
        assert(views(items@) =~= views(before).push(json_view(v)));
        j += 1;
    }
    assert(parts@.take(parts.len() as int) =~= parts@);
    array(items)
}

fn string_values(v: &Vec<String>) -> (r: JsonValue)
    ensures
        json_view(r) == JsonView::Array(strings_view(v@).map_values(|x: Seq<char>| s(x))),
{
    let mut items: Vec<JsonValue> = Vec::new();
    let mut j: usize = 0;
    while j < v.len()
        invariant
            j <= v.len(),
            views(items@) == strings_view(v@).take(j as int).map_values(|x: Seq<char>| s(x)),
        decreases v.len() - j,
    {
        let ghost before = items@;
        let x = JsonValue::String(v[j].clone());
        items.push(x);
        assert(strings_view(v@).take((j + 1) as int).map_values(|x: Seq<char>| s(x)) =~= strings_view(v@).take(
            j as int,
        ).map_values(|x: Seq<char>| s(x)).push(s(v@[j as int]@)));
        assert(views(items@) =~= views(before).push(json_view(x)));
        j += 1;
    }
    assert(strings_view(v@).take(v.len() as int) =~= strings_view(v@));
    array(items)
}

/// A Gemini request body, sampling aside.
pub fn gemini_request_body(
    messages: &[ChatMessage],
    top_k: Option<u32>,
    max_tokens: Option<u32>,
    stop_sequences: &Vec<String>,
    schema: Option<JsonValue>,
) -> (r: JsonValue)
    ensures
        json_view(r) == gemini_body(messages@, top_k, max_tokens, strings_view(stop_sequences@), opt_schema(schema)),
{
    let ghost sc_view = opt_schema(schema);
    let mut lines: Vec<String> = Vec::new();
    let mut contents: Vec<JsonValue> = Vec::new();
    let mut i: usize = 0;
    while i < messages.len()
        invariant
            i <= messages.len(),
            strings_view(lines@) == system_lines(messages@.take(i as int)),
            views(contents@) == gemini_contents(messages@.take(i as int)),
        decreases messages.len() - i,
    {
        let m = &messages[i];
        assert(messages@.take((i + 1) as int).drop_last() =~= messages@.take(i as int));
        let ghost l0 = lines@;
        let ghost c0 = contents@;
        if m.role == ChatRole::System {
            match first_text_of(&m.content) {
                Some(t) => {
                    lines.push(t);
                    assert(strings_view(lines@) =~= strings_view(l0).push(lines@.last()@));
                },
                None => {
                    assert(strings_view(lines@) =~= system_lines(messages@.take((i + 1) as int)));
                },
            }
            assert(views(contents@) =~= gemini_contents(messages@.take((i + 1) as int)));
        } else {
            let role = if m.role == ChatRole::Assistant {
                text_value("model")
            } else {
                text_value("user")
            };
            let parts = gemini_parts(&m.content);
            let item = object(vec![("role".to_owned(), role), ("parts".to_owned(), parts)]);
            assert(json_view(item)->Object_0 =~= gemini_contents(messages@.take((i + 1) as int)).last()->Object_0);
            contents.push(item);
            assert(views(contents@) =~= views(c0).push(json_view(item)));
            assert(strings_view(lines@) =~= system_lines(messages@.take((i + 1) as int)));
        }
        i += 1;
    }
    assert(messages@.take(messages.len() as int) =~= messages@);
    let system = join_strings(&lines, "\n");
    let mut config: Vec<(String, JsonValue)> = Vec::new();
    assert(members_view(config@) =~= Seq::empty());
    match top_k {
        Some(k) => push_member(&mut config, "topK", JsonValue::Number(JsonNumber::PosInt(k as u64))),
        None => {},
    }
    let ghost c1 = members_view(config@);
    match max_tokens {
        Some(m) => push_member(&mut config, "maxOutputTokens", JsonValue::Number(JsonNumber::PosInt(m as u64))),
        None => {},
    }
    let ghost c2 = members_view(config@);
    if stop_sequences.len() > 0 {
        push_member(&mut config, "stopSequences", string_values(stop_sequences));
    }
    let ghost c3 = members_view(config@);
    match schema {
        Some(sc) => {
            push_member(&mut config, "responseSchema", sc);
            push_member(&mut config, "responseMimeType", text_value("application/json"));
        },
        None => {},
    }
    assert(members_view(config@) =~= gemini_generation_config(top_k, max_tokens, strings_view(stop_sequences@), sc_view));
    let mut members: Vec<(String, JsonValue)> = Vec::new();
    push_member(&mut members, "contents", array(contents));
    let ghost head = members_view(members@);
    if str_chars(system.as_str()).len() > 0 {
        let ghost sys = system@;
        let text = object(vec![("text".to_owned(), JsonValue::String(system))]);
        let ghost tv = json_view(text);
        let parts = array(vec![text]);
        let ghost pv = json_view(parts);
        let instruction = object(vec![("parts".to_owned(), parts)]);
        assert(tv->Object_0 =~= seq![("text"@, s(sys))]);
        assert(pv->Array_0 =~= seq![tv]);
        assert(json_view(instruction)->Object_0 =~= seq![("parts"@, pv)]);
        push_member(&mut members, "systemInstruction", instruction);
    }
    let ghost with_system = members_view(members@);
    push_member(&mut members, "generationConfig", object(config));
    let r = object(members);
    assert(members_view(members@) =~= json_view(r)->Object_0);
    assert(json_view(r)->Object_0 =~= gemini_body(
        messages@,
        top_k,
        max_tokens,
        strings_view(stop_sequences@),
        sc_view,
    )->Object_0);
    r
}

} // verus!
