use smart_tavern::json::JsonValue;
use smart_tavern::provider_responses::{
    anthropic_chat_response, anthropic_model_info, anthropic_stream_chunk, anthropic_tool_input,
    claude_code_chat_response, claude_code_model_info, gemini_chat_response, gemini_model_info,
    gemini_response_text, gemini_stream_chunk, openai_chat_response, openai_model_info, openai_response_text,
    parse_claude_code_stream_data, parse_openai_stream_data, parse_responses_stream_data, responses_chat_response,
    responses_text, sse_data_payloads, structured_output_tool, text_lines, AnthropicContent, AnthropicDelta,
    AnthropicResponse, AnthropicStreamEvent, AnthropicUsage, ClaudeCodeContentBlock, ClaudeCodeResponse,
    ClaudeCodeStreamEvent, ClaudeCodeUsage, GeminiCandidate, GeminiContent, GeminiPart, GeminiResponse,
    GeminiUsage, OpenAIChoice, OpenAIDelta, OpenAIMessage, OpenAIResponse, OpenAIStreamChoice,
    OpenAIStreamChunk, OpenAIUsage, ResponsesApiResponse, ResponsesContent, ResponsesOutput,
    ResponsesStreamEvent, ResponsesUsage, TokenUsage,
};

#[test]
fn parses_openai_stream_delta() {
    let data = r#"{"choices":[{"delta":{"content":"hello"},"finish_reason":null}]}"#;
    let parsed = OpenAIStreamChunk {
        choices: vec![OpenAIStreamChoice { delta: OpenAIDelta { content: Some("hello".to_string()) }, finish_reason: None }],
    };
    let chunk = parse_openai_stream_data(data, Some(parsed)).expect("chunk").expect("ok");
    assert_eq!(chunk.delta, "hello");
    assert_eq!(chunk.finish_reason, None);
}

#[test]
fn parses_responses_stream_delta() {
    let parsed = ResponsesStreamEvent {
        event_type: "response.output_text.delta".to_string(),
        delta: Some("hello".to_string()),
    };
    let chunk = parse_responses_stream_data(Some(parsed)).expect("chunk").expect("ok");
    assert_eq!(chunk.delta, "hello");
    assert_eq!(chunk.finish_reason, None);
}

#[test]
fn parses_claude_code_text_delta() {
    let data = r#"{"type":"content_block_delta","delta":{"type":"text_delta","text":"hello"}}"#;
    let parsed = ClaudeCodeStreamEvent::ContentBlockDelta {
        delta_type: "text_delta".to_string(),
        text: Some("hello".to_string()),
    };
    let chunk = parse_claude_code_stream_data(data, Some(parsed)).expect("chunk").expect("ok");
    assert_eq!(chunk.delta, "hello");
    assert_eq!(chunk.finish_reason, None);
    assert_eq!(chunk.raw_sse_data, Some(data.to_string()));
}

#[test]
fn openai_stream_ends_and_skips() {
    let done = parse_openai_stream_data("[DONE]", None).unwrap().unwrap();
    assert_eq!(done.delta, "");
    assert_eq!(done.finish_reason, Some("stop".to_string()));
    assert!(parse_openai_stream_data("garbage", None).is_none());
    assert!(parse_openai_stream_data("{}", Some(OpenAIStreamChunk { choices: vec![] })).is_none());
    let no_text = OpenAIStreamChunk {
        choices: vec![OpenAIStreamChoice { delta: OpenAIDelta { content: None }, finish_reason: Some("length".to_string()) }],
    };
    let c = parse_openai_stream_data("{}", Some(no_text)).unwrap().unwrap();
    assert_eq!((c.delta.as_str(), c.finish_reason.as_deref()), ("", Some("length")));
}

#[test]
fn responses_stream_events() {
    let ev = |t: &str, d: Option<&str>| Some(ResponsesStreamEvent { event_type: t.to_string(), delta: d.map(|x| x.to_string()) });
    let done = parse_responses_stream_data(ev("response.done", None)).unwrap().unwrap();
    assert_eq!(done.finish_reason, Some("stop".to_string()));
    assert!(parse_responses_stream_data(ev("response.output_text.delta", None)).is_none());
    assert!(parse_responses_stream_data(ev("response.created", Some("x"))).is_none());
    assert!(parse_responses_stream_data(None).is_none());
}

#[test]
fn claude_code_stream_events_carry_raw_data() {
    let stop = parse_claude_code_stream_data("d", Some(ClaudeCodeStreamEvent::MessageDelta { stop_reason: Some("end_turn".to_string()) }))
        .unwrap()
        .unwrap();
    assert_eq!((stop.delta.as_str(), stop.finish_reason.as_deref(), stop.raw_sse_data.as_deref()), ("", Some("end_turn"), Some("d")));
    let other = parse_claude_code_stream_data("ping", Some(ClaudeCodeStreamEvent::Other)).unwrap().unwrap();
    assert_eq!((other.delta.as_str(), other.finish_reason, other.raw_sse_data.as_deref()), ("", None, Some("ping")));
    assert!(parse_claude_code_stream_data("x", None).is_none());
    assert!(parse_claude_code_stream_data("x", Some(ClaudeCodeStreamEvent::ContentBlockDelta { delta_type: "input_json_delta".to_string(), text: None })).is_none());
}

#[test]
fn openai_replies_take_the_first_choice() {
    let body = OpenAIResponse {
        choices: vec![
            OpenAIChoice { message: OpenAIMessage { content: "one".to_string() }, finish_reason: Some("stop".to_string()) },
            OpenAIChoice { message: OpenAIMessage { content: "two".to_string() }, finish_reason: None },
        ],
        usage: Some(OpenAIUsage { prompt_tokens: 3, completion_tokens: 4, total_tokens: 9 }),
    };
    let r = openai_chat_response("req".to_string(), &body);
    assert_eq!(r.request_id, "req");
    assert_eq!(r.content, "one");
    assert_eq!(r.finish_reason, Some("stop".to_string()));
    assert_eq!(r.token_usage, Some(TokenUsage { prompt_tokens: 3, completion_tokens: 4, total_tokens: 9 }));
    let empty = OpenAIResponse { choices: vec![], usage: None };
    assert_eq!(openai_response_text(&empty), "");
    assert_eq!(openai_chat_response("r".to_string(), &empty).finish_reason, None);
}

fn block(t: &str, text: Option<&str>, input: Option<JsonValue>) -> AnthropicContent {
    AnthropicContent { content_type: t.to_string(), text: text.map(|x| x.to_string()), input }
}

#[test]
fn anthropic_replies_join_text_and_sum_usage() {
    let body = AnthropicResponse {
        content: vec![block("text", Some("Hel"), None), block("tool_use", Some("x"), None), block("text", Some("lo"), None), block("text", None, None)],
        usage: Some(AnthropicUsage { input_tokens: 10, output_tokens: 5 }),
        stop_reason: Some("end_turn".to_string()),
    };
    let r = anthropic_chat_response("req".to_string(), &body);
    assert_eq!(r.content, "Hello");
    assert_eq!(r.token_usage, Some(TokenUsage { prompt_tokens: 10, completion_tokens: 5, total_tokens: 15 }));
    assert_eq!(r.finish_reason, Some("end_turn".to_string()));
}

#[test]
fn anthropic_tool_input_is_the_first_tool_use() {
    let body = AnthropicResponse {
        content: vec![block("text", Some("hi"), None), block("tool_use", None, Some(JsonValue::Bool(true))), block("tool_use", None, Some(JsonValue::Null))],
        usage: None,
        stop_reason: None,
    };
    assert!(matches!(anthropic_tool_input(&body), Ok(JsonValue::Bool(true))));
    let missing = AnthropicResponse { content: vec![block("tool_use", None, None), block("tool_use", None, Some(JsonValue::Null))], usage: None, stop_reason: None };
    assert_eq!(anthropic_tool_input(&missing).err(), Some("No tool use in response".to_string()));
    let none = AnthropicResponse { content: vec![], usage: None, stop_reason: None };
    assert_eq!(anthropic_tool_input(&none).err(), Some("No tool use in response".to_string()));
}

#[test]
fn stream_text_is_cut_into_data_payloads() {
    let lines: Vec<String> = text_lines("a\r\nb\n\nc\r").into_iter().map(|l| l.into_iter().collect()).collect();
    assert_eq!(lines, vec!["a", "b", "", "c\r"]);
    let payloads = sse_data_payloads("event: x\ndata: {\"a\":1}\r\n\ndata: [DONE]\ndata:nospace\n");
    assert_eq!(payloads, vec!["{\"a\":1}".to_string(), "[DONE]".to_string()]);
    assert!(sse_data_payloads("").is_empty());
}

fn anthropic_event(t: &str, delta: Option<(&str, &str)>) -> Option<AnthropicStreamEvent> {
    Some(AnthropicStreamEvent {
        event_type: t.to_string(),
        delta: delta.map(|(dt, text)| AnthropicDelta { delta_type: dt.to_string(), text: text.to_string() }),
    })
}

#[test]
fn anthropic_stream_takes_the_first_decisive_event() {
    let c = anthropic_stream_chunk(&vec![
        None,
        anthropic_event("message_start", None),
        anthropic_event("content_block_delta", Some(("input_json_delta", "{"))),
        anthropic_event("content_block_delta", Some(("text_delta", "Hi"))),
        anthropic_event("message_stop", None),
    ]);
    assert_eq!((c.delta.as_str(), c.finish_reason.as_deref()), ("Hi", None));
    let stop = anthropic_stream_chunk(&vec![anthropic_event("message_stop", None)]);
    assert_eq!((stop.delta.as_str(), stop.finish_reason.as_deref()), ("", Some("stop")));
    let empty = anthropic_stream_chunk(&vec![anthropic_event("ping", None)]);
    assert_eq!((empty.delta.as_str(), empty.finish_reason), ("", None));
}

#[test]
fn responses_replies_join_message_texts() {
    let out = |t: &str, texts: &[&str]| ResponsesOutput {
        output_type: t.to_string(),
        content: texts.iter().map(|x| ResponsesContent { text: x.to_string() }).collect(),
    };
    let body = ResponsesApiResponse {
        id: "resp".to_string(),
        output: vec![out("reasoning", &["skip"]), out("message", &["A", "ignored"]), out("message", &[]), out("message", &["B"])],
        usage: Some(ResponsesUsage { input_tokens: 1, output_tokens: 2 }),
        status: Some("completed".to_string()),
    };
    assert_eq!(responses_text(&body), "AB");
    let r = responses_chat_response("req".to_string(), &body, Some(JsonValue::Null));
    assert_eq!(r.content, "AB");
    assert_eq!(r.token_usage, Some(TokenUsage { prompt_tokens: 1, completion_tokens: 2, total_tokens: 3 }));
    assert_eq!(r.finish_reason, Some("completed".to_string()));
    assert!(matches!(r.raw_response, Some(JsonValue::Null)));
}

fn gemini(text: Option<&str>, finish: Option<&str>) -> GeminiResponse {
    GeminiResponse {
        candidates: vec![GeminiCandidate {
            content: GeminiContent { parts: vec![GeminiPart { text: text.map(|t| t.to_string()) }] },
            finish_reason: finish.map(|f| f.to_string()),
        }],
        usage_metadata: Some(GeminiUsage { prompt_token_count: 2, candidates_token_count: 3, total_token_count: 7 }),
    }
}

#[test]
fn gemini_replies_and_streams() {
    let r = gemini_chat_response("req".to_string(), &gemini(Some("hey"), Some("STOP")));
    assert_eq!(r.content, "hey");
    assert_eq!(r.finish_reason, Some("STOP".to_string()));
    assert_eq!(r.token_usage, Some(TokenUsage { prompt_tokens: 2, completion_tokens: 3, total_tokens: 7 }));
    assert_eq!(gemini_response_text(&GeminiResponse { candidates: vec![], usage_metadata: None }), "");
    let c = gemini_stream_chunk(&vec![None, Some(gemini(None, Some("X"))), Some(gemini(Some("t"), Some("STOP")))]);
    assert_eq!((c.delta.as_str(), c.finish_reason.as_deref()), ("t", Some("STOP")));
    let e = gemini_stream_chunk(&vec![]);
    assert_eq!((e.delta.as_str(), e.finish_reason), ("", None));
}

#[test]
fn agent_server_replies_split_text_thinking_and_tools() {
    let body = ClaudeCodeResponse {
        content: vec![
            ClaudeCodeContentBlock::Thinking { thinking: "hmm".to_string() },
            ClaudeCodeContentBlock::Text { text: "A".to_string() },
            ClaudeCodeContentBlock::RedactedThinking,
            ClaudeCodeContentBlock::ToolUse { id: "t1".to_string(), name: "other".to_string(), input: JsonValue::Null },
            ClaudeCodeContentBlock::ToolUse { id: "t2".to_string(), name: "structured_output".to_string(), input: JsonValue::Bool(true) },
            ClaudeCodeContentBlock::Text { text: "B".to_string() },
            ClaudeCodeContentBlock::Other,
        ],
        usage: Some(ClaudeCodeUsage { input_tokens: 4, output_tokens: 6 }),
        stop_reason: Some("end_turn".to_string()),
    };
    assert_eq!(body.text_content(), "AB");
    assert_eq!(body.reasoning_content(), Some("hmm".to_string()));
    assert!(matches!(body.tool_input(structured_output_tool()), Some(JsonValue::Bool(true))));
    assert!(body.tool_input("missing").is_none());
    let r = claude_code_chat_response("req".to_string(), &body, None);
    assert_eq!(r.token_usage, Some(TokenUsage { prompt_tokens: 4, completion_tokens: 6, total_tokens: 10 }));
    let plain = ClaudeCodeResponse { content: vec![ClaudeCodeContentBlock::Text { text: "x".to_string() }], usage: None, stop_reason: None };
    assert_eq!(plain.reasoning_content(), None);
}

#[test]
fn model_infos_by_provider() {
    let m = openai_model_info("gpt-4o".to_string(), "openai".to_string());
    assert_eq!((m.id.as_str(), m.owned_by.as_deref(), m.display_name), ("gpt-4o", Some("openai"), None));
    let a = anthropic_model_info("m1".to_string(), "Model One".to_string(), 200000, 8192, None);
    assert_eq!((a.owned_by.as_deref(), a.max_input_tokens, a.max_output_tokens), (Some("anthropic"), Some(200000), Some(8192)));
    let g = gemini_model_info("models/gemini-2.0-flash", "Flash".to_string(), 1000, 100);
    assert_eq!((g.id.as_str(), g.owned_by.as_deref()), ("gemini-2.0-flash", Some("google")));
    assert_eq!(gemini_model_info("tuned", String::new(), 0, 0).id, "tuned");
    let c = claude_code_model_info("local-model".to_string());
    assert_eq!((c.id.as_str(), c.display_name.as_deref(), c.owned_by.as_deref()), ("local-model", Some("local-model"), Some("claude_code")));
}
