//! What model providers answer, as the library reads it: the text, token
//! usage and finish reason of a reply, the tool input of a structured reply,
//! and the chunks of a streamed reply.

use vstd::prelude::*;
use crate::json::{json_view, JsonValue};
use crate::text::{chars_to_string, has_prefix, join_strings, join_with, starts_with, str_chars, str_eq, strings_view, sub_chars};

verus! {

/// Tokens a request used.
#[derive(Debug, Clone, Copy, PartialEq, Eq)]
pub struct TokenUsage {
    pub prompt_tokens: u32,
    pub completion_tokens: u32,
    pub total_tokens: u32,
}

/// A provider's reply to a chat request.
#[derive(Debug)]
pub struct ChatResponse {
    pub request_id: String,
    pub content: String,
    pub reasoning: Option<String>,
    pub token_usage: Option<TokenUsage>,
    pub finish_reason: Option<String>,
    pub raw_response: Option<JsonValue>,
}

/// One piece of a streamed reply.
#[derive(Debug, Clone, PartialEq, Eq)]
pub struct StreamChunk {
    pub delta: String,
    pub finish_reason: Option<String>,
    pub raw_sse_data: Option<String>,
}

pub open spec fn opt_text(o: Option<String>) -> Option<Seq<char>> {
    match o {
        Some(s) => Some(s@),
        None => None,
    }
}

fn clone_opt(o: &Option<String>) -> (r: Option<String>)
    ensures
        opt_text(r) == opt_text(*o),
{
    match o {
        Some(s) => Some(s.clone()),
        None => None,
    }
}

/// The chunk that ends a stream.
fn stop_chunk(raw: Option<String>) -> (r: StreamChunk)
    ensures
        r.delta@ == Seq::<char>::empty(),
        opt_text(r.finish_reason) == Some("stop"@),
        r.raw_sse_data == raw,
{
    StreamChunk { delta: String::new(), finish_reason: Some("stop".to_owned()), raw_sse_data: raw }
}

/// The texts joined with nothing between them.
pub open spec fn joined(parts: Seq<Seq<char>>) -> Seq<char> {
    join_with(parts, ""@)
}

// ---------------------------------------------------------------------------
// Server-sent event lines
// ---------------------------------------------------------------------------

/// A line without the carriage return that ended it.
pub open spec fn strip_cr(line: Seq<char>) -> Seq<char> {
    if line.len() > 0 && line.last() == '\r' {
        line.drop_last()
    } else {
        line
    }
}

/// Index of the first line feed in `s` at or after `i`.
pub open spec fn newline_from(s: Seq<char>, i: int) -> Option<int>
    decreases s.len() - i,
{
    if i < 0 || i >= s.len() {
        None
    } else if s[i] == '\n' {
        Some(i)
    } else {
        newline_from(s, i + 1)
    }
}

/// `str::lines`: the text cut at each line feed, a carriage return before
/// it dropped; a last line without a line feed is kept as it is.
pub open spec fn lines_of(s: Seq<char>) -> Seq<Seq<char>>
    decreases s.len(),
{
    if s.len() == 0 {
        Seq::empty()
    } else {
        match newline_from(s, 0) {
            Some(i) => if 0 <= i < s.len() {
                seq![strip_cr(s.take(i))] + lines_of(s.skip(i + 1))
            } else {
                seq![s]
            },
            None => seq![s],
        }
    }
}

/// The payloads of the `data: ` lines, in order.
pub open spec fn data_payloads_of(lines: Seq<Seq<char>>) -> Seq<Seq<char>>
    decreases lines.len(),
{
    if lines.len() == 0 {
        Seq::empty()
    } else {
        let rest = data_payloads_of(lines.drop_last());
        let l = lines.last();
        if starts_with(l, "data: "@) {
            rest.push(l.skip(6))
        } else {
            rest
        }
    }
}

proof fn lemma_newline_range(s: Seq<char>, i: int)
    requires
        0 <= i,
    ensures
        newline_from(s, i) matches Some(j) ==> i <= j < s.len() && s[j] == '\n' && (forall|k: int|
            i <= k < j ==> s[k] != '\n'),
        newline_from(s, i) is None ==> forall|k: int| i <= k < s.len() && 0 <= k ==> s[k] != '\n',
    decreases s.len() - i,
{
    if i < s.len() && s[i] != '\n' {
        lemma_newline_range(s, i + 1);
    }
}

fn strip_cr_exec(line: Vec<char>) -> (r: Vec<char>)
    ensures
        r@ == strip_cr(line@),
{
    if line.len() > 0 && line[line.len() - 1] == '\r' {
        sub_chars(&line, 0, line.len() - 1)
    } else {
        line
    }
}

/// The lines of a text, as `str::lines` cuts them.
pub fn text_lines(text: &str) -> (r: Vec<Vec<char>>)
    ensures
        r@.map_values(|l: Vec<char>| l@) == lines_of(text@),
{
    let v = str_chars(text);
    let mut out: Vec<Vec<char>> = Vec::new();
    let mut start: usize = 0;
    let mut i: usize = 0;
    proof {
        assert(v@.skip(0) =~= v@);
    }
    while i < v.len()
        invariant
            start <= i <= v.len(),
            v@ == text@,
            forall|k: int| start <= k < i ==> v@[k] != '\n',
            out@.map_values(|l: Vec<char>| l@) + lines_of(v@.skip(start as int)) == lines_of(v@),
        decreases v.len() - i,
    {
        if v[i] == '\n' {
            let ghost rest = v@.skip(start as int);
            proof {
                lemma_newline_range(rest, 0);
                assert(rest[i - start] == '\n');
                assert forall|k: int| 0 <= k < i - start implies rest[k] != '\n' by {
                    assert(rest[k] == v@[start + k]);
                }
                if newline_from(rest, 0) != Some(i - start) {
                    match newline_from(rest, 0) {
                        Some(j) => {
                            if j < i - start {
                                assert(rest[j] == v@[start + j]);
                            }
                        },
                        None => {},
                    }
                }
                assert(rest.take(i - start) =~= v@.subrange(start as int, i as int));
                assert(rest.skip(i - start + 1) =~= v@.skip(i + 1));
            }
            let line = strip_cr_exec(sub_chars(&v, start, i));
            let ghost before = out@.map_values(|l: Vec<char>| l@);
            out.push(line);
            assert(out@.map_values(|l: Vec<char>| l@) =~= before.push(strip_cr(rest.take(i - start))));
            assert(before.push(strip_cr(rest.take(i - start))) + lines_of(v@.skip(i + 1)) =~= before + (seq![
                strip_cr(rest.take(i - start)),
            ] + lines_of(rest.skip(i - start + 1))));
            start = i + 1;
        }
        i += 1;
    }
    if start < v.len() {
        let ghost rest = v@.skip(start as int);
        proof {
            lemma_newline_range(rest, 0);
            if newline_from(rest, 0) is Some {
                let j = newline_from(rest, 0)->0;
                assert(rest[j] == v@[start + j]);
            }
            assert(lines_of(rest) == seq![rest]);
        }
        let ghost before = out@.map_values(|l: Vec<char>| l@);
        out.push(sub_chars(&v, start, v.len()));
        assert(out@.map_values(|l: Vec<char>| l@) =~= before + seq![rest]);
    } else {
        assert(v@.skip(start as int) =~= Seq::<char>::empty());
        assert(out@.map_values(|l: Vec<char>| l@) =~= out@.map_values(|l: Vec<char>| l@) + Seq::<Seq<char>>::empty());
    }
    out
}

/// The payloads of the `data: ` lines of a streamed text, in order.
pub fn sse_data_payloads(text: &str) -> (r: Vec<String>)
    ensures
        strings_view(r@) == data_payloads_of(lines_of(text@)),
{
    let lines = text_lines(text);
    let ghost lv = lines@.map_values(|l: Vec<char>| l@);
    let prefix = str_chars("data: ");
    proof {
        reveal_strlit("data: ");
    }
    let mut out: Vec<String> = Vec::new();
    let mut i: usize = 0;
    while i < lines.len()
        invariant
            i <= lines.len(),
            lv == lines@.map_values(|l: Vec<char>| l@),
            prefix@ == "data: "@,
            prefix@.len() == 6,
            strings_view(out@) == data_payloads_of(lv.take(i as int)),
        decreases lines.len() - i,
    {
        let ghost t = lv.take(i + 1);
        assert(t.drop_last() =~= lv.take(i as int));
        assert(t.last() == lines@[i as int]@);
        if has_prefix(&lines[i], &prefix) {
            let p = sub_chars(&lines[i], 6, lines[i].len());
            let ghost before = strings_view(out@);
            out.push(chars_to_string(&p));
            assert(p@ =~= lines@[i as int]@.skip(6));
            assert(strings_view(out@) =~= before.push(p@));
        }
        i += 1;
    }
    assert(lv.take(i as int) =~= lv);
    out
}

// ---------------------------------------------------------------------------
// OpenAI chat completions
// ---------------------------------------------------------------------------

#[derive(Debug, Clone)]
pub struct OpenAIMessage {
    pub content: String,
}

#[derive(Debug, Clone)]
pub struct OpenAIChoice {
    pub message: OpenAIMessage,
    pub finish_reason: Option<String>,
}

#[derive(Debug, Clone, Copy)]
pub struct OpenAIUsage {
    pub prompt_tokens: u32,
    pub completion_tokens: u32,
    pub total_tokens: u32,
}

/// A chat completion.
#[derive(Debug, Clone)]
pub struct OpenAIResponse {
    pub choices: Vec<OpenAIChoice>,
    pub usage: Option<OpenAIUsage>,
}

/// The text of the first choice, empty where there is none.
pub open spec fn openai_text(body: OpenAIResponse) -> Seq<char> {
    if body.choices@.len() > 0 {
        body.choices@[0].message.content@
    } else {
        Seq::empty()
    }
}

/// The text of a chat completion: that of its first choice, empty where it
/// has none. A structured reply is this text, parsed as JSON.
pub fn openai_response_text(body: &OpenAIResponse) -> (r: String)
    ensures
        r@ == openai_text(*body),
{
    if body.choices.len() > 0 {
        body.choices[0].message.content.clone()
    } else {
        String::new()
    }
}

/// The reply of a chat completion: its first choice's text and finish
/// reason, and the usage as reported.
pub fn openai_chat_response(request_id: String, body: &OpenAIResponse) -> (r: ChatResponse)
    ensures
        r.request_id == request_id,
        r.content@ == openai_text(*body),
        r.reasoning is None,
        r.token_usage == (match body.usage {
            Some(u) => Some(
                TokenUsage {
                    prompt_tokens: u.prompt_tokens,
                    completion_tokens: u.completion_tokens,
                    total_tokens: u.total_tokens,
                },
            ),
            None => None,
        }),
        opt_text(r.finish_reason) == (if body.choices@.len() > 0 {
            opt_text(body.choices@[0].finish_reason)
        } else {
            None
        }),
        r.raw_response is None,
{
    let content = openai_response_text(body);
    let token_usage = match body.usage {
        Some(u) => Some(
            TokenUsage {
                prompt_tokens: u.prompt_tokens,
                completion_tokens: u.completion_tokens,
                total_tokens: u.total_tokens,
            },
        ),
        None => None,
    };
    let finish_reason = if body.choices.len() > 0 {
        clone_opt(&body.choices[0].finish_reason)
    } else {
        None
    };
    ChatResponse { request_id, content, reasoning: None, token_usage, finish_reason, raw_response: None }
}

#[derive(Debug, Clone)]
pub struct OpenAIDelta {
    pub content: Option<String>,
}

#[derive(Debug, Clone)]
pub struct OpenAIStreamChoice {
    pub delta: OpenAIDelta,
    pub finish_reason: Option<String>,
}

/// One event of a streamed chat completion.
#[derive(Debug, Clone)]
pub struct OpenAIStreamChunk {
    pub choices: Vec<OpenAIStreamChoice>,
}

/// The chunk of one event of a streamed chat completion, from the event's
/// data and its parse (none where it is not a chunk): `[DONE]` ends the
/// stream; a chunk gives its first choice's text (empty where it has none)
/// and finish reason; a chunk without choices, or data that is not a chunk,
/// gives nothing.
pub fn parse_openai_stream_data(data: &str, parsed: Option<OpenAIStreamChunk>) -> (r: Option<Result<StreamChunk, String>>)
    ensures
        data@ == "[DONE]"@ ==> (r matches Some(Ok(c)) && c.delta@.len() == 0 && opt_text(c.finish_reason) == Some(
            "stop"@,
        ) && c.raw_sse_data is None),
        data@ != "[DONE]"@ ==> match parsed {
            Some(p) if p.choices@.len() > 0 => r matches Some(Ok(c)) && c.delta@ == (match p.choices@[0].delta.content {
                Some(t) => t@,
                None => Seq::<char>::empty(),
            }) && opt_text(c.finish_reason) == opt_text(p.choices@[0].finish_reason) && c.raw_sse_data is None,
            _ => r is None,
        },
{
    if str_eq(data, "[DONE]") {
        return Some(Ok(stop_chunk(None)));
    }
    let chunk = match parsed {
        Some(p) => p,
        None => return None,
    };
    if chunk.choices.len() == 0 {
        return None;
    }
    let choice = &chunk.choices[0];
    let delta = match &choice.delta.content {
        Some(t) => t.clone(),
        None => String::new(),
    };
    Some(Ok(StreamChunk { delta, finish_reason: clone_opt(&choice.finish_reason), raw_sse_data: None }))
}

// ---------------------------------------------------------------------------
// Anthropic messages
// ---------------------------------------------------------------------------

/// A block of an Anthropic reply.
#[derive(Debug)]
pub struct AnthropicContent {
    pub content_type: String,
    pub text: Option<String>,
    pub input: Option<JsonValue>,
}

#[derive(Debug, Clone, Copy)]
pub struct AnthropicUsage {
    pub input_tokens: u32,
    pub output_tokens: u32,
}

/// An Anthropic reply.
#[derive(Debug)]
pub struct AnthropicResponse {
    pub content: Vec<AnthropicContent>,
    pub usage: Option<AnthropicUsage>,
    pub stop_reason: Option<String>,
}

/// The texts of the text blocks, in order.
pub open spec fn anthropic_texts(blocks: Seq<AnthropicContent>) -> Seq<Seq<char>>
    decreases blocks.len(),
{
    if blocks.len() == 0 {
        Seq::empty()
    } else {
        let rest = anthropic_texts(blocks.drop_last());
        let b = blocks.last();
        if b.content_type@ == "text"@ {
            match b.text {
                Some(t) => rest.push(t@),
                None => rest,
            }
        } else {
            rest
        }
    }
}

/// Usage whose total is the sum of input and output tokens.
pub open spec fn summed_usage(input_tokens: u32, output_tokens: u32) -> TokenUsage {
    TokenUsage {
        prompt_tokens: input_tokens,
        completion_tokens: output_tokens,
        total_tokens: (input_tokens + output_tokens) as u32,
    }
}

/// The usage fits: its total does not overflow.
pub open spec fn usage_fits(u: Option<AnthropicUsage>) -> bool {
    match u {
        Some(x) => x.input_tokens + x.output_tokens <= u32::MAX,
        None => true,
    }
}

fn anthropic_text(blocks: &Vec<AnthropicContent>) -> (r: String)
    ensures
        r@ == joined(anthropic_texts(blocks@)),
{
    let mut parts: Vec<String> = Vec::new();
    let mut i: usize = 0;
    while i < blocks.len()
        invariant
            i <= blocks.len(),
            strings_view(parts@) == anthropic_texts(blocks@.take(i as int)),
        decreases blocks.len() - i,
    {
        let ghost t = blocks@.take(i + 1);
        assert(t.drop_last() =~= blocks@.take(i as int));
        assert(t.last() == blocks@[i as int]);
        if str_eq(blocks[i].content_type.as_str(), "text") {
            match &blocks[i].text {
                Some(x) => {
                    let ghost before = strings_view(parts@);
                    parts.push(x.clone());
                    assert(strings_view(parts@) =~= before.push(x@));
                },
                None => {},
            }
        }
        i += 1;
    }
    assert(blocks@.take(i as int) =~= blocks@);
    join_strings(&parts, "")
}

/// The reply of an Anthropic message: its text blocks joined, its stop
/// reason, and its usage with the total summed.
pub fn anthropic_chat_response(request_id: String, body: &AnthropicResponse) -> (r: ChatResponse)
    requires
        usage_fits(body.usage),
    ensures
        r.request_id == request_id,
        r.content@ == joined(anthropic_texts(body.content@)),
        r.reasoning is None,
        r.token_usage == (match body.usage {
            Some(u) => Some(summed_usage(u.input_tokens, u.output_tokens)),
            None => None,
        }),
        opt_text(r.finish_reason) == opt_text(body.stop_reason),
        r.raw_response is None,
{
    let content = anthropic_text(&body.content);
    let token_usage = match body.usage {
        Some(u) => Some(
            TokenUsage {
                prompt_tokens: u.input_tokens,
                completion_tokens: u.output_tokens,
                total_tokens: u.input_tokens + u.output_tokens,
            },
        ),
        None => None,
    };
    ChatResponse {
        request_id,
        content,
        reasoning: None,
        token_usage,
        finish_reason: clone_opt(&body.stop_reason),
        raw_response: None,
    }
}

/// Index of the first block of type `tool_use`.
pub open spec fn first_tool_use(blocks: Seq<AnthropicContent>, i: int) -> Option<int>
    decreases blocks.len() - i,
{
    if i < 0 || i >= blocks.len() {
        None
    } else if blocks[i].content_type@ == "tool_use"@ {
        Some(i)
    } else {
        first_tool_use(blocks, i + 1)
    }
}

proof fn lemma_first_tool_use_range(blocks: Seq<AnthropicContent>, i: int)
    requires
        0 <= i,
    ensures
        first_tool_use(blocks, i) matches Some(j) ==> i <= j < blocks.len(),
    decreases blocks.len() - i,
{
    if i < blocks.len() {
        lemma_first_tool_use_range(blocks, i + 1);
    }
}

/// The input of a structured Anthropic reply: that of its first `tool_use`
/// block; refused where there is none or it carries no input.
pub fn anthropic_tool_input(body: &AnthropicResponse) -> (r: Result<JsonValue, String>)
    ensures
        match first_tool_use(body.content@, 0) {
            Some(i) => match body.content@[i].input {
                Some(v) => r matches Ok(x) && json_view(x) == json_view(v),
                None => r matches Err(e) && e@ == "No tool use in response"@,
            },
            None => r matches Err(e) && e@ == "No tool use in response"@,
        },
{
    proof {
        lemma_first_tool_use_range(body.content@, 0);
    }
    let mut i: usize = 0;
    while i < body.content.len()
        invariant
            i <= body.content.len(),
            first_tool_use(body.content@, 0) == first_tool_use(body.content@, i as int),
        decreases body.content.len() - i,
    {
        if str_eq(body.content[i].content_type.as_str(), "tool_use") {
            return match &body.content[i].input {
                Some(v) => Ok(v.deep_clone()),
                None => Err("No tool use in response".to_owned()),
            };
        }
        i += 1;
    }
    Err("No tool use in response".to_owned())
}

#[derive(Debug, Clone)]
pub struct AnthropicDelta {
    pub delta_type: String,
    pub text: String,
}

/// One event of a streamed Anthropic reply.
#[derive(Debug, Clone)]
pub struct AnthropicStreamEvent {
    pub event_type: String,
    pub delta: Option<AnthropicDelta>,
}

/// The chunk a received piece of an Anthropic stream gives, from the parse
/// of each of its `data: ` payloads (none where it is not an event): the
/// first text delta, or the end of the message where that comes first;
/// an empty chunk where neither comes.
pub open spec fn anthropic_chunk_of(events: Seq<Option<AnthropicStreamEvent>>) -> Option<(Seq<char>, Option<Seq<char>>)>
    decreases events.len(),
{
    if events.len() == 0 {
        None
    } else {
        match events[0] {
            Some(e) => if e.event_type@ == "content_block_delta"@ {
                match e.delta {
                    Some(d) => if d.delta_type@ == "text_delta"@ {
                        Some((d.text@, None))
                    } else {
                        anthropic_chunk_of(events.drop_first())
                    },
                    None => anthropic_chunk_of(events.drop_first()),
                }
            } else if e.event_type@ == "message_stop"@ {
                Some((Seq::empty(), Some("stop"@)))
            } else {
                anthropic_chunk_of(events.drop_first())
            },
            None => anthropic_chunk_of(events.drop_first()),
        }
    }
}

/// The chunk a received piece of an Anthropic stream gives.
pub fn anthropic_stream_chunk(events: &Vec<Option<AnthropicStreamEvent>>) -> (r: StreamChunk)
    ensures
        match anthropic_chunk_of(events@) {
            Some((d, f)) => r.delta@ == d && opt_text(r.finish_reason) == f,
            None => r.delta@.len() == 0 && r.finish_reason is None,
        },
        r.raw_sse_data is None,
{
    let mut i: usize = 0;
    assert(events@.skip(0) =~= events@);
    while i < events.len()
        invariant
            i <= events.len(),
            anthropic_chunk_of(events@) == anthropic_chunk_of(events@.skip(i as int)),
        decreases events.len() - i,
    {
        let ghost rest = events@.skip(i as int);
        assert(rest[0] == events@[i as int]);
        assert(rest.drop_first() =~= events@.skip(i + 1));
        match &events[i] {
            Some(e) => {
                if str_eq(e.event_type.as_str(), "content_block_delta") {
                    match &e.delta {
                        Some(d) => {
                            if str_eq(d.delta_type.as_str(), "text_delta") {
                                return StreamChunk { delta: d.text.clone(), finish_reason: None, raw_sse_data: None };
                            }
                        },
                        None => {},
                    }
                } else if str_eq(e.event_type.as_str(), "message_stop") {
                    return stop_chunk(None);
                }
            },
            None => {},
        }
        i += 1;
    }
    StreamChunk { delta: String::new(), finish_reason: None, raw_sse_data: None }
}

// ---------------------------------------------------------------------------
// OpenAI responses
// ---------------------------------------------------------------------------

#[derive(Debug, Clone)]
pub struct ResponsesContent {
    pub text: String,
}

#[derive(Debug, Clone)]
pub struct ResponsesOutput {
    pub output_type: String,
    pub content: Vec<ResponsesContent>,
}

#[derive(Debug, Clone, Copy)]
pub struct ResponsesUsage {
    pub input_tokens: u32,
    pub output_tokens: u32,
}

/// A reply of the responses interface.
#[derive(Debug, Clone)]
pub struct ResponsesApiResponse {
    pub id: String,
    pub output: Vec<ResponsesOutput>,
    pub usage: Option<ResponsesUsage>,
    pub status: Option<String>,
}

/// The first text of each `message` output that has one, in order.
pub open spec fn responses_texts(outputs: Seq<ResponsesOutput>) -> Seq<Seq<char>>
    decreases outputs.len(),
{
    if outputs.len() == 0 {
        Seq::empty()
    } else {
        let rest = responses_texts(outputs.drop_last());
        let o = outputs.last();
        if o.output_type@ == "message"@ && o.content@.len() > 0 {
            rest.push(o.content@[0].text@)
        } else {
            rest
        }
    }
}

/// The text of a reply: the first text of each message output, joined. A
/// structured reply is this text, parsed as JSON.
pub fn responses_text(body: &ResponsesApiResponse) -> (r: String)
    ensures
        r@ == joined(responses_texts(body.output@)),
{
    let mut parts: Vec<String> = Vec::new();
    let mut i: usize = 0;
    while i < body.output.len()
        invariant
            i <= body.output.len(),
            strings_view(parts@) == responses_texts(body.output@.take(i as int)),
        decreases body.output.len() - i,
    {
        let ghost t = body.output@.take(i + 1);
        assert(t.drop_last() =~= body.output@.take(i as int));
        assert(t.last() == body.output@[i as int]);
        let o = &body.output[i];
        if str_eq(o.output_type.as_str(), "message") && o.content.len() > 0 {
            let ghost before = strings_view(parts@);
            parts.push(o.content[0].text.clone());
            assert(strings_view(parts@) =~= before.push(o.content@[0].text@));
        }
        i += 1;
    }
    assert(body.output@.take(i as int) =~= body.output@);
    join_strings(&parts, "")
}

/// The usage fits: its total does not overflow.
pub open spec fn responses_usage_fits(u: Option<ResponsesUsage>) -> bool {
    match u {
        Some(x) => x.input_tokens + x.output_tokens <= u32::MAX,
        None => true,
    }
}

/// The reply of the responses interface: its message texts joined, its
/// status as the finish reason, its usage with the total summed, and the
/// reply as parsed JSON where it parses.
pub fn responses_chat_response(request_id: String, body: &ResponsesApiResponse, raw_response: Option<JsonValue>) -> (r: ChatResponse)
    requires
        responses_usage_fits(body.usage),
    ensures
        r.request_id == request_id,
        r.content@ == joined(responses_texts(body.output@)),
        r.reasoning is None,
        r.token_usage == (match body.usage {
            Some(u) => Some(summed_usage(u.input_tokens, u.output_tokens)),
            None => None,
        }),
        opt_text(r.finish_reason) == opt_text(body.status),
        r.raw_response == raw_response,
{
    let content = responses_text(body);
    let token_usage = match body.usage {
        Some(u) => Some(
            TokenUsage {
                prompt_tokens: u.input_tokens,
                completion_tokens: u.output_tokens,
                total_tokens: u.input_tokens + u.output_tokens,
            },
        ),
        None => None,
    };
    ChatResponse {
        request_id,
        content,
        reasoning: None,
        token_usage,
        finish_reason: clone_opt(&body.status),
        raw_response,
    }
}

/// One event of a streamed reply of the responses interface.
#[derive(Debug, Clone)]
pub struct ResponsesStreamEvent {
    pub event_type: String,
    pub delta: Option<String>,
}

/// The chunk of one event of a streamed reply of the responses interface,
/// from its parse (none where the data is not an event): a text delta gives
/// its text where it has one; the end of the reply ends the stream; other
/// events give nothing.
pub fn parse_responses_stream_data(parsed: Option<ResponsesStreamEvent>) -> (r: Option<Result<StreamChunk, String>>)
    ensures
        match parsed {
            Some(e) => if e.event_type@ == "response.output_text.delta"@ {
                match e.delta {
                    Some(d) => r matches Some(Ok(c)) && c.delta == d && c.finish_reason is None && c.raw_sse_data is None,
                    None => r is None,
                }
            } else if e.event_type@ == "response.done"@ {
                r matches Some(Ok(c)) && c.delta@.len() == 0 && opt_text(c.finish_reason) == Some("stop"@)
                    && c.raw_sse_data is None
            } else {
                r is None
            },
            None => r is None,
        },
{
    let event = match parsed {
        Some(e) => e,
        None => return None,
    };
    if str_eq(event.event_type.as_str(), "response.output_text.delta") {
        match event.delta {
            Some(d) => Some(Ok(StreamChunk { delta: d, finish_reason: None, raw_sse_data: None })),
            None => None,
        }
    } else if str_eq(event.event_type.as_str(), "response.done") {
        Some(Ok(stop_chunk(None)))
    } else {
        None
    }
}

// ---------------------------------------------------------------------------
// Gemini
// ---------------------------------------------------------------------------

#[derive(Debug, Clone)]
pub struct GeminiPart {
    pub text: Option<String>,
}

#[derive(Debug, Clone)]
pub struct GeminiContent {
    pub parts: Vec<GeminiPart>,
}

#[derive(Debug, Clone)]
pub struct GeminiCandidate {
    pub content: GeminiContent,
    pub finish_reason: Option<String>,
}

#[derive(Debug, Clone, Copy)]
pub struct GeminiUsage {
    pub prompt_token_count: u32,
    pub candidates_token_count: u32,
    pub total_token_count: u32,
}

/// A Gemini reply, or one event of a streamed one.
#[derive(Debug, Clone)]
pub struct GeminiResponse {
    pub candidates: Vec<GeminiCandidate>,
    pub usage_metadata: Option<GeminiUsage>,
}

/// The text of the first part of the first candidate, where there is one.
pub open spec fn gemini_first_text(body: GeminiResponse) -> Option<Seq<char>> {
    if body.candidates@.len() > 0 && body.candidates@[0].content.parts@.len() > 0 {
        opt_text(body.candidates@[0].content.parts@[0].text)
    } else {
        None
    }
}

fn gemini_first_text_exec(body: &GeminiResponse) -> (r: Option<String>)
    ensures
        opt_text(r) == gemini_first_text(*body),
{
    if body.candidates.len() > 0 && body.candidates[0].content.parts.len() > 0 {
        clone_opt(&body.candidates[0].content.parts[0].text)
    } else {
        None
    }
}

/// The text of a Gemini reply: that of the first part of its first
/// candidate, empty where there is none. A structured reply is this text,
/// parsed as JSON.
pub fn gemini_response_text(body: &GeminiResponse) -> (r: String)
    ensures
        r@ == (match gemini_first_text(*body) {
            Some(t) => t,
            None => Seq::<char>::empty(),
        }),
{
    match gemini_first_text_exec(body) {
        Some(t) => t,
        None => String::new(),
    }
}

/// The reply of Gemini: the text of its first candidate's first part, that
/// candidate's finish reason, and the usage as reported.
pub fn gemini_chat_response(request_id: String, body: &GeminiResponse) -> (r: ChatResponse)
    ensures
        r.request_id == request_id,
        r.content@ == (match gemini_first_text(*body) {
            Some(t) => t,
            None => Seq::<char>::empty(),
        }),
        r.reasoning is None,
        r.token_usage == (match body.usage_metadata {
            Some(u) => Some(
                TokenUsage {
                    prompt_tokens: u.prompt_token_count,
                    completion_tokens: u.candidates_token_count,
                    total_tokens: u.total_token_count,
                },
            ),
            None => None,
        }),
        opt_text(r.finish_reason) == (if body.candidates@.len() > 0 {
            opt_text(body.candidates@[0].finish_reason)
        } else {
            None
        }),
        r.raw_response is None,
{
    let content = gemini_response_text(body);
    let token_usage = match body.usage_metadata {
        Some(u) => Some(
            TokenUsage {
                prompt_tokens: u.prompt_token_count,
                completion_tokens: u.candidates_token_count,
                total_tokens: u.total_token_count,
            },
        ),
        None => None,
    };
    let finish_reason = if body.candidates.len() > 0 {
        clone_opt(&body.candidates[0].finish_reason)
    } else {
        None
    };
    ChatResponse { request_id, content, reasoning: None, token_usage, finish_reason, raw_response: None }
}

/// The chunk a received piece of a Gemini stream gives, from the parse of
/// each of its `data: ` payloads: the first that has a text, with its
/// candidate's finish reason; an empty chunk where none has.
pub open spec fn gemini_chunk_of(events: Seq<Option<GeminiResponse>>) -> Option<(Seq<char>, Option<Seq<char>>)>
    decreases events.len(),
{
    if events.len() == 0 {
        None
    } else {
        match events[0] {
            Some(e) => match gemini_first_text(e) {
                Some(t) => Some((t, opt_text(e.candidates@[0].finish_reason))),
                None => gemini_chunk_of(events.drop_first()),
            },
            None => gemini_chunk_of(events.drop_first()),
        }
    }
}

/// The chunk a received piece of a Gemini stream gives.
pub fn gemini_stream_chunk(events: &Vec<Option<GeminiResponse>>) -> (r: StreamChunk)
    ensures
        match gemini_chunk_of(events@) {
            Some((d, f)) => r.delta@ == d && opt_text(r.finish_reason) == f,
            None => r.delta@.len() == 0 && r.finish_reason is None,
        },
        r.raw_sse_data is None,
{
    let mut i: usize = 0;
    assert(events@.skip(0) =~= events@);
    while i < events.len()
        invariant
            i <= events.len(),
            gemini_chunk_of(events@) == gemini_chunk_of(events@.skip(i as int)),
        decreases events.len() - i,
    {
        let ghost rest = events@.skip(i as int);
        assert(rest[0] == events@[i as int]);
        assert(rest.drop_first() =~= events@.skip(i + 1));
        match &events[i] {
            Some(e) => match gemini_first_text_exec(e) {
                Some(t) => {
                    return StreamChunk { delta: t, finish_reason: clone_opt(&e.candidates[0].finish_reason), raw_sse_data: None };
                },
                None => {},
            },
            None => {},
        }
        i += 1;
    }
    StreamChunk { delta: String::new(), finish_reason: None, raw_sse_data: None }
}

// ---------------------------------------------------------------------------
// The messages interface of a local agent server
// ---------------------------------------------------------------------------

/// A block of a reply of the agent server's messages interface.
#[derive(Debug)]
pub enum ClaudeCodeContentBlock {
    Text { text: String },
    Thinking { thinking: String },
    RedactedThinking,
    ToolUse { id: String, name: String, input: JsonValue },
    Other,
}

#[derive(Debug, Clone, Copy)]
pub struct ClaudeCodeUsage {
    pub input_tokens: u32,
    pub output_tokens: u32,
}

/// A reply of the agent server's messages interface.
#[derive(Debug)]
pub struct ClaudeCodeResponse {
    pub content: Vec<ClaudeCodeContentBlock>,
    pub usage: Option<ClaudeCodeUsage>,
    pub stop_reason: Option<String>,
}

/// The texts of the text blocks, in order.
pub open spec fn block_texts(blocks: Seq<ClaudeCodeContentBlock>) -> Seq<Seq<char>>
    decreases blocks.len(),
{
    if blocks.len() == 0 {
        Seq::empty()
    } else {
        let rest = block_texts(blocks.drop_last());
        match blocks.last() {
            ClaudeCodeContentBlock::Text { text } => rest.push(text@),
            _ => rest,
        }
    }
}

/// The reasoning of the thinking blocks, in order.
pub open spec fn block_thoughts(blocks: Seq<ClaudeCodeContentBlock>) -> Seq<Seq<char>>
    decreases blocks.len(),
{
    if blocks.len() == 0 {
        Seq::empty()
    } else {
        let rest = block_thoughts(blocks.drop_last());
        match blocks.last() {
            ClaudeCodeContentBlock::Thinking { thinking } => rest.push(thinking@),
            _ => rest,
        }
    }
}

/// Index of the first tool use block of the tool `name`.
pub open spec fn first_tool_block(blocks: Seq<ClaudeCodeContentBlock>, name: Seq<char>, i: int) -> Option<int>
    decreases blocks.len() - i,
{
    if i < 0 || i >= blocks.len() {
        None
    } else {
        match blocks[i] {
            ClaudeCodeContentBlock::ToolUse { name: n, .. } if n@ == name => Some(i),
            _ => first_tool_block(blocks, name, i + 1),
        }
    }
}

proof fn lemma_first_tool_block_range(blocks: Seq<ClaudeCodeContentBlock>, name: Seq<char>, i: int)
    requires
        0 <= i,
    ensures
        first_tool_block(blocks, name, i) matches Some(j) ==> i <= j < blocks.len() && blocks[j] is ToolUse,
    decreases blocks.len() - i,
{
    if i < blocks.len() {
        lemma_first_tool_block_range(blocks, name, i + 1);
    }
}

impl ClaudeCodeResponse {
    /// The text blocks joined.
    pub fn text_content(&self) -> (r: String)
        ensures
            r@ == joined(block_texts(self.content@)),
    {
        let mut parts: Vec<String> = Vec::new();
        let mut i: usize = 0;
        while i < self.content.len()
            invariant
                i <= self.content.len(),
                strings_view(parts@) == block_texts(self.content@.take(i as int)),
            decreases self.content.len() - i,
        {
            let ghost t = self.content@.take(i + 1);
            assert(t.drop_last() =~= self.content@.take(i as int));
            assert(t.last() == self.content@[i as int]);
            match &self.content[i] {
                ClaudeCodeContentBlock::Text { text } => {
                    let ghost before = strings_view(parts@);
                    parts.push(text.clone());
                    assert(strings_view(parts@) =~= before.push(text@));
                },
                _ => {},
            }
            i += 1;
        }
        assert(self.content@.take(i as int) =~= self.content@);
        join_strings(&parts, "")
    }

    /// The thinking blocks joined; none where that is empty.
    pub fn reasoning_content(&self) -> (r: Option<String>)
        ensures
            match r {
                Some(x) => x@ == joined(block_thoughts(self.content@)) && x@.len() > 0,
                None => joined(block_thoughts(self.content@)).len() == 0,
            },
    {
        let mut parts: Vec<String> = Vec::new();
        let mut i: usize = 0;
        while i < self.content.len()
            invariant
                i <= self.content.len(),
                strings_view(parts@) == block_thoughts(self.content@.take(i as int)),
            decreases self.content.len() - i,
        {
            let ghost t = self.content@.take(i + 1);
            assert(t.drop_last() =~= self.content@.take(i as int));
            assert(t.last() == self.content@[i as int]);
            match &self.content[i] {
                ClaudeCodeContentBlock::Thinking { thinking } => {
                    let ghost before = strings_view(parts@);
                    parts.push(thinking.clone());
                    assert(strings_view(parts@) =~= before.push(thinking@));
                },
                _ => {},
            }
            i += 1;
        }
        assert(self.content@.take(i as int) =~= self.content@);
        let reasoning = join_strings(&parts, "");
        if str_chars(reasoning.as_str()).len() == 0 {
            None
        } else {
            Some(reasoning)
        }
    }

    /// The input of the first use of the tool `tool_name`.
    pub fn tool_input(&self, tool_name: &str) -> (r: Option<JsonValue>)
        ensures
            match first_tool_block(self.content@, tool_name@, 0) {
                Some(i) => r matches Some(x) && json_view(x) == json_view(self.content@[i]->ToolUse_input),
                None => r is None,
            },
    {
        proof {
            lemma_first_tool_block_range(self.content@, tool_name@, 0);
        }
        let mut i: usize = 0;
        while i < self.content.len()
            invariant
                i <= self.content.len(),
                first_tool_block(self.content@, tool_name@, 0) == first_tool_block(self.content@, tool_name@, i as int),
            decreases self.content.len() - i,
        {
            match &self.content[i] {
                ClaudeCodeContentBlock::ToolUse { name, input, .. } => {
                    if str_eq(name.as_str(), tool_name) {
                        return Some(input.deep_clone());
                    }
                },
                _ => {},
            }
            i += 1;
        }
        None
    }
}

/// The usage fits: its total does not overflow.
pub open spec fn claude_code_usage_fits(u: Option<ClaudeCodeUsage>) -> bool {
    match u {
        Some(x) => x.input_tokens + x.output_tokens <= u32::MAX,
        None => true,
    }
}

/// The reply of the agent server: its text blocks joined, its thinking as
/// the reasoning, its stop reason, its usage with the total summed, and the
/// reply as parsed JSON where it parses.
pub fn claude_code_chat_response(request_id: String, body: &ClaudeCodeResponse, raw_response: Option<JsonValue>) -> (r: ChatResponse)
    requires
        claude_code_usage_fits(body.usage),
    ensures
        r.request_id == request_id,
        r.content@ == joined(block_texts(body.content@)),
        match r.reasoning {
            Some(x) => x@ == joined(block_thoughts(body.content@)) && x@.len() > 0,
            None => joined(block_thoughts(body.content@)).len() == 0,
        },
        r.token_usage == (match body.usage {
            Some(u) => Some(summed_usage(u.input_tokens, u.output_tokens)),
            None => None,
        }),
        opt_text(r.finish_reason) == opt_text(body.stop_reason),
        r.raw_response == raw_response,
{
    let content = body.text_content();
    let reasoning = body.reasoning_content();
    let token_usage = match body.usage {
        Some(u) => Some(
            TokenUsage {
                prompt_tokens: u.input_tokens,
                completion_tokens: u.output_tokens,
                total_tokens: u.input_tokens + u.output_tokens,
            },
        ),
        None => None,
    };
    ChatResponse { request_id, content, reasoning, token_usage, finish_reason: clone_opt(&body.stop_reason), raw_response }
}

/// The tool whose input answers a structured request to the agent server.
pub fn structured_output_tool() -> (r: &'static str)
    ensures
        r@ == "structured_output"@,
{
    "structured_output"
}

/// One event of a streamed reply of the agent server.
#[derive(Debug, Clone)]
pub enum ClaudeCodeStreamEvent {
    ContentBlockDelta { delta_type: String, text: Option<String> },
    MessageDelta { stop_reason: Option<String> },
    Other,
}

/// The chunk of one event of a streamed reply of the agent server, from the
/// event's data and its parse (none where it is not an event): a text delta
/// gives its text where it has one; a message delta gives its stop reason;
/// other events give an empty chunk. Every chunk carries the data as
/// received.
pub fn parse_claude_code_stream_data(data: &str, parsed: Option<ClaudeCodeStreamEvent>) -> (r: Option<Result<StreamChunk, String>>)
    ensures
        match parsed {
            None => r is None,
            Some(ClaudeCodeStreamEvent::ContentBlockDelta { text, .. }) => match text {
                Some(t) => r matches Some(Ok(c)) && c.delta == t && c.finish_reason is None && opt_text(
                    c.raw_sse_data,
                ) == Some(data@),
                None => r is None,
            },
            Some(ClaudeCodeStreamEvent::MessageDelta { stop_reason }) => r matches Some(Ok(c)) && c.delta@.len()
                == 0 && c.finish_reason == stop_reason && opt_text(c.raw_sse_data) == Some(data@),
            Some(ClaudeCodeStreamEvent::Other) => r matches Some(Ok(c)) && c.delta@.len() == 0
                && c.finish_reason is None && opt_text(c.raw_sse_data) == Some(data@),
        },
{
    match parsed {
        None => None,
        Some(ClaudeCodeStreamEvent::ContentBlockDelta { text, .. }) => match text {
            Some(t) => Some(Ok(StreamChunk { delta: t, finish_reason: None, raw_sse_data: Some(data.to_owned()) })),
            None => None,
        },
        Some(ClaudeCodeStreamEvent::MessageDelta { stop_reason }) => Some(
            Ok(StreamChunk { delta: String::new(), finish_reason: stop_reason, raw_sse_data: Some(data.to_owned()) }),
        ),
        Some(ClaudeCodeStreamEvent::Other) => Some(
            Ok(StreamChunk { delta: String::new(), finish_reason: None, raw_sse_data: Some(data.to_owned()) }),
        ),
    }
}

// ---------------------------------------------------------------------------
// Models
// ---------------------------------------------------------------------------

/// A model a provider offers.
#[derive(Debug)]
pub struct ModelInfo {
    pub id: String,
    pub display_name: Option<String>,
    pub owned_by: Option<String>,
    pub max_input_tokens: Option<u32>,
    pub max_output_tokens: Option<u32>,
    pub capabilities: Option<JsonValue>,
}

/// A model of OpenAI's model list.
pub fn openai_model_info(id: String, owned_by: String) -> (r: ModelInfo)
    ensures
        r.id == id,
        r.display_name is None,
        r.owned_by == Some(owned_by),
        r.max_input_tokens is None,
        r.max_output_tokens is None,
        r.capabilities is None,
{
    ModelInfo { id, display_name: None, owned_by: Some(owned_by), max_input_tokens: None, max_output_tokens: None, capabilities: None }
}

/// A model of Anthropic's model list, its capabilities as JSON.
pub fn anthropic_model_info(
    id: String,
    display_name: String,
    max_input_tokens: u32,
    max_tokens: u32,
    capabilities: Option<JsonValue>,
) -> (r: ModelInfo)
    ensures
        r.id == id,
        r.display_name == Some(display_name),
        opt_text(r.owned_by) == Some("anthropic"@),
        r.max_input_tokens == Some(max_input_tokens),
        r.max_output_tokens == Some(max_tokens),
        r.capabilities == capabilities,
{
    ModelInfo {
        id,
        display_name: Some(display_name),
        owned_by: Some("anthropic".to_owned()),
        max_input_tokens: Some(max_input_tokens),
        max_output_tokens: Some(max_tokens),
        capabilities,
    }
}

/// The id of a Gemini model: its name without the `models/` prefix.
pub open spec fn gemini_model_id(name: Seq<char>) -> Seq<char> {
    if starts_with(name, "models/"@) {
        name.skip(7)
    } else {
        name
    }
}

/// A model of Gemini's model list.
pub fn gemini_model_info(name: &str, display_name: String, input_token_limit: u32, output_token_limit: u32) -> (r: ModelInfo)
    ensures
        r.id@ == gemini_model_id(name@),
        r.display_name == Some(display_name),
        opt_text(r.owned_by) == Some("google"@),
        r.max_input_tokens == Some(input_token_limit),
        r.max_output_tokens == Some(output_token_limit),
        r.capabilities is None,
{
    proof {
        reveal_strlit("models/");
    }
    let v = str_chars(name);
    let prefix = str_chars("models/");
    let id = if has_prefix(&v, &prefix) {
        let rest = sub_chars(&v, 7, v.len());
        assert(rest@ =~= name@.skip(7));
        chars_to_string(&rest)
    } else {
        name.to_owned()
    };
    ModelInfo {
        id,
        display_name: Some(display_name),
        owned_by: Some("google".to_owned()),
        max_input_tokens: Some(input_token_limit),
        max_output_tokens: Some(output_token_limit),
        capabilities: None,
    }
}

/// A model the agent server offers, named by its id.
pub fn claude_code_model_info(id: String) -> (r: ModelInfo)
    ensures
        r.id == id,
        r.display_name == Some(id),
        opt_text(r.owned_by) == Some("claude_code"@),
        r.max_input_tokens is None,
        r.max_output_tokens is None,
        r.capabilities is None,
{
    ModelInfo {
        id: id.clone(),
        display_name: Some(id),
        owned_by: Some("claude_code".to_owned()),
        max_input_tokens: None,
        max_output_tokens: None,
        capabilities: None,
    }
}

} // verus!
