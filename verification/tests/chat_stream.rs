use smart_tavern::chat_stream::{stream_start, stream_step, StreamAction, StreamInput};
use smart_tavern::json::{json_eq, JsonValue};
use smart_tavern::provider_responses::StreamChunk;

fn chunk(delta: &str, finish: Option<&str>, raw: Option<JsonValue>) -> StreamInput {
    StreamInput::Chunk {
        chunk: StreamChunk {
            delta: delta.to_string(),
            finish_reason: finish.map(|f| f.to_string()),
            raw_sse_data: None,
        },
        raw_event: raw,
    }
}

fn kinds(actions: &[StreamAction]) -> Vec<&'static str> {
    actions
        .iter()
        .map(|a| match a {
            StreamAction::EmitStart => "start",
            StreamAction::EmitChunk { .. } => "chunk",
            StreamAction::EmitError(_) => "error",
            StreamAction::LogFailure(_) => "log_failure",
            StreamAction::LogSuccess(_) => "log_success",
            StreamAction::EmitEnd => "end",
        })
        .collect()
}

#[test]
fn a_clean_stream_starts_passes_chunks_and_ends_once() {
    let (mut state, mut events) = stream_start();
    events.extend(stream_step(&mut state, chunk("Hel", None, Some(JsonValue::Bool(true)))));
    events.extend(stream_step(&mut state, chunk("lo", Some("stop"), None)));
    events.extend(stream_step(&mut state, StreamInput::Ended));
    events.extend(stream_step(&mut state, chunk("late", None, None)));
    assert_eq!(kinds(&events), vec!["start", "chunk", "chunk", "log_success", "end"]);
    assert_eq!(state.content, "Hello");
    assert_eq!(state.finish_reason.as_deref(), Some("stop"));
    assert!(state.done);
    match &events[3] {
        StreamAction::LogSuccess(v) => {
            assert!(json_eq(v, &JsonValue::Array(vec![JsonValue::Bool(true)])))
        }
        _ => panic!("expected the success log"),
    }
}

#[test]
fn a_failed_stream_reports_logs_and_ends_once() {
    let (mut state, mut events) = stream_start();
    events.extend(stream_step(&mut state, chunk("a", None, None)));
    events.extend(stream_step(&mut state, StreamInput::Failed("boom".to_string())));
    events.extend(stream_step(&mut state, StreamInput::Ended));
    assert_eq!(kinds(&events), vec!["start", "chunk", "error", "log_failure", "end"]);
    match (&events[2], &events[3]) {
        (StreamAction::EmitError(e), StreamAction::LogFailure(l)) => {
            assert_eq!(e, "boom");
            assert_eq!(l, "boom");
        }
        _ => panic!("expected the error and its log"),
    }
}

#[test]
fn a_stream_that_cannot_open_still_ends() {
    let (mut state, mut events) = stream_start();
    events.extend(stream_step(&mut state, StreamInput::Failed("no connection".to_string())));
    assert_eq!(kinds(&events), vec!["start", "error", "log_failure", "end"]);
    assert_eq!(state.content, "");
}
