//! The events of a streamed chat reply. A stream is announced once, then
//! each chunk is passed on as it comes; an error is reported and logged, a
//! clean end is logged with the raw events received, and either way exactly
//! one end event closes the stream. The caller reads the provider's stream,
//! hands each outcome to `stream_step` and performs the actions it returns.

use vstd::prelude::*;
use crate::json::{json_view, JsonValue, JsonView};
use crate::provider_responses::{opt_text, StreamChunk};
use crate::text::join_str;

verus! {

/// What the provider's stream gave next.
#[derive(Debug)]
pub enum StreamInput {
    /// A chunk, with its raw event data parsed as JSON where it parses.
    Chunk { chunk: StreamChunk, raw_event: Option<JsonValue> },
    /// The stream failed, or could not be opened.
    Failed(String),
    /// The stream ended.
    Ended,
}

/// What to do next.
#[derive(Debug)]
pub enum StreamAction {
    /// Announce the stream.
    EmitStart,
    /// Pass on a piece of the reply.
    EmitChunk { delta: String, finish_reason: Option<String> },
    /// Report an error.
    EmitError(String),
    /// Log the request as failed.
    LogFailure(String),
    /// Log the request as done, with the raw events received, in order.
    LogSuccess(JsonValue),
    /// Close the stream.
    EmitEnd,
}

/// A stream in progress: the reply so far, the last finish reason given,
/// the raw events received, and whether it is over.
#[derive(Debug)]
pub struct StreamState {
    pub content: String,
    pub finish_reason: Option<String>,
    pub raw_events: Vec<JsonValue>,
    pub done: bool,
}

/// An action as plain values.
pub enum ActionView {
    EmitStart,
    EmitChunk(Seq<char>, Option<Seq<char>>),
    EmitError(Seq<char>),
    LogFailure(Seq<char>),
    LogSuccess(JsonView),
    EmitEnd,
}

pub struct StreamView {
    pub content: Seq<char>,
    pub finish_reason: Option<Seq<char>>,
    pub raw_events: Seq<JsonView>,
    pub done: bool,
}

pub open spec fn action_view(a: StreamAction) -> ActionView {
    match a {
        StreamAction::EmitStart => ActionView::EmitStart,
        StreamAction::EmitChunk { delta, finish_reason } => ActionView::EmitChunk(delta@, opt_text(finish_reason)),
        StreamAction::EmitError(e) => ActionView::EmitError(e@),
        StreamAction::LogFailure(e) => ActionView::LogFailure(e@),
        StreamAction::LogSuccess(v) => ActionView::LogSuccess(json_view(v)),
        StreamAction::EmitEnd => ActionView::EmitEnd,
    }
}

pub open spec fn actions_view(s: Seq<StreamAction>) -> Seq<ActionView> {
    s.map_values(|a: StreamAction| action_view(a))
}

pub open spec fn json_views(s: Seq<JsonValue>) -> Seq<JsonView> {
    s.map_values(|v: JsonValue| json_view(v))
}

pub open spec fn stream_view(s: StreamState) -> StreamView {
    StreamView {
        content: s.content@,
        finish_reason: opt_text(s.finish_reason),
        raw_events: json_views(s.raw_events@),
        done: s.done,
    }
}

/// A stream before anything has arrived.
pub open spec fn initial_stream() -> StreamView {
    StreamView { content: Seq::empty(), finish_reason: None, raw_events: Seq::empty(), done: false }
}

/// One step: a chunk is passed on and added to the reply (its finish
/// reason, if it gives one, replaces the last); a failure is reported,
/// logged and closes the stream; the end is logged with the raw events and
/// closes the stream. A stream that is over takes no more steps.
pub open spec fn step(s: StreamView, input: StreamInput) -> (StreamView, Seq<ActionView>) {
    if s.done {
        (s, Seq::empty())
    } else {
        match input {
            StreamInput::Chunk { chunk, raw_event } => (
                StreamView {
                    content: s.content + chunk.delta@,
                    finish_reason: if chunk.finish_reason is Some {
                        opt_text(chunk.finish_reason)
                    } else {
                        s.finish_reason
                    },
                    raw_events: match raw_event {
                        Some(v) => s.raw_events.push(json_view(v)),
                        None => s.raw_events,
                    },
                    done: false,
                },
                seq![ActionView::EmitChunk(chunk.delta@, opt_text(chunk.finish_reason))],
            ),
            StreamInput::Failed(e) => (
                StreamView { done: true, ..s },
                seq![ActionView::EmitError(e@), ActionView::LogFailure(e@), ActionView::EmitEnd],
            ),
            StreamInput::Ended => (
                StreamView { done: true, ..s },
                seq![ActionView::LogSuccess(JsonView::Array(s.raw_events)), ActionView::EmitEnd],
            ),
        }
    }
}

/// The actions of a run of inputs from a state, until the stream is over.
pub open spec fn run_from(s: StreamView, inputs: Seq<StreamInput>) -> Seq<ActionView>
    decreases inputs.len(),
{
    if inputs.len() == 0 || s.done {
        Seq::empty()
    } else {
        step(s, inputs[0]).1 + run_from(step(s, inputs[0]).0, inputs.drop_first())
    }
}

/// Everything a stream does for a run of inputs: the start, then each step.
pub open spec fn stream_events(inputs: Seq<StreamInput>) -> Seq<ActionView> {
    seq![ActionView::EmitStart] + run_from(initial_stream(), inputs)
}

pub open spec fn is_terminal(i: StreamInput) -> bool {
    !(i is Chunk)
}

/// Opens a stream: a fresh state, and the start to announce.
pub fn stream_start() -> (r: (StreamState, Vec<StreamAction>))
    ensures
        stream_view(r.0) == initial_stream(),
        actions_view(r.1@) == seq![ActionView::EmitStart],
{
    let state = StreamState { content: String::new(), finish_reason: None, raw_events: Vec::new(), done: false };
    let actions = vec![StreamAction::EmitStart];
    assert(stream_view(state).content =~= Seq::<char>::empty());
    assert(stream_view(state).raw_events =~= Seq::<JsonView>::empty());
    assert(actions_view(actions@) =~= seq![ActionView::EmitStart]);
    (state, actions)
}

fn clone_events(v: &Vec<JsonValue>) -> (r: Vec<JsonValue>)
    ensures
        json_views(r@) == json_views(v@),
{
    let mut out: Vec<JsonValue> = Vec::new();
    let mut i: usize = 0;
    while i < v.len()
        invariant
            i <= v.len(),
            json_views(out@) == json_views(v@).take(i as int),
        decreases v.len() - i,
    {
        let ghost before = json_views(out@);
        out.push(v[i].deep_clone());
        assert(json_views(out@) =~= before.push(json_view(v@[i as int])));
        assert(json_views(out@) =~= json_views(v@).take(i + 1));
        i += 1;
    }
    assert(json_views(v@).take(i as int) =~= json_views(v@));
    out
}

/// Takes what the provider's stream gave next and returns what to do.
pub fn stream_step(state: &mut StreamState, input: StreamInput) -> (actions: Vec<StreamAction>)
    ensures
        (stream_view(*final(state)), actions_view(actions@)) == step(stream_view(*old(state)), input),
{
    let ghost s0 = stream_view(*state);
    let ghost inp = input;
    if state.done {
        let actions: Vec<StreamAction> = Vec::new();
        assert(actions_view(actions@) =~= Seq::<ActionView>::empty());
        return actions;
    }
    match input {
        StreamInput::Chunk { chunk, raw_event } => {
            let content = join_str(state.content.as_str(), chunk.delta.as_str());
            state.content = content;
            match &chunk.finish_reason {
                Some(f) => {
                    state.finish_reason = Some(f.clone());
                },
                None => {},
            }
            match raw_event {
                Some(v) => {
                    let ghost before = json_views(state.raw_events@);
                    state.raw_events.push(v);
                    assert(json_views(state.raw_events@) =~= before.push(json_view(v)));
                },
                None => {},
            }
            let actions = vec![StreamAction::EmitChunk { delta: chunk.delta, finish_reason: chunk.finish_reason }];
            assert(actions_view(actions@) =~= step(s0, inp).1);
            actions
        },
        StreamInput::Failed(e) => {
            state.done = true;
            let actions = vec![StreamAction::EmitError(e.clone()), StreamAction::LogFailure(e), StreamAction::EmitEnd];
            assert(actions_view(actions@) =~= step(s0, inp).1);
            actions
        },
        StreamInput::Ended => {
            state.done = true;
            let events = clone_events(&state.raw_events);
            let response = JsonValue::Array(events);
            assert(json_view(response) =~= JsonView::Array(s0.raw_events)) by {
                assert(json_view(response)->Array_0 =~= json_views(events@));
            }
            let actions = vec![StreamAction::LogSuccess(response), StreamAction::EmitEnd];
            assert(actions_view(actions@) =~= step(s0, inp).1);
            actions
        },
    }
}

proof fn lemma_run_shape(s: StreamView, inputs: Seq<StreamInput>)
    requires
        !s.done,
    ensures
        forall|k: int| 0 <= k < run_from(s, inputs).len() ==> !(#[trigger] run_from(s, inputs)[k] is EmitStart),
        forall|k: int|
            0 <= k < run_from(s, inputs).len() - 1 ==> !(#[trigger] run_from(s, inputs)[k] is EmitEnd),
        forall|k: int|
            0 <= k < run_from(s, inputs).len() && (#[trigger] run_from(s, inputs)[k] is EmitError) ==> k
                == run_from(s, inputs).len() - 3,
        (exists|j: int| 0 <= j < inputs.len() && is_terminal(#[trigger] inputs[j])) ==> run_from(
            s,
            inputs,
        ).len() > 0 && run_from(s, inputs).last() is EmitEnd,
    decreases inputs.len(),
{
    if inputs.len() > 0 {
        let (s2, a) = step(s, inputs[0]);
        let r = run_from(s, inputs);
        let rest = run_from(s2, inputs.drop_first());
        assert(r == a + rest);
        if is_terminal(inputs[0]) {
            assert(s2.done);
            assert(rest =~= Seq::<ActionView>::empty());
            assert(r =~= a);
        } else {
            lemma_run_shape(s2, inputs.drop_first());
            assert(a.len() == 1 && a[0] is EmitChunk);
            assert forall|k: int| 1 <= k < r.len() implies r[k] == rest[k - 1] by {}
            if exists|j: int| 0 <= j < inputs.len() && is_terminal(#[trigger] inputs[j]) {
                let j = choose|j: int| 0 <= j < inputs.len() && is_terminal(#[trigger] inputs[j]);
                assert(j != 0);
                assert(inputs.drop_first()[j - 1] == inputs[j]);
            }
            assert forall|k: int| 0 <= k < r.len() && (#[trigger] r[k] is EmitError) implies k == r.len()
                - 3 by {
                if k >= 1 {
                    assert(rest[k - 1] is EmitError);
                }
            }
            assert forall|k: int| 0 <= k < r.len() - 1 implies !(#[trigger] r[k] is EmitEnd) by {
                if k >= 1 {
                    assert(r[k] == rest[k - 1]);
                }
            }
            assert forall|k: int| 0 <= k < r.len() implies !(#[trigger] r[k] is EmitStart) by {
                if k >= 1 {
                    assert(r[k] == rest[k - 1]);
                }
            }
        }
    }
}

/// The event protocol of a stream, for any run of inputs: the start comes
/// first and only there; no end comes before the last event, so there is at
/// most one end; an error is reported only as the stream closes, so at most
/// once; and once the provider's stream fails or ends, the last event is
/// the end, so there is exactly one.
pub proof fn law_stream_protocol(inputs: Seq<StreamInput>)
    ensures
        stream_events(inputs)[0] is EmitStart,
        forall|k: int| 0 < k < stream_events(inputs).len() ==> !(#[trigger] stream_events(inputs)[k] is EmitStart),
        forall|k: int|
            0 <= k < stream_events(inputs).len() - 1 ==> !(#[trigger] stream_events(inputs)[k] is EmitEnd),
        forall|k: int|
            0 <= k < stream_events(inputs).len() && (#[trigger] stream_events(inputs)[k] is EmitError) ==> k
                == stream_events(inputs).len() - 3,
        (exists|j: int| 0 <= j < inputs.len() && is_terminal(#[trigger] inputs[j])) ==> stream_events(
            inputs,
        ).last() is EmitEnd,
{
    let r = run_from(initial_stream(), inputs);
    lemma_run_shape(initial_stream(), inputs);
    let ev = stream_events(inputs);
    assert forall|k: int| 1 <= k < ev.len() implies ev[k] == r[k - 1] by {}
    assert forall|k: int| 0 < k < ev.len() implies !(#[trigger] ev[k] is EmitStart) by {
        assert(ev[k] == r[k - 1]);
    }
    assert forall|k: int| 0 <= k < ev.len() - 1 implies !(#[trigger] ev[k] is EmitEnd) by {
        if k >= 1 {
            assert(ev[k] == r[k - 1]);
        }
    }
    assert forall|k: int| 0 <= k < ev.len() && (#[trigger] ev[k] is EmitError) implies k == ev.len() - 3 by {
        if k >= 1 {
            assert(ev[k] == r[k - 1]);
        }
    }
}

} // verus!
