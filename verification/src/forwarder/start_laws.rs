//! A stream of the Responses protocol is held back until output shows, and a
//! failure before that never reaches the client as output.
use crate::error::ErrorView;
use crate::forwarder::attempt::{ActionView, Attempt, AttemptEvent};
use crate::forwarder::errors;
use crate::forwarder::responses;
use crate::forwarder::retry::ResponsesRetryState;
use crate::forwarder::stream_start;
use crate::forwarder::stream_start::{EventView, ResponsesStartView, VerdictView};
use crate::json::JsonView;
use crate::json_codec;
use crate::sse;
use crate::text;
use vstd::prelude::*;

verus! {

// ---------------------------------------------------------------------------
// What a block of a stream tells
// ---------------------------------------------------------------------------

/// What a block tells: the name of its event, else the type of its data, and its
/// data. Nothing where it has no data or the data is no JSON.
pub open spec fn told(block: Seq<char>) -> Option<(Seq<char>, JsonView)> {
    let fields = sse::block_fields(block);
    if fields.data.len() == 0 {
        None
    } else {
        match json_codec::parsed(text::joined(fields.data, "\n"@)) {
            Err(_) => None,
            Ok(value) => {
                let name = if fields.event is Some && fields.event->0.len() > 0 {
                    fields.event->0
                } else {
                    value.str_or("type"@, ""@)
                };
                Some((name, value))
            },
        }
    }
}

/// The response that an event speaks of.
pub open spec fn response_of(value: JsonView) -> JsonView {
    if value.get("response"@) is Some {
        value.get("response"@)->0
    } else {
        value
    }
}

/// Whether data tells of a failure, whatever the event is called: the response
/// failed or was cancelled, or has an error or an error code.
pub open spec fn tells_failure(value: JsonView) -> bool {
    let response = response_of(value);
    ||| response.says("status"@, "failed"@)
    ||| response.says("status"@, "cancelled"@)
    ||| response.get("error"@) is Some && !(response.get("error"@)->0 is Null)
    ||| response.get_str("code"@) is Some
}

/// Whether an event is one of a failure.
pub open spec fn is_failure(name: Seq<char>, value: JsonView) -> bool {
    tells_failure(value) || name == "response.failed"@ || name == "error"@
}

/// Whether an event shows output, or that the response is over: words of the
/// answer, of a refusal, of reasoning or of the arguments of a call, the
/// beginning of a call, or the end.
pub open spec fn is_output(name: Seq<char>, value: JsonView) -> bool {
    ||| name == "response.output_text.delta"@
    ||| name == "response.refusal.delta"@
    ||| name == "response.reasoning.delta"@
    ||| name == "response.function_call_arguments.delta"@
    ||| name == "response.completed"@
    ||| name == "response.incomplete"@
    ||| name == "response.output_item.added"@ && value.get("item"@) is Some
        && value.get("item"@)->0.says("type"@, "function_call"@)
}

/// Whether a block shows neither output nor a failure.
pub open spec fn is_quiet(block: Seq<char>) -> bool {
    told(block) matches Some((name, value)) ==> !is_failure(name, value) && !is_output(name, value)
}

/// Whether an event only tells how far the response is, or that an item is there
/// that is no call.
pub open spec fn is_lifecycle(name: Seq<char>, value: JsonView) -> bool {
    ||| name == "response.created"@
    ||| name == "response.queued"@
    ||| name == "response.in_progress"@
    ||| name == "response.output_item.added"@ && !(value.get("item"@) is Some
        && value.get("item"@)->0.says("type"@, "function_call"@))
}

// ---------------------------------------------------------------------------
// Blocks
// ---------------------------------------------------------------------------

proof fn names_differ()
    ensures
        "response.created"@.len() == 16,
        "response.queued"@.len() == 15,
        "response.in_progress"@.len() == 20,
        "response.output_item.added"@.len() == 26,
        "response.output_text.delta"@.len() == 26,
        "response.output_text.delta"@ != "response.output_item.added"@,
        "response.refusal.delta"@.len() == 22,
        "response.reasoning.delta"@.len() == 24,
        "response.function_call_arguments.delta"@.len() == 38,
        "response.completed"@.len() == 18,
        "response.incomplete"@.len() == 19,
        "response.failed"@.len() == 15,
        "response.failed"@ != "response.queued"@,
        "error"@.len() == 5,
{
    reveal_strlit("response.created");
    reveal_strlit("response.queued");
    reveal_strlit("response.in_progress");
    reveal_strlit("response.output_item.added");
    reveal_strlit("response.output_text.delta");
    reveal_strlit("response.refusal.delta");
    reveal_strlit("response.reasoning.delta");
    reveal_strlit("response.function_call_arguments.delta");
    reveal_strlit("response.completed");
    reveal_strlit("response.incomplete");
    reveal_strlit("response.failed");
    reveal_strlit("error");
    assert("response.output_text.delta"@[16] == 't' && "response.output_item.added"@[16] == 'i');
    assert("response.failed"@[9] == 'f' && "response.queued"@[9] == 'q');
}

/// A block counts as output only where it shows output and no failure, and as a
/// failure only where it tells one. All others are passed over.
pub proof fn blocks_are_told_apart(block: Seq<char>)
    ensures
        responses::inspected_block(block) is None <==> is_quiet(block),
        responses::inspected_block(block) matches Some(Err(e)) ==> told(block) is Some
            && is_failure((told(block)->0).0, (told(block)->0).1),
        responses::inspected_block(block) matches Some(Ok(_)) ==> told(block) is Some && is_output(
            (told(block)->0).0,
            (told(block)->0).1,
        ) && !is_failure((told(block)->0).0, (told(block)->0).1),
{
}

/// An event that only tells how far the response is, and no failure, is passed
/// over: nothing is handed on because of it.
pub proof fn lifecycle_events_are_passed_over(block: Seq<char>)
    requires
        told(block) is Some,
        is_lifecycle((told(block)->0).0, (told(block)->0).1),
        !tells_failure((told(block)->0).1),
    ensures
        is_quiet(block),
        responses::inspected_block(block) is None,
{
    names_differ();
    blocks_are_told_apart(block);
}

// ---------------------------------------------------------------------------
// Streams
// ---------------------------------------------------------------------------

/// The first block of a text that is not quiet, where there is one.
pub open spec fn first_telling(buffer: Seq<char>) -> Option<Seq<char>>
    decreases buffer.len(),
    via first_telling_ends
{
    match sse::first_block(buffer) {
        None => None,
        Some((block, rest)) => if is_quiet(block) {
            first_telling(rest)
        } else {
            Some(block)
        },
    }
}

#[via_fn]
proof fn first_telling_ends(buffer: Seq<char>) {
    sse::first_block_shortens(buffer);
}

/// The first block that is not quiet decides.
proof fn first_telling_decides(state: ResponsesStartView)
    ensures
        ({
            let verdict = stream_start::after_responses_blocks(state).1;
            match first_telling(state.buffer) {
                None => verdict is Continue,
                Some(block) => {
                    &&& told(block) is Some
                    &&& is_failure((told(block)->0).0, (told(block)->0).1) ==> verdict is Fail
                    &&& !is_failure((told(block)->0).0, (told(block)->0).1)
                        && !state.until_terminal ==> verdict == VerdictView::Commit(true)
                },
            }
        }),
    decreases state.buffer.len(),
{
    sse::first_block_shortens(state.buffer);
    if let Some((block, rest)) = sse::first_block(state.buffer) {
        blocks_are_told_apart(block);
        if is_quiet(block) {
            first_telling_decides(ResponsesStartView { buffer: rest, ..state });
        }
    }
}

/// The text of a stream after some bytes more.
pub open spec fn text_after(state: ResponsesStartView, chunk: Seq<u8>) -> Seq<char> {
    state.buffer + text::lossy_text(sse::whole(state.remainder + chunk))
}

/// Whether a text is a document rather than a stream of events.
pub open spec fn is_document(buffer: Seq<char>) -> bool {
    let s = text::trimmed(buffer);
    s.len() > 0 && (s[0] == '{' || s[0] == '[') && json_codec::parsed(s) is Ok
}

/// A stream is handed on only when output has begun or the response is over: as
/// long as no block shows output or a failure, and not too much was read, reading
/// goes on.
pub proof fn quiet_streams_are_held_back(
    state: ResponsesStartView,
    chunk: Seq<u8>,
    now: u128,
)
    requires
        state.size + chunk.len() < 262144,
        !is_document(text_after(state, chunk)),
        first_telling(text_after(state, chunk)) is None,
    ensures
        stream_start::after_responses_event(state, EventView::Chunk(chunk), now).1 is Continue,
{
    let all = state.remainder + chunk;
    let read = ResponsesStartView {
        first_chunk_at: match state.first_chunk_at {
            Some(t) => Some(t),
            None => Some(now),
        },
        size: stream_start::plus(state.size, chunk.len()),
        buffer: text_after(state, chunk),
        remainder: sse::pending(all),
        chunks: state.chunks.push(chunk),
        ..state
    };
    first_telling_decides(read);
    stream_start::responses_blocks_keep(read);
}

/// A failure that comes before any output is reported as an error, and never
/// handed on.
pub proof fn failures_before_output_are_reported(
    state: ResponsesStartView,
    chunk: Seq<u8>,
    now: u128,
)
    requires
        state.size + chunk.len() < 262144,
        !is_document(text_after(state, chunk)),
        first_telling(text_after(state, chunk)) is Some,
        told(first_telling(text_after(state, chunk))->0) matches Some((name, value)) && is_failure(
            name,
            value,
        ),
    ensures
        stream_start::after_responses_event(state, EventView::Chunk(chunk), now).1 is Fail,
{
    let all = state.remainder + chunk;
    let read = ResponsesStartView {
        first_chunk_at: match state.first_chunk_at {
            Some(t) => Some(t),
            None => Some(now),
        },
        size: stream_start::plus(state.size, chunk.len()),
        buffer: text_after(state, chunk),
        remainder: sse::pending(all),
        chunks: state.chunks.push(chunk),
        ..state
    };
    first_telling_decides(read);
}

/// A stream that shows output is handed on at once, from its first byte on and
/// with what follows, unless it is to be read to its end.
pub proof fn output_is_handed_on(state: ResponsesStartView, chunk: Seq<u8>, now: u128)
    requires
        !state.until_terminal,
        !is_document(text_after(state, chunk)),
        first_telling(text_after(state, chunk)) is Some,
        told(first_telling(text_after(state, chunk))->0) matches Some((name, value))
            && !is_failure(name, value),
    ensures
        stream_start::after_responses_event(state, EventView::Chunk(chunk), now).1
            == VerdictView::Commit(true),
{
    let all = state.remainder + chunk;
    let read = ResponsesStartView {
        first_chunk_at: match state.first_chunk_at {
            Some(t) => Some(t),
            None => Some(now),
        },
        size: stream_start::plus(state.size, chunk.len()),
        buffer: text_after(state, chunk),
        remainder: sse::pending(all),
        chunks: state.chunks.push(chunk),
        ..state
    };
    first_telling_decides(read);
}

/// Whether a block says that the response is over: by its name, or by the status
/// of the response.
pub open spec fn ends_response(block: Seq<char>) -> bool {
    told(block) matches Some((name, value)) && (name == "response.completed"@ || name
        == "response.incomplete"@ || response_of(value).says("status"@, "completed"@)
        || response_of(value).says("status"@, "incomplete"@))
}

/// Whether some block of a text ends the response.
pub open spec fn has_end(buffer: Seq<char>) -> bool
    decreases buffer.len(),
    via has_end_ends
{
    match sse::first_block(buffer) {
        None => false,
        Some((block, rest)) => ends_response(block) || has_end(rest),
    }
}

#[via_fn]
proof fn has_end_ends(buffer: Seq<char>) {
    sse::first_block_shortens(buffer);
}

proof fn committed_after_end(state: ResponsesStartView)
    requires
        state.until_terminal,
    ensures
        stream_start::after_responses_blocks(state).1 is Commit ==> has_end(state.buffer),
    decreases state.buffer.len(),
{
    sse::first_block_shortens(state.buffer);
    if let Some((block, rest)) = sse::first_block(state.buffer) {
        blocks_are_told_apart(block);
        committed_after_end(ResponsesStartView { buffer: rest, ..state });
    }
}

/// A stream that is to be read to its end is handed on only when the response is
/// over.
pub proof fn streams_are_read_to_their_end(
    state: ResponsesStartView,
    chunk: Seq<u8>,
    now: u128,
)
    requires
        state.until_terminal,
        stream_start::after_responses_event(state, EventView::Chunk(chunk), now).1 is Commit,
    ensures
        is_document(text_after(state, chunk)) || has_end(text_after(state, chunk)),
{
    let all = state.remainder + chunk;
    let read = ResponsesStartView {
        first_chunk_at: match state.first_chunk_at {
            Some(t) => Some(t),
            None => Some(now),
        },
        size: stream_start::plus(state.size, chunk.len()),
        buffer: text_after(state, chunk),
        remainder: sse::pending(all),
        chunks: state.chunks.push(chunk),
        ..state
    };
    committed_after_end(read);
}

// ---------------------------------------------------------------------------
// What the failure is, and what follows it
// ---------------------------------------------------------------------------

/// The status that stands for a kind of error.
pub open spec fn status_for(kind: Seq<char>, status: u16) -> bool {
    let unavailable = kind == "service_unavailable_error"@ || kind == "overloaded_error"@ || kind
        == "server_error"@;
    &&& unavailable ==> status == 503
    &&& kind == "rate_limit_error"@ ==> status == 429
    &&& kind == "authentication_error"@ ==> status == 401
    &&& kind == "permission_error"@ ==> status == 403
    &&& kind == "invalid_request_error"@ ==> status == 400
    &&& (!unavailable && kind != "rate_limit_error"@ && kind != "authentication_error"@ && kind
        != "permission_error"@ && kind != "invalid_request_error"@) ==> status == 502
}

proof fn error_kinds_differ()
    ensures
        "service_unavailable_error"@.len() == 25,
        "overloaded_error"@.len() == 16,
        "server_error"@.len() == 12,
        "rate_limit_error"@.len() == 16,
        "rate_limit_error"@ != "overloaded_error"@,
        "permission_error"@.len() == 16,
        "permission_error"@ != "overloaded_error"@,
        "permission_error"@ != "rate_limit_error"@,
        "authentication_error"@.len() == 20,
        "invalid_request_error"@.len() == 21,
{
    reveal_strlit("service_unavailable_error");
    reveal_strlit("overloaded_error");
    reveal_strlit("server_error");
    reveal_strlit("rate_limit_error");
    reveal_strlit("permission_error");
    reveal_strlit("authentication_error");
    reveal_strlit("invalid_request_error");
    assert("overloaded_error"@[0] == 'o' && "rate_limit_error"@[0] == 'r' && "permission_error"@[0]
        == 'p');
}

/// Every error of a provider has the status that stands for its kind, and a body
/// that names its kind and its message in the Messages protocol.
pub proof fn errors_have_their_status(kind: Seq<char>, message: Seq<char>)
    ensures
        errors::upstream_error(kind, message) matches ErrorView::UpstreamError { status, body }
            && status_for(kind, status) && body == Some(
            json_codec::written(
                JsonView::Object(
                    Map::<Seq<char>, JsonView>::empty().insert(
                        "type"@,
                        JsonView::Str("error"@),
                    ).insert(
                        "error"@,
                        JsonView::Object(
                            Map::<Seq<char>, JsonView>::empty().insert(
                                "type"@,
                                JsonView::Str(kind),
                            ).insert("message"@, JsonView::Str(message)),
                        ),
                    ),
                ),
            ),
        ),
{
    error_kinds_differ();
}

/// What is told of an error: the message and the type that stand with it.
pub proof fn failures_keep_their_type_and_message(
    block: Seq<char>,
    kind: Seq<char>,
    message: Seq<char>,
)
    requires
        told(block) is Some,
        ({
            let response = response_of((told(block)->0).1);
            &&& response.get("error"@) is Some
            &&& response.get("error"@)->0.says("type"@, kind)
            &&& response.get("error"@)->0.says("message"@, message)
        }),
        kind != "error"@,
        kind != "response.failed"@,
        kind != "failed"@,
        kind != "cancelled"@,
    ensures
        responses::inspected_block(block) == Some(
            Err::<(), ErrorView>(errors::upstream_error(kind, message)),
        ),
{
}

/// An overload before output is not seen by the client: where a retry is left
/// and there is time to wait for it, the provider is asked again, and the retry
/// is taken from those that are left.
pub proof fn overloads_before_output_are_retried(
    attempt: Attempt,
    retry: ResponsesRetryState,
    event: AttemptEvent,
    now: u128,
)
    requires
        attempt.phase is Starting,
        event matches AttemptEvent::StreamFailed(e) && (e@ matches ErrorView::UpstreamError {
            status,
            ..
        } && status == 503),
        retry.wf(),
        retry.remaining > 0,
        ({
            let since = match retry.deadline_started_at {
                Some(t) => t,
                None => attempt.rules.started_at,
            };
            let limit: u128 = match attempt.rules.limit {
                Some(t) => t,
                None => 90_000_000_000,
            };
            since <= now && (now - since) + 4_000_000_000 < limit
        }),
    ensures
        ({
            let (next, left, action) = attempt.after(retry, event, now);
            &&& action matches ActionView::Wait(t) && 1_000_000_000 <= t <= 4_000_000_000
            &&& next.phase is Waiting
            &&& left.remaining == retry.remaining - 1
            &&& left.used == retry.used + 1
        }),
{
}

/// A stream reaches the client only when its start was found good.
pub proof fn only_good_starts_are_handed_on(
    attempt: Attempt,
    retry: ResponsesRetryState,
    event: AttemptEvent,
    now: u128,
)
    requires
        attempt.phase is Starting,
        attempt.after(retry, event, now).2 is Live,
    ensures
        event is StreamReady,
{
}

} // verus!
