//! What holds of forwarding as a whole.
use crate::error::ErrorView;
use crate::forwarder::anthropic;
use crate::forwarder::anthropic::ValidatorView;
use crate::forwarder::errors;
use crate::forwarder::errors::AttemptDecision;
use crate::forwarder::failover::{FailoverView, ReportView, ResultView};
use crate::forwarder::stream_start;
use crate::forwarder::stream_start::{
    AnthropicStartView, EventView, ResponsesStartView, StartView, VerdictView,
};
use crate::forwarder::{ProviderView, UpstreamResponse};
use crate::sse;
use vstd::prelude::*;

verus! {

// ---------------------------------------------------------------------------
// Streams of the Messages protocol
// ---------------------------------------------------------------------------

/// Every block that is open has a number that was seen.
pub open spec fn open_blocks_were_seen(state: ValidatorView) -> bool {
    forall|n: u64| #[trigger] state.blocks.contains_key(n) ==> state.seen.contains(n)
}

/// How a stream that is followed goes on. No number is used for two blocks: once
/// seen, it stays seen. What has substance stays so. The message ends only when
/// no block is open and something of substance has come, and after its end no
/// event is accepted.
pub proof fn streams_keep_their_life_cycle(state: ValidatorView, block: Seq<char>)
    requires
        open_blocks_were_seen(state),
    ensures
        ({
            let (next, r) = anthropic::inspected(state, block);
            &&& open_blocks_were_seen(next)
            &&& state.seen.subset_of(next.seen)
            &&& state.substantive ==> next.substantive
            &&& state.terminal_seen ==> next.terminal_seen
            &&& next.terminal_seen && !state.terminal_seen ==> next.substantive
                && next.blocks.dom() == Set::<u64>::empty()
            &&& state.terminal_seen && sse::block_fields(block).data.len() > 0 ==> r is Err
            &&& forall|n: u64| #[trigger]
                state.blocks.contains_key(n) && !next.blocks.contains_key(n)
                    ==> next.seen.contains(n)
        }),
{
    broadcast use vstd::map::group_map_axioms;
    broadcast use vstd::set::group_set_axioms;

}

/// A stream that has nothing yet begins with no block, and keeps its life cycle
/// from there.
pub proof fn fresh_streams_have_no_blocks()
    ensures
        open_blocks_were_seen(ValidatorView::fresh()),
        !ValidatorView::fresh().substantive,
        !ValidatorView::fresh().terminal_seen,
{
    broadcast use vstd::map::group_map_axioms;

}

// ---------------------------------------------------------------------------
// Providers
// ---------------------------------------------------------------------------

/// Something is recorded of every attempt, unless the circuit breaker is
/// bypassed; then nothing is.
pub proof fn every_attempt_is_recorded<T: UpstreamResponse>(
    state: FailoverView<T>,
    provider: ProviderView,
    decision: AttemptDecision,
    response: T,
    error: ErrorView,
)
    ensures
        state.responded(provider, decision, response).1.report is Some <==> !state.bypass,
        state.failed(provider, error).1.report is Some <==> !state.bypass,
        state.responded(provider, decision, response).1.report == Some(ReportView::Success) <==> (
        !state.bypass && errors::is_success(response.code())),
{
}

/// Another provider is asked only after one failed by its own fault, and what it
/// failed with is kept, under its name. A success is the result at once.
pub proof fn only_failures_move_on<T: UpstreamResponse>(
    state: FailoverView<T>,
    provider: ProviderView,
    decision: AttemptDecision,
    response: T,
    error: ErrorView,
)
    ensures
        ({
            let (next, settled) = state.responded(provider, decision, response);
            &&& settled.result is None <==> (!errors::is_success(response.code()) && decision
                == AttemptDecision::ProviderFailure)
            &&& errors::is_success(response.code()) ==> settled.result == Some(
                ResultView::Response(provider, response),
            )
            &&& settled.result is None ==> next.last_error is Some && next.last_error->0.provider
                == Some(provider)
            &&& settled.result is Some ==> next == state
        }),
        ({
            let (next, settled) = state.failed(provider, error);
            &&& settled.result is None <==> errors::error_decision(
                error,
                state.app_type,
                provider.is_codex_official,
            ) == AttemptDecision::ProviderFailure
            &&& settled.result is None ==> next.last_error is Some && next.last_error->0.provider
                == Some(provider) && next.last_error->0.error == error
        }),
{
}

/// An attempt changes neither the providers nor how many of them were asked.
pub proof fn attempts_are_counted_once<T: UpstreamResponse>(
    state: FailoverView<T>,
    provider: ProviderView,
    decision: AttemptDecision,
    response: T,
    error: ErrorView,
)
    requires
        state.wf(),
    ensures
        ({
            let next = state.responded(provider, decision, response).0;
            next.wf() && next.providers == state.providers && next.next == state.next
                && next.attempts == state.attempts
        }),
        ({
            let next = state.failed(provider, error).0;
            next.wf() && next.providers == state.providers && next.next == state.next
                && next.attempts == state.attempts
        }),
{
}

/// Where no provider was asked, none is available.
pub proof fn nobody_asked_is_nobody_available<T: UpstreamResponse>(state: FailoverView<T>)
    requires
        state.pending is None,
        state.last_error is None,
    ensures
        state.ended() == ResultView::<T>::Failure(crate::forwarder::failover::none_available()),
{
}

// ---------------------------------------------------------------------------
// The start of streams
// ---------------------------------------------------------------------------

/// What is held back of a stream before it is handed on is bounded: when reading
/// goes on, no more was read than the limit allows.
pub proof fn what_is_held_back_is_bounded(state: StartView, chunk: Seq<u8>, now: u128)
    ensures
        ({
            let (next, verdict) = state.after(EventView::Chunk(chunk), now);
            verdict is Continue ==> match next {
                StartView::Plain(_) => false,
                StartView::Anthropic(s) => s.size <= stream_start::MAX_PRIME_BYTES,
                StartView::Responses(s) => if s.until_terminal {
                    s.size < stream_start::MAX_TERMINAL_VALIDATION_BYTES
                } else {
                    s.size < stream_start::MAX_PRIME_BYTES
                },
            }
        }),
{
    match state {
        StartView::Plain(s) => {},
        StartView::Anthropic(s) => {
            let all = s.remainder + chunk;
            if let Some(t) = sse::strict_text(all) {
                stream_start::anthropic_blocks_keep(
                    AnthropicStartView {
                        buffer: s.buffer + t,
                        remainder: sse::pending(all),
                        chunks: s.chunks.push(chunk),
                        size: stream_start::plus(s.size, chunk.len()),
                        ..s
                    },
                );
            }
        },
        StartView::Responses(s) => {
            let all = s.remainder + chunk;
            stream_start::responses_blocks_keep(
                ResponsesStartView {
                    first_chunk_at: match s.first_chunk_at {
                        Some(t) => Some(t),
                        None => Some(now),
                    },
                    size: stream_start::plus(s.size, chunk.len()),
                    buffer: s.buffer + crate::text::lossy_text(sse::whole(all)),
                    remainder: sse::pending(all),
                    chunks: s.chunks.push(chunk),
                    ..s
                },
            );
        },
    }
}

/// A stream that is read to its end before it is handed on has nothing after
/// what was read.
pub proof fn a_stream_read_to_its_end_has_no_tail(
    state: ResponsesStartView,
    event: EventView,
    now: u128,
)
    requires
        state.until_terminal,
    ensures
        stream_start::after_responses_event(state, event, now).1 matches VerdictView::Commit(
            with_tail,
        ) ==> !with_tail,
    decreases state.buffer.len(),
{
    if let EventView::Chunk(chunk) = event {
        let all = state.remainder + chunk;
        blocks_commit_without_tail(
            ResponsesStartView {
                first_chunk_at: match state.first_chunk_at {
                    Some(t) => Some(t),
                    None => Some(now),
                },
                size: stream_start::plus(state.size, chunk.len()),
                buffer: state.buffer + crate::text::lossy_text(sse::whole(all)),
                remainder: sse::pending(all),
                chunks: state.chunks.push(chunk),
                ..state
            },
        );
    }
}

proof fn blocks_commit_without_tail(state: ResponsesStartView)
    requires
        state.until_terminal,
    ensures
        stream_start::after_responses_blocks(state).1 matches VerdictView::Commit(with_tail)
            ==> !with_tail,
    decreases state.buffer.len(),
{
    sse::first_block_shortens(state.buffer);
    if let Some((block, rest)) = sse::first_block(state.buffer) {
        blocks_commit_without_tail(ResponsesStartView { buffer: rest, ..state });
    }
}

} // verus!
