//! The start of a stream: it is read until it is clear that the provider
//! answers, and only then handed on, from its first byte.
use crate::error::{ErrorView, ProxyError};
use crate::forwarder::anthropic;
use crate::forwarder::anthropic::{AnthropicStreamStartValidator, ValidatorView};
use crate::forwarder::body;
use crate::forwarder::errors;
use crate::forwarder::errors::{
    empty_codex_anthropic_stream_error, malformed_anthropic_stream_error,
};
use crate::forwarder::responses;
use crate::forwarder::retry;
use crate::sse;
use crate::text;
use vstd::prelude::*;
use vstd::string::*;

verus! {

/// How much of a stream is read at most before it is handed on.
pub const MAX_PRIME_BYTES: usize = 262_144;

/// How much of a stream is read at most when it is read to its end.
pub const MAX_TERMINAL_VALIDATION_BYTES: usize = 4_194_304;

/// How long a stream is read at most, from its first bytes on, when it is read
/// to its end.
pub const TERMINAL_VALIDATION_TIMEOUT: u128 = 600_000_000_000;

// ---------------------------------------------------------------------------
// Events and verdicts
// ---------------------------------------------------------------------------

/// What came of waiting for bytes.
#[derive(Debug)]
pub enum StreamEvent {
    Chunk(Vec<u8>),
    Failed(String),
    Ended,
    TimedOut,
}

/// What an event says.
pub enum EventView {
    Chunk(Seq<u8>),
    Failed(Seq<char>),
    Ended,
    TimedOut,
}

impl View for StreamEvent {
    type V = EventView;

    open spec fn view(&self) -> EventView {
        match self {
            StreamEvent::Chunk(c) => EventView::Chunk(c@),
            StreamEvent::Failed(e) => EventView::Failed(e@),
            StreamEvent::Ended => EventView::Ended,
            StreamEvent::TimedOut => EventView::TimedOut,
        }
    }
}

/// What is to be done with a stream.
#[derive(Debug)]
pub enum Verdict {
    /// Read on.
    Continue,
    /// Hand on what was read, and what follows it where `with_tail` says so.
    Commit { with_tail: bool },
    /// Give the stream up.
    Fail(ProxyError),
}

/// What a verdict says.
pub enum VerdictView {
    Continue,
    Commit(bool),
    Fail(ErrorView),
}

impl View for Verdict {
    type V = VerdictView;

    open spec fn view(&self) -> VerdictView {
        match self {
            Verdict::Continue => VerdictView::Continue,
            Verdict::Commit { with_tail } => VerdictView::Commit(*with_tail),
            Verdict::Fail(e) => VerdictView::Fail(e@),
        }
    }
}

/// How long to wait for bytes.
#[derive(Debug)]
pub enum WaitPlan {
    /// Wait so long, or without end.
    Read(Option<u128>),
    /// Nothing need be read.
    Commit,
    /// There is no time left.
    Fail(ProxyError),
}

/// What a plan says.
pub enum WaitView {
    Read(Option<u128>),
    Commit,
    Fail(ErrorView),
}

impl View for WaitPlan {
    type V = WaitView;

    open spec fn view(&self) -> WaitView {
        match self {
            WaitPlan::Read(t) => WaitView::Read(*t),
            WaitPlan::Commit => WaitView::Commit,
            WaitPlan::Fail(e) => WaitView::Fail(e@),
        }
    }
}

/// The views of chunks.
pub open spec fn chunks_view(v: Seq<Vec<u8>>) -> Seq<Seq<u8>> {
    v.map_values(|c: Vec<u8>| c@)
}

pub proof fn chunks_push(v: Seq<Vec<u8>>, c: Vec<u8>)
    ensures
        chunks_view(v.push(c)) == chunks_view(v).push(c@),
{
    assert(chunks_view(v.push(c)) =~= chunks_view(v).push(c@));
}

/// The sum, and nothing above the largest number.
pub open spec fn plus(a: usize, b: nat) -> usize {
    if a + b > usize::MAX {
        usize::MAX
    } else {
        (a + b) as usize
    }
}

fn sum(a: usize, b: usize) -> (r: usize)
    ensures
        r == plus(a, b as nat),
{
    a.saturating_add(b)
}

// ---------------------------------------------------------------------------
// The Messages protocol
// ---------------------------------------------------------------------------

/// How far the start of a stream of the Messages protocol is read.
#[verifier::ext_equal]
pub struct AnthropicStartView {
    pub timeout: Option<u128>,
    pub started_at: u128,
    pub chunks: Seq<Seq<u8>>,
    pub size: usize,
    pub buffer: Seq<char>,
    pub remainder: Seq<u8>,
    pub validator: ValidatorView,
}

/// What the blocks show that were read: the first with substance lets the
/// stream pass.
pub open spec fn after_anthropic_blocks(state: AnthropicStartView) -> (
    AnthropicStartView,
    VerdictView,
)
    decreases state.buffer.len(),
    via after_anthropic_blocks_ends
{
    match sse::first_block(state.buffer) {
        None => (state, VerdictView::Continue),
        Some((block, rest)) => {
            let (validator, r) = anthropic::inspected(state.validator, block);
            let next = AnthropicStartView { buffer: rest, validator, ..state };
            match r {
                Err(e) => (next, VerdictView::Fail(e)),
                Ok(true) => (next, VerdictView::Commit(true)),
                Ok(false) => after_anthropic_blocks(next),
            }
        },
    }
}

#[via_fn]
proof fn after_anthropic_blocks_ends(state: AnthropicStartView) {
    sse::first_block_shortens(state.buffer);
}

/// More bytes of a stream of the Messages protocol.
pub open spec fn after_anthropic_chunk(state: AnthropicStartView, chunk: Seq<u8>) -> (
    AnthropicStartView,
    VerdictView,
) {
    let sized = AnthropicStartView { size: plus(state.size, chunk.len()), ..state };
    let all = state.remainder + chunk;
    if sized.size > MAX_PRIME_BYTES {
        (
            sized,
            VerdictView::Fail(
                errors::unusable(
                    "Anthropic stream exceeded 262144 bytes before producing text, reasoning, or a complete tool call"@,
                ),
            ),
        )
    } else {
        match sse::strict_text(all) {
            None => (
                AnthropicStartView { remainder: Seq::empty(), ..sized },
                VerdictView::Fail(
                    errors::unusable("Anthropic SSE stream contained invalid UTF-8"@),
                ),
            ),
            Some(s) => after_anthropic_blocks(
                AnthropicStartView {
                    buffer: state.buffer + s,
                    remainder: sse::pending(all),
                    chunks: state.chunks.push(chunk),
                    ..sized
                },
            ),
        }
    }
}

/// The end of a stream of the Messages protocol: the last block may be without
/// its end, or all of it one document.
pub open spec fn after_anthropic_end(state: AnthropicStartView) -> (
    AnthropicStartView,
    VerdictView,
) {
    if state.remainder.len() > 0 {
        (
            state,
            VerdictView::Fail(
                errors::unusable(
                    "Anthropic stream ended with incomplete UTF-8 before producing output"@,
                ),
            ),
        )
    } else {
        let (validator, r) = anthropic::inspected(state.validator, state.buffer);
        let next = AnthropicStartView { validator, ..state };
        match r {
            Err(e) => (next, VerdictView::Fail(e)),
            Ok(true) => (next, VerdictView::Commit(false)),
            Ok(false) => match anthropic::inspected_document(state.buffer) {
                Some(Ok(_)) => (next, VerdictView::Commit(false)),
                Some(Err(e)) => (next, VerdictView::Fail(e)),
                None => (
                    next,
                    VerdictView::Fail(
                        errors::unusable(
                            "Anthropic stream ended before producing text, reasoning, or a tool call"@,
                        ),
                    ),
                ),
            },
        }
    }
}

/// What an event means for a stream of the Messages protocol.
pub open spec fn after_anthropic_event(state: AnthropicStartView, event: EventView) -> (
    AnthropicStartView,
    VerdictView,
) {
    match event {
        EventView::Chunk(c) => after_anthropic_chunk(state, c),
        EventView::Ended => after_anthropic_end(state),
        EventView::Failed(e) => (
            state,
            VerdictView::Fail(
                ErrorView::ForwardFailed(
                    "failed while validating Anthropic stream start: "@ + e,
                ),
            ),
        ),
        EventView::TimedOut => (
            state,
            VerdictView::Fail(retry::stream_timeout(retry::or_fallback(state.timeout))),
        ),
    }
}

/// How long to wait for the next bytes of a stream.
pub open spec fn stream_wait(timeout: Option<u128>, started_at: u128, now: u128) -> WaitView {
    match timeout {
        None => WaitView::Read(None),
        Some(t) => {
            let left = retry::time_left(t, started_at, now);
            if left == 0 {
                WaitView::Fail(retry::stream_timeout(t))
            } else {
                WaitView::Read(Some(left))
            }
        },
    }
}

fn plan_stream_wait(timeout: Option<u128>, started_at: u128, now: u128) -> (r: WaitPlan)
    ensures
        r@ == stream_wait(timeout, started_at, now),
{
    match timeout {
        None => WaitPlan::Read(None),
        Some(t) => {
            let left: u128 = retry::remaining_time(t, started_at, now);
            if left == 0 {
                WaitPlan::Fail(retry::stream_first_byte_timeout_error(t))
            } else {
                WaitPlan::Read(Some(left))
            }
        },
    }
}

/// The start of a stream of the Messages protocol.
#[derive(Debug)]
pub struct AnthropicStreamStart {
    timeout: Option<u128>,
    started_at: u128,
    chunks: Vec<Vec<u8>>,
    size: usize,
    buffer: String,
    remainder: Vec<u8>,
    validator: AnthropicStreamStartValidator,
}

impl View for AnthropicStreamStart {
    type V = AnthropicStartView;

    closed spec fn view(&self) -> AnthropicStartView {
        AnthropicStartView {
            timeout: self.timeout,
            started_at: self.started_at,
            chunks: chunks_view(self.chunks@),
            size: self.size,
            buffer: self.buffer@,
            remainder: self.remainder@,
            validator: self.validator@,
        }
    }
}

impl AnthropicStreamStart {
    /// Begins to read, where the bytes are not encoded.
    pub fn begin(timeout: Option<u128>, started_at: u128, encoding: Option<&str>) -> (r: Result<
        AnthropicStreamStart,
        ProxyError,
    >)
        ensures
            match r {
                Ok(s) => !body::is_encoded(text::opt_text(encoding)) && s@ == (AnthropicStartView {
                    timeout,
                    started_at,
                    chunks: Seq::empty(),
                    size: 0,
                    buffer: Seq::empty(),
                    remainder: Seq::empty(),
                    validator: ValidatorView::fresh(),
                }),
                Err(e) => body::is_encoded(text::opt_text(encoding)) && e@ == errors::unusable(
                    "Anthropic SSE response used content encoding despite an identity request"@,
                ),
            },
    {
        if body::uses_content_encoding(encoding) {
            return Err(
                malformed_anthropic_stream_error(
                    "Anthropic SSE response used content encoding despite an identity request",
                ),
            );
        }
        let s = AnthropicStreamStart {
            timeout,
            started_at,
            chunks: Vec::new(),
            size: 0,
            buffer: String::new(),
            remainder: Vec::new(),
            validator: AnthropicStreamStartValidator::default(),
        };
        assert(s@.chunks =~= Seq::<Seq<u8>>::empty());
        assert(s@.buffer =~= Seq::<char>::empty());
        Ok(s)
    }

    pub fn wait_plan(&self, now: u128) -> (r: WaitPlan)
        ensures
            r@ == stream_wait(self@.timeout, self@.started_at, now),
    {
        plan_stream_wait(self.timeout, self.started_at, now)
    }

    fn take_blocks(&mut self) -> (r: Verdict)
        ensures
            (final(self)@, r@) == after_anthropic_blocks(old(self)@),
    {
        let ghost start = self@;
        loop
            invariant
                after_anthropic_blocks(self@) == after_anthropic_blocks(start),
                start == old(self)@,
            decreases self.buffer@.len(),
        {
            proof {
                sse::first_block_shortens(self.buffer@);
            }
            match sse::take_sse_block(&mut self.buffer) {
                None => {
                    return Verdict::Continue;
                },
                Some(block) => match self.validator.inspect_sse_block(block.as_str()) {
                    Err(e) => {
                        return Verdict::Fail(e);
                    },
                    Ok(b) => {
                        if b {
                            return Verdict::Commit { with_tail: true };
                        }
                    },
                },
            }
        }
    }

    fn take_chunk(&mut self, chunk: Vec<u8>) -> (r: Verdict)
        ensures
            (final(self)@, r@) == after_anthropic_chunk(old(self)@, chunk@),
    {
        self.size = sum(self.size, chunk.len());
        if self.size > MAX_PRIME_BYTES {
            return Verdict::Fail(
                empty_codex_anthropic_stream_error(
                    "Anthropic stream exceeded 262144 bytes before producing text, reasoning, or a complete tool call",
                ),
            );
        }
        if let Err(e) = anthropic::append_utf8_strict(
            &mut self.buffer,
            &mut self.remainder,
            chunk.as_slice(),
        ) {
            return Verdict::Fail(e);
        }
        proof {
            chunks_push(self.chunks@, chunk);
        }
        self.chunks.push(chunk);
        self.take_blocks()
    }

    fn take_end(&mut self) -> (r: Verdict)
        ensures
            (final(self)@, r@) == after_anthropic_end(old(self)@),
    {
        if self.remainder.len() > 0 {
            return Verdict::Fail(
                empty_codex_anthropic_stream_error(
                    "Anthropic stream ended with incomplete UTF-8 before producing output",
                ),
            );
        }
        match self.validator.inspect_sse_block(self.buffer.as_str()) {
            Err(e) => {
                return Verdict::Fail(e);
            },
            Ok(b) => {
                if b {
                    return Verdict::Commit { with_tail: false };
                }
            },
        }
        match anthropic::inspect_anthropic_json_document(self.buffer.as_str()) {
            Some(Ok(_)) => Verdict::Commit { with_tail: false },
            Some(Err(e)) => Verdict::Fail(e),
            None => Verdict::Fail(
                empty_codex_anthropic_stream_error(
                    "Anthropic stream ended before producing text, reasoning, or a tool call",
                ),
            ),
        }
    }

    /// Takes in what came.
    pub fn on_event(&mut self, event: StreamEvent) -> (r: Verdict)
        ensures
            (final(self)@, r@) == after_anthropic_event(old(self)@, event@),
    {
        match event {
            StreamEvent::Chunk(c) => self.take_chunk(c),
            StreamEvent::Ended => self.take_end(),
            StreamEvent::Failed(e) => Verdict::Fail(
                ProxyError::ForwardFailed(
                    text::concat2(
                        "failed while validating Anthropic stream start: ",
                        e.as_str(),
                    ),
                ),
            ),
            StreamEvent::TimedOut => Verdict::Fail(
                retry::stream_first_byte_timeout_error(retry::limit_or_fallback(self.timeout)),
            ),
        }
    }

    /// What was read, to be handed on first.
    pub fn into_chunks(self) -> (r: Vec<Vec<u8>>)
        ensures
            chunks_view(r@) == self@.chunks,
    {
        self.chunks
    }
}

// ---------------------------------------------------------------------------
// The Responses protocol
// ---------------------------------------------------------------------------

/// How far the start of a stream of the Responses protocol is read.
#[verifier::ext_equal]
pub struct ResponsesStartView {
    pub timeout: Option<u128>,
    pub started_at: u128,
    /// Whether the stream is read until the response has ended.
    pub until_terminal: bool,
    /// Whether the time limit holds until then.
    pub total_timeout: bool,
    pub first_chunk_at: Option<u128>,
    pub chunks: Seq<Seq<u8>>,
    pub size: usize,
    pub buffer: Seq<char>,
    pub remainder: Seq<u8>,
}

impl ResponsesStartView {
    /// Whether the limit for reading a response to its end holds now.
    pub open spec fn reads_to_end(self) -> bool {
        self.first_chunk_at is Some && self.until_terminal && !self.total_timeout
    }

    /// The error when the limit that holds now is over.
    pub open spec fn timeout_error(self) -> ErrorView {
        if self.reads_to_end() {
            ErrorView::Timeout("Responses terminal validation timed out after 600s"@)
        } else {
            retry::stream_timeout(retry::or_fallback(self.timeout))
        }
    }

    /// How long to wait for the next bytes.
    pub open spec fn wait(self, now: u128) -> WaitView {
        if self.reads_to_end() {
            let left = retry::time_left(TERMINAL_VALIDATION_TIMEOUT, self.first_chunk_at->0, now);
            if left == 0 {
                WaitView::Fail(self.timeout_error())
            } else {
                WaitView::Read(Some(left))
            }
        } else {
            stream_wait(self.timeout, self.started_at, now)
        }
    }
}

/// What the blocks show that were read: an error, or that the stream may pass.
pub open spec fn after_responses_blocks(state: ResponsesStartView) -> (
    ResponsesStartView,
    VerdictView,
)
    decreases state.buffer.len(),
    via after_responses_blocks_ends
{
    match sse::first_block(state.buffer) {
        None => (state, VerdictView::Continue),
        Some((block, rest)) => {
            let next = ResponsesStartView { buffer: rest, ..state };
            match responses::inspected_block(block) {
                Some(Err(e)) => (next, VerdictView::Fail(e)),
                Some(Ok(_)) => if !state.until_terminal || responses::is_terminal_block(block) {
                    (next, VerdictView::Commit(!state.until_terminal))
                } else {
                    after_responses_blocks(next)
                },
                None => after_responses_blocks(next),
            }
        },
    }
}

#[via_fn]
proof fn after_responses_blocks_ends(state: ResponsesStartView) {
    sse::first_block_shortens(state.buffer);
}

/// A stream that is too long to be read to its end.
pub open spec fn too_long_to_end() -> ErrorView {
    ErrorView::ForwardFailed("Responses stream exceeded 4194304 bytes before a terminal event"@)
}

fn too_long_to_end_error() -> (r: ProxyError)
    ensures
        r@ == too_long_to_end(),
{
    ProxyError::ForwardFailed(
        "Responses stream exceeded 4194304 bytes before a terminal event".to_owned(),
    )
}

/// More bytes of a stream of the Responses protocol. Where the stream is not
/// read to its end, it is handed on once enough was read.
pub open spec fn after_responses_chunk(state: ResponsesStartView, chunk: Seq<u8>, now: u128) -> (
    ResponsesStartView,
    VerdictView,
) {
    let sized = ResponsesStartView {
        first_chunk_at: match state.first_chunk_at {
            Some(t) => Some(t),
            None => Some(now),
        },
        size: plus(state.size, chunk.len()),
        ..state
    };
    if state.until_terminal && sized.size > MAX_TERMINAL_VALIDATION_BYTES {
        (sized, VerdictView::Fail(too_long_to_end()))
    } else {
        let all = state.remainder + chunk;
        let read = ResponsesStartView {
            buffer: state.buffer + text::lossy_text(sse::whole(all)),
            remainder: sse::pending(all),
            chunks: state.chunks.push(chunk),
            ..sized
        };
        match responses::inspected_document(read.buffer) {
            Some(Err(e)) => (read, VerdictView::Fail(e)),
            Some(Ok(_)) => (read, VerdictView::Commit(!state.until_terminal)),
            None => {
                let (next, verdict) = after_responses_blocks(read);
                if !(verdict is Continue) {
                    (next, verdict)
                } else if state.until_terminal && next.size >= MAX_TERMINAL_VALIDATION_BYTES {
                    (next, VerdictView::Fail(too_long_to_end()))
                } else if !state.until_terminal && next.size >= MAX_PRIME_BYTES {
                    (next, VerdictView::Commit(true))
                } else {
                    (next, VerdictView::Continue)
                }
            },
        }
    }
}

/// The end of a stream of the Responses protocol: all of it may be one document,
/// or the last block without its end.
pub open spec fn responses_end_verdict(state: ResponsesStartView) -> VerdictView {
    match responses::inspected_document(state.buffer) {
        Some(Err(e)) => VerdictView::Fail(e),
        Some(Ok(_)) => VerdictView::Commit(false),
        None => {
            let last = if text::blank(state.buffer) {
                None
            } else {
                responses::inspected_block(text::trimmed(state.buffer))
            };
            match last {
                Some(Err(e)) => VerdictView::Fail(e),
                Some(Ok(_)) => VerdictView::Commit(false),
                None => VerdictView::Fail(
                    ErrorView::ForwardFailed(
                        "Responses stream ended before producing output or a terminal event"@,
                    ),
                ),
            }
        },
    }
}

/// What an event means for a stream of the Responses protocol.
pub open spec fn after_responses_event(state: ResponsesStartView, event: EventView, now: u128) -> (
    ResponsesStartView,
    VerdictView,
) {
    match event {
        EventView::Chunk(c) => after_responses_chunk(state, c, now),
        EventView::Ended => (state, responses_end_verdict(state)),
        EventView::Failed(e) => (
            state,
            VerdictView::Fail(
                ErrorView::ForwardFailed(
                    "failed while validating Responses stream start: "@ + e,
                ),
            ),
        ),
        EventView::TimedOut => (state, VerdictView::Fail(state.timeout_error())),
    }
}

/// The start of a stream of the Responses protocol.
#[derive(Debug)]
pub struct ResponsesStreamStart {
    timeout: Option<u128>,
    started_at: u128,
    until_terminal: bool,
    total_timeout: bool,
    first_chunk_at: Option<u128>,
    chunks: Vec<Vec<u8>>,
    size: usize,
    buffer: String,
    remainder: Vec<u8>,
}

impl View for ResponsesStreamStart {
    type V = ResponsesStartView;

    closed spec fn view(&self) -> ResponsesStartView {
        ResponsesStartView {
            timeout: self.timeout,
            started_at: self.started_at,
            until_terminal: self.until_terminal,
            total_timeout: self.total_timeout,
            first_chunk_at: self.first_chunk_at,
            chunks: chunks_view(self.chunks@),
            size: self.size,
            buffer: self.buffer@,
            remainder: self.remainder@,
        }
    }
}

impl ResponsesStreamStart {
    pub fn begin(
        timeout: Option<u128>,
        started_at: u128,
        until_terminal: bool,
        total_timeout: bool,
    ) -> (r: ResponsesStreamStart)
        ensures
            r@ == (ResponsesStartView {
                timeout,
                started_at,
                until_terminal,
                total_timeout,
                first_chunk_at: None,
                chunks: Seq::empty(),
                size: 0,
                buffer: Seq::empty(),
                remainder: Seq::empty(),
            }),
    {
        let s = ResponsesStreamStart {
            timeout,
            started_at,
            until_terminal,
            total_timeout,
            first_chunk_at: None,
            chunks: Vec::new(),
            size: 0,
            buffer: String::new(),
            remainder: Vec::new(),
        };
        assert(s@.chunks =~= Seq::<Seq<u8>>::empty());
        assert(s@.buffer =~= Seq::<char>::empty());
        s
    }

    fn timeout_error(&self) -> (r: ProxyError)
        ensures
            r@ == self@.timeout_error(),
    {
        if self.first_chunk_at.is_some() && self.until_terminal && !self.total_timeout {
            ProxyError::Timeout("Responses terminal validation timed out after 600s".to_owned())
        } else {
            retry::stream_first_byte_timeout_error(retry::limit_or_fallback(self.timeout))
        }
    }

    pub fn wait_plan(&self, now: u128) -> (r: WaitPlan)
        ensures
            r@ == self@.wait(now),
    {
        if let Some(t) = self.first_chunk_at {
            if self.until_terminal && !self.total_timeout {
                let left: u128 = retry::remaining_time(TERMINAL_VALIDATION_TIMEOUT, t, now);
                return if left == 0 {
                    WaitPlan::Fail(self.timeout_error())
                } else {
                    WaitPlan::Read(Some(left))
                };
            }
        }
        plan_stream_wait(self.timeout, self.started_at, now)
    }

    fn take_blocks(&mut self) -> (r: Verdict)
        ensures
            (final(self)@, r@) == after_responses_blocks(old(self)@),
    {
        let ghost start = self@;
        loop
            invariant
                after_responses_blocks(self@) == after_responses_blocks(start),
                self@.until_terminal == start.until_terminal,
                start == old(self)@,
            decreases self.buffer@.len(),
        {
            proof {
                sse::first_block_shortens(self.buffer@);
            }
            match sse::take_sse_block(&mut self.buffer) {
                None => {
                    return Verdict::Continue;
                },
                Some(block) => match responses::inspect_responses_start_event(block.as_str()) {
                    Some(Err(e)) => {
                        return Verdict::Fail(e);
                    },
                    Some(Ok(_)) => {
                        if !self.until_terminal || responses::responses_block_is_terminal_success(
                            block.as_str(),
                        ) {
                            return Verdict::Commit { with_tail: !self.until_terminal };
                        }
                    },
                    None => {},
                },
            }
        }
    }

    fn take_chunk(&mut self, chunk: Vec<u8>, now: u128) -> (r: Verdict)
        ensures
            (final(self)@, r@) == after_responses_chunk(old(self)@, chunk@, now),
    {
        if self.first_chunk_at.is_none() {
            self.first_chunk_at = Some(now);
        }
        self.size = sum(self.size, chunk.len());
        if self.until_terminal && self.size > MAX_TERMINAL_VALIDATION_BYTES {
            return Verdict::Fail(too_long_to_end_error());
        }
        sse::append_utf8_safe(&mut self.buffer, &mut self.remainder, chunk.as_slice());
        proof {
            chunks_push(self.chunks@, chunk);
        }
        self.chunks.push(chunk);
        match responses::inspect_responses_json_document(self.buffer.as_str()) {
            Some(Err(e)) => {
                return Verdict::Fail(e);
            },
            Some(Ok(_)) => {
                return Verdict::Commit { with_tail: !self.until_terminal };
            },
            None => {},
        }
        let ghost read = self@;
        let verdict = self.take_blocks();
        proof {
            responses_blocks_keep(read);
        }
        if let Verdict::Continue = verdict {
            if self.until_terminal && self.size >= MAX_TERMINAL_VALIDATION_BYTES {
                return Verdict::Fail(too_long_to_end_error());
            }
            if !self.until_terminal && self.size >= MAX_PRIME_BYTES {
                return Verdict::Commit { with_tail: true };
            }
        }
        verdict
    }

    fn take_end(&self) -> (r: Verdict)
        ensures
            r@ == responses_end_verdict(self@),
    {
        match responses::inspect_responses_json_document(self.buffer.as_str()) {
            Some(Err(e)) => {
                return Verdict::Fail(e);
            },
            Some(Ok(_)) => {
                return Verdict::Commit { with_tail: false };
            },
            None => {},
        }
        if !text::is_blank(self.buffer.as_str()) {
            let last = text::trim(self.buffer.as_str());
            match responses::inspect_responses_start_event(last.as_str()) {
                Some(Err(e)) => {
                    return Verdict::Fail(e);
                },
                Some(Ok(_)) => {
                    return Verdict::Commit { with_tail: false };
                },
                None => {},
            }
        }
        Verdict::Fail(
            ProxyError::ForwardFailed(
                "Responses stream ended before producing output or a terminal event".to_owned(),
            ),
        )
    }

    /// Takes in what came.
    pub fn on_event(&mut self, event: StreamEvent, now: u128) -> (r: Verdict)
        ensures
            (final(self)@, r@) == after_responses_event(old(self)@, event@, now),
    {
        match event {
            StreamEvent::Chunk(c) => self.take_chunk(c, now),
            StreamEvent::Ended => self.take_end(),
            StreamEvent::Failed(e) => Verdict::Fail(
                ProxyError::ForwardFailed(
                    text::concat2(
                        "failed while validating Responses stream start: ",
                        e.as_str(),
                    ),
                ),
            ),
            StreamEvent::TimedOut => Verdict::Fail(self.timeout_error()),
        }
    }

    /// What was read, to be handed on first.
    pub fn into_chunks(self) -> (r: Vec<Vec<u8>>)
        ensures
            chunks_view(r@) == self@.chunks,
    {
        self.chunks
    }
}

/// Reading blocks changes nothing but the text that is left.
pub proof fn responses_blocks_keep(state: ResponsesStartView)
    ensures
        ({
            let next = after_responses_blocks(state).0;
            next == (ResponsesStartView { buffer: next.buffer, ..state })
        }),
    decreases state.buffer.len(),
{
    sse::first_block_shortens(state.buffer);
    if let Some((block, rest)) = sse::first_block(state.buffer) {
        responses_blocks_keep(ResponsesStartView { buffer: rest, ..state });
    }
}

/// Reading blocks changes nothing but the text that is left and what is known
/// of the stream.
pub proof fn anthropic_blocks_keep(state: AnthropicStartView)
    ensures
        ({
            let next = after_anthropic_blocks(state).0;
            next == (AnthropicStartView {
                buffer: next.buffer,
                validator: next.validator,
                ..state
            })
        }),
    decreases state.buffer.len(),
{
    sse::first_block_shortens(state.buffer);
    if let Some((block, rest)) = sse::first_block(state.buffer) {
        let (validator, r) = anthropic::inspected(state.validator, block);
        anthropic_blocks_keep(AnthropicStartView { buffer: rest, validator, ..state });
    }
}

// ---------------------------------------------------------------------------
// Any stream
// ---------------------------------------------------------------------------

/// How far the start of a stream is read of which only the first bytes count.
#[verifier::ext_equal]
pub struct PlainStartView {
    pub timeout: Option<u128>,
    pub started_at: u128,
    pub chunks: Seq<Seq<u8>>,
}

/// What an event means for a stream of which only the first bytes count.
pub open spec fn after_plain_event(state: PlainStartView, event: EventView) -> (
    PlainStartView,
    VerdictView,
) {
    match event {
        EventView::Chunk(c) => (
            PlainStartView { chunks: state.chunks.push(c), ..state },
            VerdictView::Commit(true),
        ),
        EventView::Ended => (
            state,
            VerdictView::Fail(
                ErrorView::ForwardFailed("stream ended before the first response chunk"@),
            ),
        ),
        EventView::Failed(e) => (
            state,
            VerdictView::Fail(
                ErrorView::ForwardFailed("read first response chunk failed: "@ + e),
            ),
        ),
        EventView::TimedOut => (
            state,
            VerdictView::Fail(retry::stream_timeout(retry::or_fallback(state.timeout))),
        ),
    }
}

/// The start of a stream of which only the first bytes count.
#[derive(Debug)]
pub struct PlainStreamStart {
    timeout: Option<u128>,
    started_at: u128,
    chunks: Vec<Vec<u8>>,
}

impl View for PlainStreamStart {
    type V = PlainStartView;

    closed spec fn view(&self) -> PlainStartView {
        PlainStartView {
            timeout: self.timeout,
            started_at: self.started_at,
            chunks: chunks_view(self.chunks@),
        }
    }
}

impl PlainStreamStart {
    pub fn begin(timeout: Option<u128>, started_at: u128) -> (r: PlainStreamStart)
        ensures
            r@ == (PlainStartView { timeout, started_at, chunks: Seq::empty() }),
    {
        let s = PlainStreamStart { timeout, started_at, chunks: Vec::new() };
        assert(s@.chunks =~= Seq::<Seq<u8>>::empty());
        s
    }

    /// How long to wait for the first bytes. Without a time limit the stream is
    /// handed on as it is.
    pub fn wait_plan(&self, now: u128) -> (r: WaitPlan)
        ensures
            r@ == (if self@.timeout is None {
                WaitView::Commit
            } else {
                stream_wait(self@.timeout, self@.started_at, now)
            }),
    {
        if self.timeout.is_none() {
            return WaitPlan::Commit;
        }
        plan_stream_wait(self.timeout, self.started_at, now)
    }

    /// Takes in what came.
    pub fn on_event(&mut self, event: StreamEvent) -> (r: Verdict)
        ensures
            (final(self)@, r@) == after_plain_event(old(self)@, event@),
    {
        match event {
            StreamEvent::Chunk(c) => {
                proof {
                    chunks_push(self.chunks@, c);
                }
                self.chunks.push(c);
                Verdict::Commit { with_tail: true }
            },
            StreamEvent::Ended => Verdict::Fail(
                ProxyError::ForwardFailed(
                    "stream ended before the first response chunk".to_owned(),
                ),
            ),
            StreamEvent::Failed(e) => Verdict::Fail(
                ProxyError::ForwardFailed(
                    text::concat2("read first response chunk failed: ", e.as_str()),
                ),
            ),
            StreamEvent::TimedOut => Verdict::Fail(
                retry::stream_first_byte_timeout_error(retry::limit_or_fallback(self.timeout)),
            ),
        }
    }

    /// What was read, to be handed on first.
    pub fn into_chunks(self) -> (r: Vec<Vec<u8>>)
        ensures
            chunks_view(r@) == self@.chunks,
    {
        self.chunks
    }
}

/// What a stream is held to before it is handed on.
#[derive(Debug, Clone, Copy, PartialEq, Eq, Structural)]
pub struct StartRules {
    /// The time limit, and when it began.
    pub timeout: Option<u128>,
    pub started_at: u128,
    /// Whether the stream is one of the Responses protocol.
    pub responses: bool,
    /// Whether the stream is one of the Messages protocol for a Codex client.
    pub codex_anthropic: bool,
    /// Whether a stream of the Responses protocol is read until the response has
    /// ended.
    pub until_terminal: bool,
    /// Whether the time limit holds until then.
    pub total_timeout: bool,
}

/// The start of a stream.
#[derive(Debug)]
pub enum StreamStart {
    Plain(PlainStreamStart),
    Anthropic(AnthropicStreamStart),
    Responses(ResponsesStreamStart),
}

/// How far the start of a stream is read.
pub enum StartView {
    Plain(PlainStartView),
    Anthropic(AnthropicStartView),
    Responses(ResponsesStartView),
}

impl View for StreamStart {
    type V = StartView;

    open spec fn view(&self) -> StartView {
        match self {
            StreamStart::Plain(s) => StartView::Plain(s@),
            StreamStart::Anthropic(s) => StartView::Anthropic(s@),
            StreamStart::Responses(s) => StartView::Responses(s@),
        }
    }
}

impl StartView {
    /// What was read.
    pub open spec fn chunks(self) -> Seq<Seq<u8>> {
        match self {
            StartView::Plain(s) => s.chunks,
            StartView::Anthropic(s) => s.chunks,
            StartView::Responses(s) => s.chunks,
        }
    }

    /// How long to wait for bytes.
    pub open spec fn wait(self, now: u128) -> WaitView {
        match self {
            StartView::Plain(s) => if s.timeout is None {
                WaitView::Commit
            } else {
                stream_wait(s.timeout, s.started_at, now)
            },
            StartView::Anthropic(s) => stream_wait(s.timeout, s.started_at, now),
            StartView::Responses(s) => s.wait(now),
        }
    }

    /// What an event means.
    pub open spec fn after(self, event: EventView, now: u128) -> (StartView, VerdictView) {
        match self {
            StartView::Plain(s) => {
                let (next, verdict) = after_plain_event(s, event);
                (StartView::Plain(next), verdict)
            },
            StartView::Anthropic(s) => {
                let (next, verdict) = after_anthropic_event(s, event);
                (StartView::Anthropic(next), verdict)
            },
            StartView::Responses(s) => {
                let (next, verdict) = after_responses_event(s, event, now);
                (StartView::Responses(next), verdict)
            },
        }
    }
}

/// How the start of a stream begins to be read.
pub open spec fn begun(rules: StartRules, encoding: Option<Seq<char>>) -> Result<StartView, ErrorView> {
    if rules.responses {
        Ok(
            StartView::Responses(
                ResponsesStartView {
                    timeout: rules.timeout,
                    started_at: rules.started_at,
                    until_terminal: rules.until_terminal,
                    total_timeout: rules.total_timeout,
                    first_chunk_at: None,
                    chunks: Seq::empty(),
                    size: 0,
                    buffer: Seq::empty(),
                    remainder: Seq::empty(),
                },
            ),
        )
    } else if rules.codex_anthropic {
        if body::is_encoded(encoding) {
            Err(
                errors::unusable(
                    "Anthropic SSE response used content encoding despite an identity request"@,
                ),
            )
        } else {
            Ok(
                StartView::Anthropic(
                    AnthropicStartView {
                        timeout: Some(retry::or_fallback(rules.timeout)),
                        started_at: rules.started_at,
                        chunks: Seq::empty(),
                        size: 0,
                        buffer: Seq::empty(),
                        remainder: Seq::empty(),
                        validator: ValidatorView::fresh(),
                    },
                ),
            )
        }
    } else {
        Ok(
            StartView::Plain(
                PlainStartView {
                    timeout: rules.timeout,
                    started_at: rules.started_at,
                    chunks: Seq::empty(),
                },
            ),
        )
    }
}

impl StreamStart {
    pub fn begin(rules: StartRules, encoding: Option<&str>) -> (r: Result<StreamStart, ProxyError>)
        ensures
            (match r {
                Ok(s) => Ok::<StartView, ErrorView>(s@),
                Err(e) => Err(e@),
            }) == begun(rules, text::opt_text(encoding)),
    {
        if rules.responses {
            return Ok(
                StreamStart::Responses(
                    ResponsesStreamStart::begin(
                        rules.timeout,
                        rules.started_at,
                        rules.until_terminal,
                        rules.total_timeout,
                    ),
                ),
            );
        }
        if rules.codex_anthropic {
            let timeout: u128 = retry::limit_or_fallback(rules.timeout);
            return match AnthropicStreamStart::begin(Some(timeout), rules.started_at, encoding) {
                Ok(s) => Ok(StreamStart::Anthropic(s)),
                Err(e) => Err(e),
            };
        }
        Ok(StreamStart::Plain(PlainStreamStart::begin(rules.timeout, rules.started_at)))
    }

    pub fn wait_plan(&self, now: u128) -> (r: WaitPlan)
        ensures
            r@ == self@.wait(now),
    {
        match self {
            StreamStart::Plain(s) => s.wait_plan(now),
            StreamStart::Anthropic(s) => s.wait_plan(now),
            StreamStart::Responses(s) => s.wait_plan(now),
        }
    }

    /// Takes in what came.
    pub fn on_event(&mut self, event: StreamEvent, now: u128) -> (r: Verdict)
        ensures
            (final(self)@, r@) == old(self)@.after(event@, now),
    {
        match self {
            StreamStart::Plain(s) => s.on_event(event),
            StreamStart::Anthropic(s) => s.on_event(event),
            StreamStart::Responses(s) => s.on_event(event, now),
        }
    }

    /// What was read, to be handed on first.
    pub fn into_chunks(self) -> (r: Vec<Vec<u8>>)
        ensures
            chunks_view(r@) == self@.chunks(),
    {
        match self {
            StreamStart::Plain(s) => s.into_chunks(),
            StreamStart::Anthropic(s) => s.into_chunks(),
            StreamStart::Responses(s) => s.into_chunks(),
        }
    }
}

/// A stream is handed on from its first byte: whenever it may pass or is read
/// on, what was read is all that came.
pub proof fn nothing_read_is_lost(state: StartView, event: EventView, now: u128)
    ensures
        ({
            let (next, verdict) = state.after(event, now);
            !(verdict is Fail) ==> next.chunks() == (match event {
                EventView::Chunk(c) => state.chunks().push(c),
                _ => state.chunks(),
            })
        }),
{
    match state {
        StartView::Plain(s) => {},
        StartView::Anthropic(s) => {
            if let EventView::Chunk(c) = event {
                let all = s.remainder + c;
                if let Some(t) = sse::strict_text(all) {
                    anthropic_blocks_keep(
                        AnthropicStartView {
                            buffer: s.buffer + t,
                            remainder: sse::pending(all),
                            chunks: s.chunks.push(c),
                            size: plus(s.size, c.len()),
                            ..s
                        },
                    );
                }
            }
        },
        StartView::Responses(s) => {
            if let EventView::Chunk(c) = event {
                let all = s.remainder + c;
                responses_blocks_keep(
                    ResponsesStartView {
                        first_chunk_at: match s.first_chunk_at {
                            Some(t) => Some(t),
                            None => Some(now),
                        },
                        size: plus(s.size, c.len()),
                        buffer: s.buffer + text::lossy_text(sse::whole(all)),
                        remainder: sse::pending(all),
                        chunks: s.chunks.push(c),
                        ..s
                    },
                );
            }
        },
    }
}

} // verus!
