//! Time limits, and asking the same provider again.
//!
//! Time is counted in nanoseconds. A point in time is what the caller's clock
//! shows; the clock never goes back.
use crate::error::{ErrorView, ProxyError};
use crate::forwarder::errors;
use crate::text;
use std::time::Duration;
use vstd::prelude::*;
use vstd::string::*;

verus! {

pub const NANOS_PER_SECOND: u128 = 1_000_000_000;

/// How long to wait before the first retry.
pub const RESPONSES_RETRY_BACKOFF_BASE: u128 = 1_000_000_000;

/// How long to wait before a retry at most.
pub const RESPONSES_RETRY_BACKOFF_MAX: u128 = 4_000_000_000;

/// How often a provider is asked again at most.
pub const RESPONSES_SEMANTIC_RETRY_LIMIT: u32 = 3;

/// How long all retries may take where no limit is set.
pub const RESPONSES_RETRY_FALLBACK_TIMEOUT: u128 = 90_000_000_000;

// ---------------------------------------------------------------------------
// Time
// ---------------------------------------------------------------------------

/// How many nanoseconds a `Duration` is long.
pub uninterp spec fn duration_nanos(d: Duration) -> u128;

/// `Duration::as_nanos` gives the length in nanoseconds.
pub assume_specification[ std::time::Duration::as_nanos ](d: &std::time::Duration) -> (r: u128)
    ensures
        r == duration_nanos(*d),
;

pub open spec fn opt_nanos(d: Option<Duration>) -> Option<u128> {
    match d {
        Some(d) => Some(duration_nanos(d)),
        None => None,
    }
}

/// The length of a time limit.
pub fn limit_nanos(d: Option<Duration>) -> (r: Option<u128>)
    ensures
        r == opt_nanos(d),
{
    match d {
        Some(d) => Some(d.as_nanos()),
        None => None,
    }
}

/// The difference, and nothing below zero.
pub open spec fn less(a: u128, b: u128) -> u128 {
    if a >= b {
        (a - b) as u128
    } else {
        0
    }
}

/// What is left of a limit.
pub open spec fn time_left(limit: u128, started_at: u128, now: u128) -> u128 {
    less(limit, less(now, started_at))
}

pub fn remaining_time(limit: u128, started_at: u128, now: u128) -> (r: u128)
    ensures
        r == time_left(limit, started_at, now),
{
    limit.saturating_sub(now.saturating_sub(started_at))
}

/// The limit, else the fallback.
pub open spec fn or_fallback(limit: Option<u128>) -> u128 {
    match limit {
        Some(t) => t,
        None => RESPONSES_RETRY_FALLBACK_TIMEOUT,
    }
}

pub fn limit_or_fallback(limit: Option<u128>) -> (r: u128)
    ensures
        r == or_fallback(limit),
{
    match limit {
        Some(t) => t,
        None => RESPONSES_RETRY_FALLBACK_TIMEOUT,
    }
}

/// A request that took too long.
pub open spec fn request_timeout(limit: u128) -> ErrorView {
    ErrorView::Timeout(
        "request timed out after "@ + text::decimal((limit / NANOS_PER_SECOND) as nat) + "s"@,
    )
}

pub fn request_timeout_error(limit: u128) -> (r: ProxyError)
    ensures
        r@ == request_timeout(limit),
{
    let seconds = text::long_decimal(limit / NANOS_PER_SECOND);
    ProxyError::Timeout(text::concat3("request timed out after ", seconds.as_str(), "s"))
}

/// A stream that took too long to begin. A limit of less than a second counts
/// as one.
pub open spec fn stream_timeout(limit: u128) -> ErrorView {
    let seconds = if limit == 0 {
        0
    } else if limit < NANOS_PER_SECOND {
        1
    } else {
        limit / NANOS_PER_SECOND
    };
    ErrorView::Timeout("stream timeout after "@ + text::decimal(seconds as nat) + "s"@)
}

pub fn stream_first_byte_timeout_error(limit: u128) -> (r: ProxyError)
    ensures
        r@ == stream_timeout(limit),
{
    let seconds: u128 = if limit == 0 {
        0
    } else if limit < NANOS_PER_SECOND {
        1
    } else {
        limit / NANOS_PER_SECOND
    };
    let shown = text::long_decimal(seconds);
    ProxyError::Timeout(text::concat3("stream timeout after ", shown.as_str(), "s"))
}

/// A body that took too long.
pub open spec fn read_timeout(limit: u128, as_stream: bool) -> ErrorView {
    if as_stream {
        stream_timeout(limit)
    } else {
        request_timeout(limit)
    }
}

pub fn buffered_read_timeout_error(limit: u128, as_stream: bool) -> (r: ProxyError)
    ensures
        r@ == read_timeout(limit, as_stream),
{
    if as_stream {
        stream_first_byte_timeout_error(limit)
    } else {
        request_timeout_error(limit)
    }
}

// ---------------------------------------------------------------------------
// Sending
// ---------------------------------------------------------------------------

/// Why a request could not be sent, or its answer not be read.
#[derive(Debug)]
pub struct SendError {
    pub is_timeout: bool,
    pub is_connect: bool,
    pub message: String,
}

/// Whether sending may succeed when it is tried again.
pub open spec fn may_send_again(e: SendError) -> bool {
    e.is_timeout || e.is_connect
}

pub fn is_retryable_transport_error(e: &SendError) -> (r: bool)
    ensures
        r == may_send_again(*e),
{
    e.is_timeout || e.is_connect
}

/// The error for the client.
pub open spec fn send_error(e: SendError, limit: Option<u128>) -> ErrorView {
    if e.is_timeout {
        match limit {
            Some(t) => request_timeout(t),
            None => ErrorView::Timeout(e.message@),
        }
    } else if e.is_connect {
        ErrorView::ForwardFailed("connection failed: "@ + e.message@)
    } else {
        ErrorView::ForwardFailed(e.message@)
    }
}

pub fn map_request_send_error(e: SendError, limit: Option<u128>) -> (r: ProxyError)
    ensures
        r@ == send_error(e, limit),
{
    if e.is_timeout {
        return match limit {
            Some(t) => request_timeout_error(t),
            None => ProxyError::Timeout(e.message),
        };
    }
    if e.is_connect {
        return ProxyError::ForwardFailed(text::concat2("connection failed: ", e.message.as_str()));
    }
    ProxyError::ForwardFailed(e.message)
}

// ---------------------------------------------------------------------------
// Asking again
// ---------------------------------------------------------------------------

/// How long to wait before the retry with that number: one second, then two,
/// then four.
pub open spec fn backoff(retry: u32) -> u128 {
    if retry == 0 {
        RESPONSES_RETRY_BACKOFF_BASE
    } else if retry == 1 {
        (2 * RESPONSES_RETRY_BACKOFF_BASE) as u128
    } else {
        RESPONSES_RETRY_BACKOFF_MAX
    }
}

pub fn responses_retry_backoff(retry: u32) -> (r: u128)
    ensures
        r == backoff(retry),
        RESPONSES_RETRY_BACKOFF_BASE <= r <= RESPONSES_RETRY_BACKOFF_MAX,
{
    if retry == 0 {
        RESPONSES_RETRY_BACKOFF_BASE
    } else if retry == 1 {
        2 * RESPONSES_RETRY_BACKOFF_BASE
    } else {
        RESPONSES_RETRY_BACKOFF_MAX
    }
}

/// What is left of the retries that the providers of one request share.
#[derive(Debug, Clone, Copy, PartialEq, Eq, Structural)]
pub struct ResponsesRetryState {
    /// How many retries there may still be.
    pub remaining: u32,
    /// How many there were.
    pub used: u32,
    /// From when on the time limit counts, once it does.
    pub deadline_started_at: Option<u128>,
}

/// What is to be done about an error.
#[derive(Debug)]
pub enum RetryPlan {
    /// The error stands.
    GiveUp,
    /// There is no time for a retry.
    OutOfTime(ProxyError),
    /// Wait so long, then ask again.
    Wait(u128),
}

/// What a plan says.
pub enum PlanView {
    GiveUp,
    OutOfTime(ErrorView),
    Wait(u128),
}

impl View for RetryPlan {
    type V = PlanView;

    open spec fn view(&self) -> PlanView {
        match self {
            RetryPlan::GiveUp => PlanView::GiveUp,
            RetryPlan::OutOfTime(e) => PlanView::OutOfTime(e@),
            RetryPlan::Wait(t) => PlanView::Wait(*t),
        }
    }
}

impl ResponsesRetryState {
    /// There are never more retries than the limit allows.
    pub open spec fn wf(self) -> bool {
        self.used + self.remaining <= RESPONSES_SEMANTIC_RETRY_LIMIT
    }

    /// Where the time limit of retries counts from: once it counts, always from
    /// the same point.
    pub open spec fn with_deadline(self, started_at: u128) -> ResponsesRetryState {
        ResponsesRetryState {
            deadline_started_at: match self.deadline_started_at {
                Some(t) => Some(t),
                None => Some(started_at),
            },
            ..self
        }
    }

    /// What is to be done about an error, and what is then left.
    pub open spec fn planned(
        self,
        error: ErrorView,
        provider_started_at: u128,
        limit: Option<u128>,
        now: u128,
    ) -> (ResponsesRetryState, PlanView) {
        if !errors::is_retryable(error) || self.remaining == 0 {
            (self, PlanView::GiveUp)
        } else {
            let counting = self.with_deadline(provider_started_at);
            let whole = or_fallback(limit);
            let left = time_left(whole, counting.deadline_started_at->0, now);
            let delay = backoff(self.used);
            if left <= delay {
                (counting, PlanView::OutOfTime(request_timeout(whole)))
            } else {
                (
                    ResponsesRetryState {
                        remaining: (self.remaining - 1) as u32,
                        used: (self.used + 1) as u32,
                        ..counting
                    },
                    PlanView::Wait(delay),
                )
            }
        }
    }

    /// The limit that holds now: retries always have one.
    pub open spec fn limit_now(self, limit: Option<u128>) -> Option<u128> {
        if self.deadline_started_at is Some {
            Some(or_fallback(limit))
        } else {
            limit
        }
    }

    /// Where the time of an attempt counts from.
    pub open spec fn origin(self, provider_started_at: u128) -> u128 {
        match self.deadline_started_at {
            Some(t) => t,
            None => provider_started_at,
        }
    }

    /// The time that is left for preparing a request: no limit before the first
    /// retry.
    pub open spec fn preparation_time(self, limit: Option<u128>, now: u128) -> Result<
        Option<u128>,
        ErrorView,
    > {
        match self.deadline_started_at {
            None => Ok(None),
            Some(started_at) => {
                let whole = or_fallback(limit);
                let left = time_left(whole, started_at, now);
                if left == 0 {
                    Err(request_timeout(whole))
                } else {
                    Ok(Some(left))
                }
            },
        }
    }

    /// As many retries as are configured, within the limit, where they are
    /// enabled at all.
    pub fn new(enabled: bool, configured_retries: u32) -> (r: Self)
        ensures
            r.remaining == (if !enabled {
                0
            } else if configured_retries < RESPONSES_SEMANTIC_RETRY_LIMIT {
                configured_retries
            } else {
                RESPONSES_SEMANTIC_RETRY_LIMIT
            }),
            r.used == 0,
            r.deadline_started_at is None,
            r.wf(),
    {
        let remaining: u32 = if !enabled {
            0
        } else if configured_retries < RESPONSES_SEMANTIC_RETRY_LIMIT {
            configured_retries
        } else {
            RESPONSES_SEMANTIC_RETRY_LIMIT
        };
        ResponsesRetryState { remaining, used: 0, deadline_started_at: None }
    }

    /// With a time limit that counts from now on, where there may be retries.
    pub fn with_fallback_deadline(self, now: u128) -> (r: Self)
        ensures
            r == (if self.remaining > 0 {
                ResponsesRetryState { deadline_started_at: Some(now), ..self }
            } else {
                self
            }),
            self.wf() ==> r.wf(),
    {
        if self.remaining > 0 {
            ResponsesRetryState { deadline_started_at: Some(now), ..self }
        } else {
            self
        }
    }

    pub fn timeout_origin(&self, provider_started_at: u128) -> (r: u128)
        ensures
            r == self.origin(provider_started_at),
    {
        match self.deadline_started_at {
            Some(t) => t,
            None => provider_started_at,
        }
    }

    pub fn effective_timeout(&self, limit: Option<u128>) -> (r: Option<u128>)
        ensures
            r == self.limit_now(limit),
    {
        if self.deadline_started_at.is_some() {
            Some(limit_or_fallback(limit))
        } else {
            limit
        }
    }

    /// Decides whether to ask again, and takes the retry where there is one.
    pub fn plan_retry(
        &mut self,
        error: &ProxyError,
        provider_started_at: u128,
        limit: Option<u128>,
        now: u128,
    ) -> (r: RetryPlan)
        requires
            old(self).wf(),
        ensures
            (*final(self), r@) == old(self).planned(error@, provider_started_at, limit, now),
            final(self).used + final(self).remaining == old(self).used + old(self).remaining,
            final(self).wf(),
    {
        if !errors::is_retryable_responses_pre_output_error(error) || self.remaining == 0 {
            return RetryPlan::GiveUp;
        }
        let started_at: u128 = match self.deadline_started_at {
            Some(t) => t,
            None => provider_started_at,
        };
        self.deadline_started_at = Some(started_at);
        let whole: u128 = limit_or_fallback(limit);
        let left: u128 = remaining_time(whole, started_at, now);
        let delay: u128 = responses_retry_backoff(self.used);
        if left <= delay {
            return RetryPlan::OutOfTime(request_timeout_error(whole));
        }
        self.remaining = self.remaining - 1;
        self.used = self.used + 1;
        RetryPlan::Wait(delay)
    }

    pub fn active_remaining_timeout(&self, limit: Option<u128>, now: u128) -> (r: Result<
        Option<u128>,
        ProxyError,
    >)
        ensures
            (match r {
                Ok(t) => Ok::<Option<u128>, ErrorView>(t),
                Err(e) => Err(e@),
            }) == self.preparation_time(limit, now),
    {
        match self.deadline_started_at {
            None => Ok(None),
            Some(started_at) => {
                let whole: u128 = limit_or_fallback(limit);
                let left: u128 = remaining_time(whole, started_at, now);
                if left == 0 {
                    Err(request_timeout_error(whole))
                } else {
                    Ok(Some(left))
                }
            },
        }
    }
}

/// What happens to the retries of a request: their number never grows, one is
/// taken only where there is time to wait for it, and the time that they have
/// counts from one point, which stays.
pub proof fn retries_are_bounded(
    state: ResponsesRetryState,
    error: ErrorView,
    provider_started_at: u128,
    limit: Option<u128>,
    now: u128,
)
    requires
        state.wf(),
    ensures
        ({
            let (next, plan) = state.planned(error, provider_started_at, limit, now);
            &&& next.wf()
            &&& next.used + next.remaining == state.used + state.remaining
            &&& next.remaining <= state.remaining
            &&& state.deadline_started_at is Some ==> next.deadline_started_at
                == state.deadline_started_at
            &&& plan matches PlanView::Wait(t) ==> {
                &&& next.remaining == state.remaining - 1
                &&& next.deadline_started_at is Some
                &&& t < time_left(or_fallback(limit), next.deadline_started_at->0, now)
                &&& RESPONSES_RETRY_BACKOFF_BASE <= t <= RESPONSES_RETRY_BACKOFF_MAX
            }
        }),
{
}

/// Later retries do not wait for less.
pub proof fn backoff_grows(a: u32, b: u32)
    requires
        a <= b,
    ensures
        backoff(a) <= backoff(b),
{
}

} // verus!
