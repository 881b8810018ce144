//! What holds of attempts at a provider, of their retries and of their time.
use crate::error::ErrorView;
use crate::forwarder::attempt::{ActionView, Attempt, AttemptEvent, AttemptMode, Phase, RequestErrorView};
use crate::forwarder::errors;
use crate::forwarder::errors::{AppType, AttemptDecision};
use crate::forwarder::failover::{FailoverView, ReportView, ResultView};
use crate::forwarder::retry;
use crate::forwarder::retry::{PlanView, ResponsesRetryState};
use crate::forwarder::{FailureView, ProviderView, UpstreamResponse};
use crate::text;
use vstd::prelude::*;

verus! {

// ---------------------------------------------------------------------------
// Whose fault it is
// ---------------------------------------------------------------------------

/// The statuses that blame the request: bad, too long, of the wrong kind, or not
/// supported.
pub open spec fn request_statuses() -> Set<u16> {
    set![400u16, 405u16, 406u16, 413u16, 414u16, 415u16, 422u16, 501u16]
}

/// An answer that blames the request is no fault of the provider; any other
/// answer is. Where the user is logged in to the provider itself, an answer that
/// refuses the login is no fault of the provider either.
pub proof fn answers_blame_provider_or_request(status: u16, app_type: AppType, official: bool)
    ensures
        ({
            let login = app_type == AppType::Codex && official && (status == 401 || status == 403);
            let decision = errors::response_decision(status, app_type, official);
            &&& decision == AttemptDecision::NeutralRelease <==> login
                || request_statuses().contains(status)
            &&& decision == AttemptDecision::ProviderFailure <==> !login
                && !request_statuses().contains(status)
        }),
{
}

/// The errors for which another provider is asked: those that come from the
/// provider or the way to it, and from turning requests and answers into its
/// protocol.
pub open spec fn moves_on(error: ErrorView, app_type: AppType, official: bool) -> bool {
    let login = app_type == AppType::Codex && official;
    match error {
        ErrorView::ForwardFailed(_) => true,
        ErrorView::Timeout(_) => true,
        ErrorView::TransformError(_) => true,
        ErrorView::AuthError(_) => !login,
        ErrorView::UpstreamError { status, .. } => !request_statuses().contains(status) && !(login
            && (status == 401 || status == 403)),
        _ => false,
    }
}

/// Another provider is asked after exactly these errors. What is wrong with the
/// request or with the proxy itself ends all attempts.
pub proof fn errors_blame_provider_or_request(error: ErrorView, app_type: AppType, official: bool)
    ensures
        ({
            let decision = errors::error_decision(error, app_type, official);
            &&& decision == AttemptDecision::ProviderFailure <==> moves_on(
                error,
                app_type,
                official,
            )
            &&& error is InvalidRequest || error is Internal || error is DatabaseError || error
                is NoAvailableProvider || error is NoProvidersConfigured || error
                is AllProvidersCircuitOpen ==> decision == AttemptDecision::FatalStop
            &&& error is UpstreamError || error is AuthError ==> decision
                != AttemptDecision::FatalStop
        }),
{
}

/// Success is a status from 200 to 299.
pub proof fn successes_are_the_two_hundreds(status: u16)
    ensures
        errors::is_success(status) <==> status / 100 == 2,
{
}

// ---------------------------------------------------------------------------
// Retries
// ---------------------------------------------------------------------------

/// Twice as long each time, from one second on.
pub open spec fn doubled(n: u32) -> int
    decreases n,
{
    if n == 0 {
        1_000_000_000
    } else {
        2 * doubled((n - 1) as u32)
    }
}

/// How long there has been.
pub open spec fn elapsed(since: u128, now: u128) -> int {
    if now >= since {
        now - since
    } else {
        0
    }
}

/// Whether an error says that the provider is overloaded.
pub open spec fn is_overload(error: ErrorView) -> bool {
    error is UpstreamError && error->status == 503
}

/// A provider is asked again only when it is overloaded and there are retries
/// left. Each wait is twice as long as the one before, from one second on, and
/// ends within the time for the request, which is 90 seconds where none is set
/// and counts from the first retry on. Each wait takes one retry.
pub proof fn retries_wait_and_are_counted(
    state: ResponsesRetryState,
    error: ErrorView,
    started_at: u128,
    limit: Option<u128>,
    now: u128,
)
    requires
        state.wf(),
    ensures
        ({
            let (next, plan) = state.planned(error, started_at, limit, now);
            let since = match state.deadline_started_at {
                Some(t) => t,
                None => started_at,
            };
            let whole = match limit {
                Some(t) => t as int,
                None => 90_000_000_000,
            };
            let left = whole - elapsed(since, now);
            &&& next.wf()
            &&& plan is GiveUp <==> !is_overload(error) || state.remaining == 0
            &&& plan is GiveUp ==> next == state
            &&& is_overload(error) && state.remaining > 0 ==> next.deadline_started_at == Some(since)
            &&& is_overload(error) && state.remaining > 0 ==> (plan is Wait <==> doubled(state.used)
                < left)
            &&& plan matches PlanView::Wait(t) ==> {
                &&& t == doubled(state.used)
                &&& next.used == state.used + 1
                &&& next.remaining == state.remaining - 1
            }
            &&& plan matches PlanView::OutOfTime(e) ==> {
                &&& e == ErrorView::Timeout(
                    "request timed out after "@ + text::decimal((whole / 1_000_000_000) as nat)
                        + "s"@,
                )
                &&& next.used == state.used
                &&& next.remaining == state.remaining
            }
        }),
{
    reveal_with_fuel(doubled, 4);
}

/// There are three retries at most, and no more than the options allow.
pub proof fn retries_end(state: ResponsesRetryState)
    requires
        state.wf(),
    ensures
        state.used <= 3,
        state.used == 3 ==> state.remaining == 0,
{
}

// ---------------------------------------------------------------------------
// Time
// ---------------------------------------------------------------------------

/// A request gets what is left of its time and no more; where nothing is left it
/// is not sent and the attempt has timed out.
pub proof fn requests_are_sent_in_time(attempt: Attempt, retry: ResponsesRetryState, now: u128)
    ensures
        ({
            let (next, action) = attempt.sending(retry, now);
            let own = attempt.rules.app_type != AppType::Claude && retry.deadline_started_at
                is None;
            let since = if own {
                now
            } else if retry.deadline_started_at is Some {
                retry.deadline_started_at->0
            } else {
                attempt.rules.started_at
            };
            let whole = match (attempt.rules.limit, retry.deadline_started_at) {
                (Some(t), _) => Some(t as int),
                (None, Some(_)) => Some(90_000_000_000int),
                (None, None) => None,
            };
            match whole {
                None => action == ActionView::Send(None),
                Some(t) => if elapsed(since, now) < t {
                    action matches ActionView::Send(Some(left)) && left == t - elapsed(since, now)
                } else {
                    action matches ActionView::Failed(e) && e.error() is Timeout && next.phase
                        is Over
                },
            }
        }),
{
}

/// Once the time for retries counts, a request is prepared in what is left of
/// it, or has timed out.
pub proof fn requests_are_prepared_in_time(attempt: Attempt, retry: ResponsesRetryState, now: u128)
    ensures
        ({
            let (next, action) = attempt.preparing(retry, now);
            let whole = match attempt.rules.limit {
                Some(t) => t as int,
                None => 90_000_000_000,
            };
            match retry.deadline_started_at {
                None => action == ActionView::Prepare(None),
                Some(since) => if elapsed(since, now) < whole {
                    action matches ActionView::Prepare(Some(left)) && left == whole - elapsed(
                        since,
                        now,
                    )
                } else {
                    action matches ActionView::Failed(e) && e.error() is Timeout && next.phase
                        is Over
                },
            }
        }),
{
}

/// What is said of a request that took too long is how many seconds it had.
pub proof fn timeouts_tell_the_seconds(limit: u128)
    ensures
        retry::request_timeout(limit) == ErrorView::Timeout(
            "request timed out after "@ + text::decimal((limit / 1_000_000_000) as nat) + "s"@,
        ),
        limit >= 1_000_000_000 ==> retry::stream_timeout(limit) == ErrorView::Timeout(
            "stream timeout after "@ + text::decimal((limit / 1_000_000_000) as nat) + "s"@,
        ),
        0 < limit < 1_000_000_000 ==> retry::stream_timeout(limit) == ErrorView::Timeout(
            "stream timeout after "@ + text::decimal(1) + "s"@,
        ),
{
}

// ---------------------------------------------------------------------------
// Sending again
// ---------------------------------------------------------------------------

/// A request that did not get through is sent again at once where the client is
/// not one of the Messages protocol, the connection failed or timed out, and it
/// was not sent too often. Else the error stands.
pub proof fn requests_that_do_not_get_through(
    attempt: Attempt,
    retry: ResponsesRetryState,
    e: retry::SendError,
    since: u128,
    limit: Option<u128>,
    now: u128,
)
    requires
        attempt.wf(),
        attempt.phase == (Phase::Sending { since, limit }),
    ensures
        ({
            let (next, after, action) = attempt.after(retry, AttemptEvent::SendFailed(e), now);
            let again = attempt.rules.app_type != AppType::Claude && attempt.sent_again
                < attempt.rules.max_retries && (e.is_timeout || e.is_connect);
            &&& after == retry
            &&& next.wf()
            &&& action is Send ==> again && next.sent_again == attempt.sent_again + 1
            &&& again ==> action is Send || (action is Failed && action->Failed_0.error()
                is Timeout)
            &&& !again ==> next.phase is Over && action is Failed
            &&& !again && e.is_timeout ==> action->Failed_0.error() is Timeout
            &&& !again && !e.is_timeout ==> action->Failed_0.error() is ForwardFailed
        }),
{
}

/// A new attempt at the same provider may send again as often as the first.
pub proof fn sending_again_is_counted_per_request(
    attempt: Attempt,
    retry: ResponsesRetryState,
    timed: bool,
    now: u128,
)
    requires
        attempt.phase == Phase::Preparing(timed),
    ensures
        attempt.after(retry, AttemptEvent::Prepared, now).0.sent_again == 0 || attempt.after(
            retry,
            AttemptEvent::Prepared,
            now,
        ).0.phase is Over,
{
}

// ---------------------------------------------------------------------------
// Answers
// ---------------------------------------------------------------------------

/// What is done with an answer. A client that does not stream has its body read.
/// For one that does, a success is handed on as a stream once its start is good,
/// but for a body that is JSON where a stream of the Messages protocol was asked
/// for, which is read. A failure is read for a Messages client, and handed on as
/// it is for any other.
pub proof fn answers_are_read_or_handed_on(
    attempt: Attempt,
    retry: ResponsesRetryState,
    status: u16,
    content_type: Option<Seq<char>>,
    since: u128,
    limit: Option<u128>,
)
    ensures
        ({
            let (next, action) = attempt.answered(retry, status, content_type, since, limit);
            let streams = attempt.rules.mode == AttemptMode::Streaming;
            let success = status / 100 == 2;
            let json = content_type is Some && crate::forwarder::body::is_json_type(
                content_type->0,
            );
            &&& !streams ==> action is ReadBody
            &&& streams && success && attempt.rules.codex_anthropic && json ==> action is ReadBody
            &&& streams && success && !(attempt.rules.codex_anthropic && json) ==> action
                is StartStream
            &&& streams && !success && attempt.rules.app_type == AppType::Claude ==> action
                is ReadBody
            &&& streams && !success && attempt.rules.app_type != AppType::Claude ==> action
                == ActionView::Live(attempt.decision(status)) && next.phase is Over
            &&& action matches ActionView::ReadBody(r) ==> {
                &&& next.phase == (Phase::Reading { status })
                &&& r.limit == (if success && attempt.rules.codex_anthropic {
                    Some(16_777_216usize)
                } else {
                    None
                })
                &&& r.timeout == (if success && attempt.rules.codex_anthropic && limit is None {
                    Some(90_000_000_000u128)
                } else {
                    limit
                })
                &&& r.started_at == since
                &&& r.as_stream == streams
            }
            &&& action matches ActionView::StartStream(r) ==> {
                &&& next.phase is Starting
                &&& r.timeout == limit
                &&& r.started_at == since
                &&& r.responses == attempt.rules.responses
                &&& r.codex_anthropic == attempt.rules.codex_anthropic
                &&& r.until_terminal == attempt.rules.web_search
                &&& r.total_timeout == (retry.deadline_started_at is Some)
            }
        }),
{
}

/// A request is set right at most once, and only for a Messages client after an
/// answer that it was bad. A body that is read and stands is the answer, with
/// what its status means.
pub proof fn bodies_that_are_read(attempt: Attempt, status: u16, bytes: Seq<u8>)
    ensures
        ({
            let (next, action) = attempt.read(status, bytes);
            let wrong = !attempt.rectified && attempt.rules.app_type == AppType::Claude && (status
                == 400 || status == 422);
            &&& wrong ==> action == ActionView::Rectify(errors::error_body_message(bytes))
                && next.phase == (Phase::Rectifying { status })
            &&& !wrong ==> action is Buffered && next.phase is Over
            &&& !wrong && !(attempt.rules.mode == AttemptMode::Streaming && status / 100 == 2)
                ==> action == ActionView::Buffered(attempt.decision(status))
        }),
{
}

/// A body with an error in it does not pass for a success: the provider is asked
/// again, or the attempt has failed with that error or has timed out.
pub proof fn bad_bodies_do_not_pass(
    attempt: Attempt,
    retry: ResponsesRetryState,
    status: u16,
    bytes: Seq<u8>,
    now: u128,
)
    requires
        retry.wf(),
        status / 100 == 2,
        attempt.rules.codex_anthropic,
        crate::forwarder::anthropic::body_verdict(bytes) is Err,
    ensures
        ({
            let (next, after, action) = attempt.body_read(retry, status, bytes, now);
            let error = crate::forwarder::anthropic::body_verdict(bytes)->Err_0;
            &&& action is Wait || action is Failed
            &&& action matches ActionView::Failed(e) ==> e.error() == error || e.error() is Timeout
            &&& action is Wait ==> is_overload(error) && next.phase is Waiting && after.remaining
                == retry.remaining - 1
        }),
{
}

/// The same of a provider of the Responses protocol.
pub proof fn bad_responses_do_not_pass(
    attempt: Attempt,
    retry: ResponsesRetryState,
    status: u16,
    bytes: Seq<u8>,
    now: u128,
)
    requires
        retry.wf(),
        attempt.rules.responses,
        !attempt.rules.codex_anthropic,
        crate::forwarder::responses::body_verdict(bytes) is Err,
    ensures
        ({
            let (next, after, action) = attempt.body_read(retry, status, bytes, now);
            let error = crate::forwarder::responses::body_verdict(bytes)->Err_0;
            &&& status / 100 == 2 || is_overload(error) ==> action is Wait || action is Failed
            &&& action matches ActionView::Failed(e) ==> e.error() == error || e.error() is Timeout
            &&& action is Wait ==> is_overload(error) && next.phase is Waiting && after.remaining
                == retry.remaining - 1
            &&& status / 100 != 2 && !is_overload(error) ==> action is Rectify || action is Buffered
        }),
{
}

/// A good body is the answer, and takes no retry.
pub proof fn good_bodies_pass(
    attempt: Attempt,
    retry: ResponsesRetryState,
    status: u16,
    bytes: Seq<u8>,
    now: u128,
)
    requires
        attempt.rules.codex_anthropic && status / 100 == 2
            ==> crate::forwarder::anthropic::body_verdict(bytes) is Ok,
        attempt.rules.responses && !(attempt.rules.codex_anthropic && status / 100 == 2)
            ==> crate::forwarder::responses::body_verdict(bytes) is Ok,
    ensures
        ({
            let (next, after, action) = attempt.body_read(retry, status, bytes, now);
            &&& action is Rectify || action is Buffered
            &&& after == retry
            &&& status / 100 == 2 ==> action is Buffered
        }),
{
}

/// What follows the other events: what was prepared is sent, what was waited for
/// is sent again, a stream that is ready is handed on, a request that was set
/// right is prepared again, and one that could not be has its answer.
pub proof fn attempts_go_on(
    attempt: Attempt,
    retry: ResponsesRetryState,
    event: AttemptEvent,
    now: u128,
)
    ensures
        ({
            let (next, after, action) = attempt.after(retry, event, now);
            &&& attempt.phase is Waiting && event is Waited ==> action is Send || (action is Failed
                && action->Failed_0.error() is Timeout)
            &&& attempt.phase is Preparing && event is Prepared ==> action is Send || (action
                is Failed && action->Failed_0.error() is Timeout)
            &&& attempt.phase is Starting && event is StreamReady ==> action is Live && next.phase
                is Over
            &&& attempt.phase is Rectifying && event == AttemptEvent::Rectified(true)
                ==> next.rectified && (action is Prepare || (action is Failed
                && action->Failed_0.error() is Timeout))
            &&& attempt.phase is Rectifying && event == AttemptEvent::Rectified(false) ==> action
                is Buffered && next.phase is Over
            &&& attempt.phase is Over ==> action is Unexpected && next == attempt
            &&& action is Unexpected ==> next == attempt && after == retry
            &&& next.rules == attempt.rules
            &&& attempt.rectified ==> next.rectified && !(action is Rectify)
        }),
{
}

/// An error tells whether the provider had answered before: a request that was
/// set right follows an answer.
pub proof fn errors_tell_whether_there_was_an_answer(attempt: Attempt, error: ErrorView)
    ensures
        attempt.failed(error).1 == ActionView::Failed(
            if attempt.rectified {
                RequestErrorView::AfterResponse(error)
            } else {
                RequestErrorView::BeforeResponse(error)
            },
        ),
        attempt.failed(error).0.phase is Over,
{
}

/// What goes wrong before an answer is told as such, with the error that it is;
/// what goes wrong while an answer is read is told as after it.
pub proof fn errors_are_told_by_when_they_come(
    attempt: Attempt,
    retry: ResponsesRetryState,
    error: crate::error::ProxyError,
    now: u128,
)
    ensures
        attempt.phase is Preparing ==> attempt.after(
            retry,
            AttemptEvent::PreparationFailed(error),
            now,
        ).2 == ActionView::Failed(RequestErrorView::BeforeResponse(error@)),
        attempt.phase is Reading ==> attempt.after(retry, AttemptEvent::BodyFailed(error), now).2
            == ActionView::Failed(RequestErrorView::AfterResponse(error@)),
        attempt.phase is Sending ==> attempt.after(retry, AttemptEvent::CloneFailed, now).2
            is Failed,
        attempt.phase == Phase::Preparing(true) ==> ({
            let action = attempt.after(retry, AttemptEvent::PreparationTimedOut, now).2;
            action is Failed && action->Failed_0.error() is Timeout
        }),
{
}

/// A stream that fails before it is handed on is asked for again where the
/// provider is overloaded and a retry is left; else its error stands.
pub proof fn failed_streams_are_retried_or_told(
    attempt: Attempt,
    retry: ResponsesRetryState,
    error: crate::error::ProxyError,
    now: u128,
)
    requires
        attempt.phase is Starting,
        retry.wf(),
    ensures
        ({
            let (next, after, action) = attempt.after(
                retry,
                AttemptEvent::StreamFailed(error),
                now,
            );
            &&& action is Wait || action is Failed
            &&& action is Wait ==> is_overload(error@) && after.remaining == retry.remaining - 1
                && next.phase is Waiting
            &&& !is_overload(error@) || retry.remaining == 0 ==> action is Failed
                && action->Failed_0.error() == error@ && after == retry
        }),
{
}

// ---------------------------------------------------------------------------
// Providers
// ---------------------------------------------------------------------------

/// What a client is told of an answer that is a failure. For a Messages client,
/// where the answer is not changed for it, it is an error with the status and the
/// body of the answer; for any other it is the answer itself.
pub proof fn failures_are_told<T: UpstreamResponse>(
    state: FailoverView<T>,
    provider: ProviderView,
    response: T,
)
    requires
        response.code() / 100 != 2,
    ensures
        ({
            let (next, settled) = state.responded(
                provider,
                AttemptDecision::NeutralRelease,
                response,
            );
            &&& settled.result == Some(
                if state.app_type == AppType::Claude && !provider.needs_transform {
                    ResultView::Failure(
                        FailureView { provider: Some(provider), error: response.error() },
                    )
                } else {
                    ResultView::Response(provider, response)
                },
            )
            &&& settled.report == (if state.bypass {
                None
            } else {
                Some(ReportView::Release)
            })
        }),
{
}

/// When no other provider can be asked, the client is told of the last failure:
/// the answer itself where it may have it, else the error of the answer or of
/// the attempt.
pub proof fn last_failures_stand<T: UpstreamResponse>(
    state: FailoverView<T>,
    provider: ProviderView,
    response: T,
    error: ErrorView,
)
    requires
        response.code() / 100 != 2,
        state.pending is None,
        moves_on(error, state.app_type, provider.is_codex_official),
    ensures
        ({
            let (next, settled) = state.responded(
                provider,
                AttemptDecision::ProviderFailure,
                response,
            );
            &&& settled.result is None
            &&& settled.report == (if state.bypass {
                None
            } else {
                Some(
                    ReportView::Failure(
                        "upstream returned "@ + text::decimal(response.code() as nat),
                    ),
                )
            })
            &&& next.ended() == (if state.app_type == AppType::Claude && !provider.needs_transform {
                ResultView::Failure(
                    FailureView { provider: Some(provider), error: response.error() },
                )
            } else {
                ResultView::Response(provider, response)
            })
        }),
        ({
            let (next, settled) = state.failed(provider, error);
            &&& settled.result is None
            &&& next.ended() == ResultView::<T>::Failure(
                FailureView { provider: Some(provider), error },
            )
        }),
{
    errors_blame_provider_or_request(error, state.app_type, provider.is_codex_official);
}

/// An error that is not the provider's fault is the result, under its name, and
/// is not held against it.
pub proof fn other_errors_are_told<T: UpstreamResponse>(
    state: FailoverView<T>,
    provider: ProviderView,
    error: ErrorView,
)
    requires
        !moves_on(error, state.app_type, provider.is_codex_official),
    ensures
        ({
            let (next, settled) = state.failed(provider, error);
            &&& settled.result == Some(
                ResultView::<T>::Failure(FailureView { provider: Some(provider), error }),
            )
            &&& settled.report == (if state.bypass {
                None
            } else {
                Some(ReportView::Release)
            })
            &&& next == state
        }),
{
    errors_blame_provider_or_request(error, state.app_type, provider.is_codex_official);
}

} // verus!
