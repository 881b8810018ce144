//! An attempt: one provider is asked until it answers or cannot.
//!
//! The caller prepares, sends, reads and waits as the actions say, and hands
//! back what came of it. The retries that all providers of a request share are
//! kept by the caller too.
use crate::error::{ErrorView, ProxyError};
use crate::forwarder::anthropic;
use crate::forwarder::body;
use crate::forwarder::errors;
use crate::forwarder::errors::{AppType, AttemptDecision};
use crate::forwarder::responses;
use crate::forwarder::retry;
use crate::forwarder::retry::{PlanView, ResponsesRetryState, RetryPlan, SendError};
use crate::forwarder::stream_start::StartRules;
use crate::text;
use vstd::prelude::*;
use vstd::string::*;

verus! {

// ---------------------------------------------------------------------------
// Rules, events and actions
// ---------------------------------------------------------------------------

/// How the answer is wanted: as it comes, or as a whole.
#[derive(Debug, Clone, Copy, PartialEq, Eq, Structural)]
pub enum AttemptMode {
    Streaming,
    Buffered,
}

/// What an attempt goes by.
#[derive(Debug, Clone, Copy, PartialEq, Eq, Structural)]
pub struct AttemptRules {
    pub mode: AttemptMode,
    pub app_type: AppType,
    pub is_codex_official: bool,
    /// Whether the provider answers in the Responses protocol.
    pub responses: bool,
    /// Whether the provider answers a Codex client in the Messages protocol.
    pub codex_anthropic: bool,
    /// Whether the request uses web search.
    pub web_search: bool,
    /// How long a request may take.
    pub limit: Option<u128>,
    /// How often a request is sent again that did not get through.
    pub max_retries: u32,
    /// When the attempt began.
    pub started_at: u128,
}

/// An error of an attempt: of the first request, or of one that followed an
/// answer.
#[derive(Debug)]
pub enum RequestError {
    BeforeResponse(ProxyError),
    AfterResponse(ProxyError),
}

/// What such an error says.
pub enum RequestErrorView {
    BeforeResponse(ErrorView),
    AfterResponse(ErrorView),
}

impl View for RequestError {
    type V = RequestErrorView;

    open spec fn view(&self) -> RequestErrorView {
        match self {
            RequestError::BeforeResponse(e) => RequestErrorView::BeforeResponse(e@),
            RequestError::AfterResponse(e) => RequestErrorView::AfterResponse(e@),
        }
    }
}

impl RequestErrorView {
    /// The error itself.
    pub open spec fn error(self) -> ErrorView {
        match self {
            RequestErrorView::BeforeResponse(e) => e,
            RequestErrorView::AfterResponse(e) => e,
        }
    }
}

impl RequestError {
    /// The error itself.
    pub fn into_error(self) -> (r: ProxyError)
        ensures
            r@ == self@.error(),
    {
        match self {
            RequestError::BeforeResponse(e) => e,
            RequestError::AfterResponse(e) => e,
        }
    }
}

/// What came of an action.
#[derive(Debug)]
pub enum AttemptEvent<'a> {
    /// The request is ready.
    Prepared,
    PreparationFailed(ProxyError),
    PreparationTimedOut,
    /// The request could not be copied to be sent.
    CloneFailed,
    SendFailed(SendError),
    SendTimedOut,
    /// The head of an answer came.
    Answered { status: u16, content_type: Option<&'a str> },
    /// The stream may be handed on.
    StreamReady,
    StreamFailed(ProxyError),
    /// The whole body came.
    BodyRead(&'a [u8]),
    BodyFailed(ProxyError),
    /// The time to wait is over.
    Waited,
    /// Whether the request could be set right.
    Rectified(bool),
}

/// How a body is to be read.
#[derive(Debug, Clone, Copy, PartialEq, Eq, Structural)]
pub struct BodyRules {
    pub limit: Option<usize>,
    pub timeout: Option<u128>,
    pub started_at: u128,
    pub as_stream: bool,
}

/// What an attempt came to.
#[derive(Debug)]
pub enum AttemptOutcome {
    /// The answer is handed on as it comes.
    Live(AttemptDecision),
    /// The answer was read.
    Buffered(AttemptDecision),
    /// There is no answer.
    Failed(RequestError),
}

/// What is to be done next.
#[derive(Debug)]
pub enum AttemptAction {
    /// Prepare the request, within that time.
    Prepare(Option<u128>),
    /// Send it, within that time.
    Send(Option<u128>),
    ReadBody(BodyRules),
    /// Read the start of the stream.
    StartStream(StartRules),
    /// Wait so long.
    Wait(u128),
    /// Set the request right, by what the provider said of it.
    Rectify(Option<String>),
    Finish(AttemptOutcome),
    /// The event is none that was asked for. Nothing has changed.
    Unexpected,
}

/// What an action says.
pub enum ActionView {
    Prepare(Option<u128>),
    Send(Option<u128>),
    ReadBody(BodyRules),
    StartStream(StartRules),
    Wait(u128),
    Rectify(Option<Seq<char>>),
    Live(AttemptDecision),
    Buffered(AttemptDecision),
    Failed(RequestErrorView),
    Unexpected,
}

impl View for AttemptAction {
    type V = ActionView;

    open spec fn view(&self) -> ActionView {
        match self {
            AttemptAction::Prepare(t) => ActionView::Prepare(*t),
            AttemptAction::Send(t) => ActionView::Send(*t),
            AttemptAction::ReadBody(r) => ActionView::ReadBody(*r),
            AttemptAction::StartStream(r) => ActionView::StartStream(*r),
            AttemptAction::Wait(t) => ActionView::Wait(*t),
            AttemptAction::Rectify(m) => ActionView::Rectify(text::opt_string(*m)),
            AttemptAction::Finish(AttemptOutcome::Live(d)) => ActionView::Live(*d),
            AttemptAction::Finish(AttemptOutcome::Buffered(d)) => ActionView::Buffered(*d),
            AttemptAction::Finish(AttemptOutcome::Failed(e)) => ActionView::Failed(e@),
            AttemptAction::Unexpected => ActionView::Unexpected,
        }
    }
}

/// How far an attempt is.
#[derive(Debug, Clone, Copy, PartialEq, Eq, Structural)]
pub enum Phase {
    /// The request is being prepared, with or without a time limit.
    Preparing(bool),
    /// The request is under way: since when its time counts, and how much it has.
    Sending { since: u128, limit: Option<u128> },
    /// The body is being read.
    Reading { status: u16 },
    /// The start of the stream is being read.
    Starting,
    /// The request will be sent again.
    Waiting,
    /// The request is being set right.
    Rectifying { status: u16 },
    Over,
}

// ---------------------------------------------------------------------------
// The attempt
// ---------------------------------------------------------------------------

/// An attempt to have one provider answer.
#[derive(Debug, Clone, Copy, PartialEq, Eq, Structural)]
pub struct Attempt {
    pub rules: AttemptRules,
    /// Whether the request was set right. That happens once at most.
    pub rectified: bool,
    /// How often the request was sent again that did not get through.
    pub sent_again: u32,
    pub phase: Phase,
}

/// Whether a request is sent again at once when it did not get through. For a
/// Messages client the next provider is asked.
pub fn uses_internal_transport_retry(app_type: AppType) -> (r: bool)
    ensures
        r == (app_type != AppType::Claude),
{
    app_type != AppType::Claude
}

/// Whether a streamed answer is read as a whole because it is an error.
pub fn should_buffer_streaming_error_response(app_type: AppType, status: u16) -> (r: bool)
    ensures
        r == (app_type == AppType::Claude && !errors::is_success(status)),
{
    app_type == AppType::Claude && !errors::is_success_status(status)
}

/// Whether a request may be set right after an answer with that status.
pub open spec fn may_rectify(app_type: AppType, status: u16) -> bool {
    app_type == AppType::Claude && (status == 400 || status == 422)
}

/// What a body shows of the provider.
pub open spec fn body_check(rules: AttemptRules, status: u16, bytes: Seq<u8>) -> Result<
    (),
    ErrorView,
> {
    if errors::is_success(status) && rules.codex_anthropic {
        anthropic::body_verdict(bytes)
    } else if rules.responses {
        responses::body_verdict(bytes)
    } else {
        Ok(())
    }
}

impl Attempt {
    /// A request is not sent again more often than the rules allow, nor set right
    /// twice.
    pub open spec fn wf(self) -> bool {
        &&& self.sent_again <= self.rules.max_retries
        &&& self.phase is Rectifying ==> !self.rectified
    }

    /// An error of this attempt.
    pub open spec fn failed(self, error: ErrorView) -> (Attempt, ActionView) {
        (
            Attempt { phase: Phase::Over, ..self },
            ActionView::Failed(
                if self.rectified {
                    RequestErrorView::AfterResponse(error)
                } else {
                    RequestErrorView::BeforeResponse(error)
                },
            ),
        )
    }

    /// The request is to be prepared, in what is left of the time for retries.
    pub open spec fn preparing(self, retry: ResponsesRetryState, now: u128) -> (
        Attempt,
        ActionView,
    ) {
        match retry.preparation_time(self.rules.limit, now) {
            Err(e) => self.failed(e),
            Ok(t) => (
                Attempt { phase: Phase::Preparing(t is Some), ..self },
                ActionView::Prepare(t),
            ),
        }
    }

    /// Since when the time of a request counts: where a request is sent again at
    /// once, each has its own time, until the time for retries counts.
    pub open spec fn since(self, retry: ResponsesRetryState, now: u128) -> u128 {
        if self.rules.app_type != AppType::Claude && retry.deadline_started_at is None {
            now
        } else {
            retry.origin(self.rules.started_at)
        }
    }

    /// The request is to be sent.
    pub open spec fn sending(self, retry: ResponsesRetryState, now: u128) -> (Attempt, ActionView) {
        let since = self.since(retry, now);
        let limit = retry.limit_now(self.rules.limit);
        let under_way = Attempt { phase: Phase::Sending { since, limit }, ..self };
        match limit {
            None => (under_way, ActionView::Send(None)),
            Some(t) => {
                let left = retry::time_left(t, since, now);
                if left == 0 {
                    self.failed(retry::request_timeout(t))
                } else {
                    (under_way, ActionView::Send(Some(left)))
                }
            },
        }
    }

    /// The request is to be sent again at once, else the error stands.
    pub open spec fn sent_again_or(
        self,
        again: bool,
        error: ErrorView,
        retry: ResponsesRetryState,
        now: u128,
    ) -> (Attempt, ActionView) {
        if self.rules.app_type != AppType::Claude && self.sent_again < self.rules.max_retries
            && again {
            Attempt { sent_again: (self.sent_again + 1) as u32, ..self }.sending(retry, now)
        } else {
            self.failed(error)
        }
    }

    /// What is done with an answer, by its head.
    pub open spec fn answered(
        self,
        retry: ResponsesRetryState,
        status: u16,
        content_type: Option<Seq<char>>,
        since: u128,
        limit: Option<u128>,
    ) -> (Attempt, ActionView) {
        let success = errors::is_success(status);
        let limited = success && self.rules.codex_anthropic;
        let reading = Attempt { phase: Phase::Reading { status }, ..self };
        let rules = BodyRules {
            limit: if limited {
                Some(body::CODEX_ANTHROPIC_JSON_BODY_LIMIT)
            } else {
                None
            },
            timeout: if limited {
                Some(retry::or_fallback(limit))
            } else {
                limit
            },
            started_at: since,
            as_stream: self.rules.mode == AttemptMode::Streaming,
        };
        if self.rules.mode == AttemptMode::Buffered {
            (reading, ActionView::ReadBody(rules))
        } else if limited && content_type is Some && body::is_json_type(content_type->0) {
            (reading, ActionView::ReadBody(rules))
        } else if success {
            (
                Attempt { phase: Phase::Starting, ..self },
                ActionView::StartStream(
                    StartRules {
                        timeout: limit,
                        started_at: since,
                        responses: self.rules.responses,
                        codex_anthropic: self.rules.codex_anthropic,
                        until_terminal: self.rules.web_search,
                        total_timeout: retry.deadline_started_at is Some,
                    },
                ),
            )
        } else if self.rules.app_type == AppType::Claude {
            (reading, ActionView::ReadBody(rules))
        } else {
            (
                Attempt { phase: Phase::Over, ..self },
                ActionView::Live(self.decision(status)),
            )
        }
    }

    /// What the status of an answer means for the provider.
    pub open spec fn decision(self, status: u16) -> AttemptDecision {
        errors::response_decision(status, self.rules.app_type, self.rules.is_codex_official)
    }

    /// The answer was read and stands. One that blames the request may be an
    /// occasion to set the request right.
    pub open spec fn read(self, status: u16, bytes: Seq<u8>) -> (Attempt, ActionView) {
        if !self.rectified && may_rectify(self.rules.app_type, status) {
            (
                Attempt { phase: Phase::Rectifying { status }, ..self },
                ActionView::Rectify(errors::error_body_message(bytes)),
            )
        } else {
            (
                Attempt { phase: Phase::Over, ..self },
                ActionView::Buffered(
                    if self.rules.mode == AttemptMode::Streaming && errors::is_success(status) {
                        AttemptDecision::FatalStop
                    } else {
                        self.decision(status)
                    },
                ),
            )
        }
    }

    /// An error in an answer: the provider is asked again where it may be, else
    /// the error stands, or `otherwise` holds where there is one.
    pub open spec fn retried_or(
        self,
        retry: ResponsesRetryState,
        error: ErrorView,
        otherwise: Option<(Attempt, ActionView)>,
        now: u128,
    ) -> (Attempt, ResponsesRetryState, ActionView) {
        let (next, plan) = retry.planned(error, self.rules.started_at, self.rules.limit, now);
        let (attempt, action) = match plan {
            PlanView::Wait(t) => (Attempt { phase: Phase::Waiting, ..self }, ActionView::Wait(t)),
            PlanView::OutOfTime(e) => self.failed(e),
            PlanView::GiveUp => match otherwise {
                Some(o) => o,
                None => self.failed(error),
            },
        };
        (attempt, next, action)
    }

    /// What is done with a body. An error in a body that comes with the status
    /// of an error stands only where it says that the provider is not available.
    pub open spec fn body_read(
        self,
        retry: ResponsesRetryState,
        status: u16,
        bytes: Seq<u8>,
        now: u128,
    ) -> (Attempt, ResponsesRetryState, ActionView) {
        match body_check(self.rules, status, bytes) {
            Ok(_) => {
                let (attempt, action) = self.read(status, bytes);
                (attempt, retry, action)
            },
            Err(e) => self.retried_or(
                retry,
                e,
                if errors::is_success(status) || errors::is_retryable(e) {
                    None
                } else {
                    Some(self.read(status, bytes))
                },
                now,
            ),
        }
    }

    /// Nothing changes.
    pub open spec fn unexpected(self) -> (Attempt, ActionView) {
        (self, ActionView::Unexpected)
    }

    /// What follows an event.
    pub open spec fn after(self, retry: ResponsesRetryState, event: AttemptEvent, now: u128) -> (
        Attempt,
        ResponsesRetryState,
        ActionView,
    ) {
        match (self.phase, event) {
            (Phase::Reading { status }, AttemptEvent::BodyRead(b)) => self.body_read(
                retry,
                status,
                b@,
                now,
            ),
            (Phase::Starting, AttemptEvent::StreamFailed(e)) => self.retried_or(
                retry,
                e@,
                None,
                now,
            ),
            _ => {
                let (attempt, action) = self.after_plain(retry, event, now);
                (attempt, retry, action)
            },
        }
    }

    /// What follows an event that takes no retry.
    pub open spec fn after_plain(
        self,
        retry: ResponsesRetryState,
        event: AttemptEvent,
        now: u128,
    ) -> (Attempt, ActionView) {
        let over = Attempt { phase: Phase::Over, ..self };
        match (self.phase, event) {
            (Phase::Preparing(_), AttemptEvent::Prepared) => Attempt {
                sent_again: 0,
                ..self
            }.sending(retry, now),
            (Phase::Preparing(_), AttemptEvent::PreparationFailed(e)) => (
                over,
                ActionView::Failed(RequestErrorView::BeforeResponse(e@)),
            ),
            (Phase::Preparing(true), AttemptEvent::PreparationTimedOut) => self.failed(
                retry::request_timeout(retry::or_fallback(self.rules.limit)),
            ),
            (Phase::Sending { .. }, AttemptEvent::CloneFailed) => (
                over,
                ActionView::Failed(
                    RequestErrorView::BeforeResponse(
                        ErrorView::ForwardFailed("clone proxy request failed before retry"@),
                    ),
                ),
            ),
            (Phase::Sending { limit, .. }, AttemptEvent::SendFailed(e)) => self.sent_again_or(
                retry::may_send_again(e),
                retry::send_error(e, limit),
                retry,
                now,
            ),
            (Phase::Sending { limit: Some(t), .. }, AttemptEvent::SendTimedOut) =>
            self.sent_again_or(true, retry::request_timeout(t), retry, now),
            (
                Phase::Sending { since, limit },
                AttemptEvent::Answered { status, content_type },
            ) => self.answered(retry, status, text::opt_text(content_type), since, limit),
            (Phase::Reading { .. }, AttemptEvent::BodyFailed(e)) => (
                over,
                ActionView::Failed(RequestErrorView::AfterResponse(e@)),
            ),
            (Phase::Starting, AttemptEvent::StreamReady) => (
                over,
                ActionView::Live(AttemptDecision::FatalStop),
            ),
            (Phase::Waiting, AttemptEvent::Waited) => self.sending(retry, now),
            (Phase::Rectifying { .. }, AttemptEvent::Rectified(true)) => Attempt {
                rectified: true,
                ..self
            }.preparing(retry, now),
            (Phase::Rectifying { status }, AttemptEvent::Rectified(false)) => (
                over,
                ActionView::Buffered(self.decision(status)),
            ),
            _ => self.unexpected(),
        }
    }

    /// Begins an attempt.
    pub fn begin(rules: AttemptRules, retry: &ResponsesRetryState, now: u128) -> (r: (
        Attempt,
        AttemptAction,
    ))
        ensures
            (r.0, r.1@) == (Attempt {
                rules,
                rectified: false,
                sent_again: 0,
                phase: Phase::Over,
            }).preparing(*retry, now),
            r.0.wf(),
    {
        let mut attempt = Attempt { rules, rectified: false, sent_again: 0, phase: Phase::Over };
        let action = attempt.prepare(retry, now);
        (attempt, action)
    }

    fn fail(&mut self, error: ProxyError) -> (r: AttemptAction)
        ensures
            (*final(self), r@) == old(self).failed(error@),
    {
        self.phase = Phase::Over;
        AttemptAction::Finish(
            AttemptOutcome::Failed(
                if self.rectified {
                    RequestError::AfterResponse(error)
                } else {
                    RequestError::BeforeResponse(error)
                },
            ),
        )
    }

    fn prepare(&mut self, retry: &ResponsesRetryState, now: u128) -> (r: AttemptAction)
        ensures
            (*final(self), r@) == old(self).preparing(*retry, now),
    {
        match retry.active_remaining_timeout(self.rules.limit, now) {
            Err(e) => self.fail(e),
            Ok(t) => {
                self.phase = Phase::Preparing(t.is_some());
                AttemptAction::Prepare(t)
            },
        }
    }

    fn send(&mut self, retry: &ResponsesRetryState, now: u128) -> (r: AttemptAction)
        ensures
            (*final(self), r@) == old(self).sending(*retry, now),
    {
        let since: u128 = if uses_internal_transport_retry(self.rules.app_type)
            && retry.deadline_started_at.is_none() {
            now
        } else {
            retry.timeout_origin(self.rules.started_at)
        };
        let limit: Option<u128> = retry.effective_timeout(self.rules.limit);
        let wait: Option<u128> = match limit {
            None => None,
            Some(t) => {
                let left: u128 = retry::remaining_time(t, since, now);
                if left == 0 {
                    return self.fail(retry::request_timeout_error(t));
                }
                Some(left)
            },
        };
        self.phase = Phase::Sending { since, limit };
        AttemptAction::Send(wait)
    }

    fn send_again_or(
        &mut self,
        again: bool,
        error: ProxyError,
        retry: &ResponsesRetryState,
        now: u128,
    ) -> (r: AttemptAction)
        ensures
            (*final(self), r@) == old(self).sent_again_or(again, error@, *retry, now),
    {
        if uses_internal_transport_retry(self.rules.app_type) && self.sent_again
            < self.rules.max_retries && again {
            self.sent_again = self.sent_again + 1;
            self.send(retry, now)
        } else {
            self.fail(error)
        }
    }

    fn answer(
        &mut self,
        retry: &ResponsesRetryState,
        status: u16,
        content_type: Option<&str>,
        since: u128,
        limit: Option<u128>,
    ) -> (r: AttemptAction)
        ensures
            (*final(self), r@) == old(self).answered(
                *retry,
                status,
                text::opt_text(content_type),
                since,
                limit,
            ),
    {
        let success = errors::is_success_status(status);
        let limited = success && self.rules.codex_anthropic;
        let rules = BodyRules {
            limit: if limited {
                Some(body::CODEX_ANTHROPIC_JSON_BODY_LIMIT)
            } else {
                None
            },
            timeout: if limited {
                Some(retry::limit_or_fallback(limit))
            } else {
                limit
            },
            started_at: since,
            as_stream: self.rules.mode == AttemptMode::Streaming,
        };
        if self.rules.mode == AttemptMode::Buffered || (limited && body::response_is_json(
            content_type,
        )) {
            self.phase = Phase::Reading { status };
            return AttemptAction::ReadBody(rules);
        }
        if success {
            self.phase = Phase::Starting;
            return AttemptAction::StartStream(
                StartRules {
                    timeout: limit,
                    started_at: since,
                    responses: self.rules.responses,
                    codex_anthropic: self.rules.codex_anthropic,
                    until_terminal: self.rules.web_search,
                    total_timeout: retry.deadline_started_at.is_some(),
                },
            );
        }
        if should_buffer_streaming_error_response(self.rules.app_type, status) {
            self.phase = Phase::Reading { status };
            return AttemptAction::ReadBody(rules);
        }
        self.phase = Phase::Over;
        AttemptAction::Finish(AttemptOutcome::Live(self.classify(status)))
    }

    fn classify(&self, status: u16) -> (r: AttemptDecision)
        ensures
            r == self.decision(status),
    {
        errors::classify_upstream_response(
            status,
            self.rules.app_type,
            self.rules.is_codex_official,
        )
    }

    fn take_body(&mut self, status: u16, bytes: &[u8]) -> (r: AttemptAction)
        ensures
            (*final(self), r@) == old(self).read(status, bytes@),
    {
        if !self.rectified && self.rules.app_type == AppType::Claude && (status == 400 || status
            == 422) {
            self.phase = Phase::Rectifying { status };
            return AttemptAction::Rectify(errors::extract_upstream_error_message(bytes));
        }
        self.phase = Phase::Over;
        let decision = if self.rules.mode == AttemptMode::Streaming && errors::is_success_status(
            status,
        ) {
            AttemptDecision::FatalStop
        } else {
            self.classify(status)
        };
        AttemptAction::Finish(AttemptOutcome::Buffered(decision))
    }

    fn check_body(&self, status: u16, bytes: &[u8]) -> (r: Result<(), ProxyError>)
        ensures
            anthropic::unit_result(r) == body_check(self.rules, status, bytes@),
    {
        if errors::is_success_status(status) && self.rules.codex_anthropic {
            anthropic::validate_codex_anthropic_success_body(bytes)
        } else if self.rules.responses {
            responses::validate_buffered_responses_body(bytes)
        } else {
            Ok(())
        }
    }

    fn judge_body(
        &mut self,
        retry: &mut ResponsesRetryState,
        status: u16,
        bytes: &[u8],
        now: u128,
    ) -> (r: AttemptAction)
        requires
            old(retry).wf(),
        ensures
            (*final(self), *final(retry), r@) == old(self).body_read(
                *old(retry),
                status,
                bytes@,
                now,
            ),
            final(retry).used + final(retry).remaining == old(retry).used + old(retry).remaining,
    {
        match self.check_body(status, bytes) {
            Ok(_) => self.take_body(status, bytes),
            Err(e) => match retry.plan_retry(&e, self.rules.started_at, self.rules.limit, now) {
                RetryPlan::Wait(t) => {
                    self.phase = Phase::Waiting;
                    AttemptAction::Wait(t)
                },
                RetryPlan::OutOfTime(te) => self.fail(te),
                RetryPlan::GiveUp => {
                    if errors::is_success_status(status)
                        || errors::is_retryable_responses_pre_output_error(&e) {
                        self.fail(e)
                    } else {
                        self.take_body(status, bytes)
                    }
                },
            },
        }
    }

    fn judge_stream(
        &mut self,
        retry: &mut ResponsesRetryState,
        error: ProxyError,
        now: u128,
    ) -> (r: AttemptAction)
        requires
            old(retry).wf(),
        ensures
            (*final(self), *final(retry), r@) == old(self).retried_or(
                *old(retry),
                error@,
                None,
                now,
            ),
            final(retry).used + final(retry).remaining == old(retry).used + old(retry).remaining,
    {
        match retry.plan_retry(&error, self.rules.started_at, self.rules.limit, now) {
            RetryPlan::Wait(t) => {
                self.phase = Phase::Waiting;
                AttemptAction::Wait(t)
            },
            RetryPlan::OutOfTime(te) => self.fail(te),
            RetryPlan::GiveUp => self.fail(error),
        }
    }

    /// Takes in what came of the last action.
    pub fn on_event(
        &mut self,
        retry: &mut ResponsesRetryState,
        event: AttemptEvent,
        now: u128,
    ) -> (r: AttemptAction)
        requires
            old(retry).wf(),
        ensures
            (*final(self), *final(retry), r@) == old(self).after(*old(retry), event, now),
            final(retry).used + final(retry).remaining == old(retry).used + old(retry).remaining,
            final(retry).wf(),
    {
        match (self.phase, event) {
            (Phase::Preparing(_), AttemptEvent::Prepared) => {
                self.sent_again = 0;
                self.send(retry, now)
            },
            (Phase::Preparing(_), AttemptEvent::PreparationFailed(e)) => {
                self.phase = Phase::Over;
                AttemptAction::Finish(AttemptOutcome::Failed(RequestError::BeforeResponse(e)))
            },
            (Phase::Preparing(true), AttemptEvent::PreparationTimedOut) => {
                let whole: u128 = retry::limit_or_fallback(self.rules.limit);
                self.fail(retry::request_timeout_error(whole))
            },
            (Phase::Sending { .. }, AttemptEvent::CloneFailed) => {
                self.phase = Phase::Over;
                AttemptAction::Finish(
                    AttemptOutcome::Failed(
                        RequestError::BeforeResponse(
                            ProxyError::ForwardFailed(
                                "clone proxy request failed before retry".to_owned(),
                            ),
                        ),
                    ),
                )
            },
            (Phase::Sending { limit, .. }, AttemptEvent::SendFailed(e)) => {
                let again = retry::is_retryable_transport_error(&e);
                self.send_again_or(again, retry::map_request_send_error(e, limit), retry, now)
            },
            (Phase::Sending { limit: Some(t), .. }, AttemptEvent::SendTimedOut) => {
                self.send_again_or(true, retry::request_timeout_error(t), retry, now)
            },
            (
                Phase::Sending { since, limit },
                AttemptEvent::Answered { status, content_type },
            ) => self.answer(retry, status, content_type, since, limit),
            (Phase::Starting, AttemptEvent::StreamReady) => {
                self.phase = Phase::Over;
                AttemptAction::Finish(AttemptOutcome::Live(AttemptDecision::FatalStop))
            },
            (Phase::Starting, AttemptEvent::StreamFailed(e)) => self.judge_stream(retry, e, now),
            (Phase::Reading { status }, AttemptEvent::BodyRead(b)) => self.judge_body(
                retry,
                status,
                b,
                now,
            ),
            (Phase::Reading { .. }, AttemptEvent::BodyFailed(e)) => {
                self.phase = Phase::Over;
                AttemptAction::Finish(AttemptOutcome::Failed(RequestError::AfterResponse(e)))
            },
            (Phase::Waiting, AttemptEvent::Waited) => self.send(retry, now),
            (Phase::Rectifying { .. }, AttemptEvent::Rectified(true)) => {
                self.rectified = true;
                self.prepare(retry, now)
            },
            (Phase::Rectifying { status }, AttemptEvent::Rectified(false)) => {
                self.phase = Phase::Over;
                AttemptAction::Finish(AttemptOutcome::Buffered(self.classify(status)))
            },
            _ => AttemptAction::Unexpected,
        }
    }
}

// ---------------------------------------------------------------------------
// Laws
// ---------------------------------------------------------------------------

/// How far an attempt can be from its end: whether the request may still be set
/// right, whether it is still to be prepared, how many retries are left, how
/// often the request may still be sent again, and the phase.
pub open spec fn distance(attempt: Attempt, retry: ResponsesRetryState) -> (int, int, int, int, int) {
    (
        if attempt.rectified {
            0
        } else {
            1
        },
        if attempt.phase is Preparing {
            1
        } else {
            0
        },
        retry.remaining as int,
        attempt.rules.max_retries - attempt.sent_again,
        match attempt.phase {
            Phase::Preparing(_) => 0,
            Phase::Waiting => 4,
            Phase::Sending { .. } => 3,
            Phase::Reading { .. } => 2,
            Phase::Starting => 2,
            Phase::Rectifying { .. } => 1,
            Phase::Over => 0,
        },
    )
}

/// Whether the first of two distances is the smaller one: where they differ
/// first, it is.
pub open spec fn nearer(a: (int, int, int, int, int), b: (int, int, int, int, int)) -> bool {
    if a.0 != b.0 {
        0 <= a.0 < b.0
    } else if a.1 != b.1 {
        0 <= a.1 < b.1
    } else if a.2 != b.2 {
        0 <= a.2 < b.2
    } else if a.3 != b.3 {
        0 <= a.3 < b.3
    } else {
        0 <= a.4 < b.4
    }
}

/// An event that was asked for brings an attempt nearer to its end.
pub open spec fn comes_nearer(
    attempt: Attempt,
    retry: ResponsesRetryState,
    event: AttemptEvent,
    now: u128,
) -> bool {
    let (next, next_retry, action) = attempt.after(retry, event, now);
    action is Unexpected || nearer(distance(next, next_retry), distance(attempt, retry))
}

/// Every attempt ends: each event that was asked for brings it nearer to its
/// end, and an event that was not asked for changes nothing.
#[verifier::rlimit(60)]
pub proof fn attempts_end(
    attempt: Attempt,
    retry: ResponsesRetryState,
    event: AttemptEvent,
    now: u128,
)
    requires
        attempt.wf(),
    ensures
        attempt.after(retry, event, now).0.wf(),
        attempt.after(retry, event, now).2 is Unexpected ==> attempt.after(retry, event, now).0
            == attempt && attempt.after(retry, event, now).1 == retry,
        comes_nearer(attempt, retry, event, now),
{
    match attempt.phase {
        Phase::Reading { .. } => {},
        Phase::Sending { .. } => {},
        Phase::Preparing(_) => {},
        Phase::Starting => {},
        Phase::Waiting => {},
        Phase::Rectifying { .. } => {},
        Phase::Over => {},
    }
}

/// What an attempt goes by does not change, and a request that was set right is
/// not set right again.
pub proof fn requests_are_set_right_once(
    attempt: Attempt,
    retry: ResponsesRetryState,
    event: AttemptEvent,
    now: u128,
)
    ensures
        ({
            let (next, next_retry, action) = attempt.after(retry, event, now);
            &&& next.rules == attempt.rules
            &&& attempt.rectified ==> next.rectified && !(action is Rectify)
            &&& action is Rectify ==> attempt.rules.app_type == AppType::Claude
        }),
{
}

/// A provider is asked again only while nothing has reached the client: no wait
/// follows an outcome, and an attempt that is over takes no event.
#[verifier::rlimit(60)]
pub proof fn outcomes_are_final(
    attempt: Attempt,
    retry: ResponsesRetryState,
    event: AttemptEvent,
    now: u128,
)
    ensures
        ({
            let (next, next_retry, action) = attempt.after(retry, event, now);
            &&& (action is Live || action is Buffered || action is Failed) ==> next.phase is Over
            &&& attempt.phase is Over ==> action is Unexpected && next == attempt && next_retry
                == retry
        }),
{
    match attempt.phase {
        Phase::Reading { .. } => {},
        Phase::Sending { .. } => {},
        Phase::Preparing(_) => {},
        Phase::Starting => {},
        Phase::Waiting => {},
        Phase::Rectifying { .. } => {},
        Phase::Over => {},
    }
}

/// For a Messages client a request that did not get through is not sent again to
/// the same provider.
pub proof fn claude_requests_are_not_resent(
    attempt: Attempt,
    retry: ResponsesRetryState,
    event: AttemptEvent,
    now: u128,
)
    requires
        attempt.rules.app_type == AppType::Claude,
        event is SendFailed || event is SendTimedOut,
    ensures
        attempt.after(retry, event, now).2 is Failed || attempt.after(
            retry,
            event,
            now,
        ).2 is Unexpected,
{
}

} // verus!
