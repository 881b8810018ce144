//! Asking one provider after another.
use crate::error::{ErrorView, ProxyError};
use crate::error;
use crate::forwarder::errors;
use crate::forwarder::errors::{AppType, AttemptDecision};
use crate::forwarder::protocols;
use crate::forwarder::retry::ResponsesRetryState;
use crate::forwarder::{
    FailureView, ForwardFailure, ForwardOptions, ForwardedResponse, Provider, ProviderView,
    UpstreamResponse,
};
use crate::text;
use vstd::prelude::*;
use vstd::string::*;

verus! {

/// What is to be recorded of a provider.
#[derive(Debug)]
pub enum Report {
    Success,
    /// It failed, for that reason.
    Failure(String),
    /// Nothing; it may be asked as before.
    Release,
}

/// What a report says.
pub enum ReportView {
    Success,
    Failure(Seq<char>),
    Release,
}

impl View for Report {
    type V = ReportView;

    open spec fn view(&self) -> ReportView {
        match self {
            Report::Success => ReportView::Success,
            Report::Failure(m) => ReportView::Failure(m@),
            Report::Release => ReportView::Release,
        }
    }
}

/// What came of an attempt: what is to be recorded, and the result where no
/// other provider is asked.
#[derive(Debug)]
pub struct Settled<T> {
    pub report: Option<Report>,
    pub result: Option<Result<ForwardedResponse<T>, ForwardFailure>>,
}

/// What a result says.
pub enum ResultView<T> {
    Response(ProviderView, T),
    Failure(FailureView),
}

pub open spec fn result_view<T>(r: Result<ForwardedResponse<T>, ForwardFailure>) -> ResultView<T> {
    match r {
        Ok(f) => ResultView::Response(f.provider@, f.response),
        Err(f) => ResultView::Failure(f@),
    }
}

/// What came of an attempt.
pub struct SettledView<T> {
    pub report: Option<ReportView>,
    pub result: Option<ResultView<T>>,
}

impl<T> View for Settled<T> {
    type V = SettledView<T>;

    open spec fn view(&self) -> SettledView<T> {
        SettledView {
            report: match self.report {
                Some(r) => Some(r@),
                None => None,
            },
            result: match self.result {
                Some(r) => Some(result_view(r)),
                None => None,
            },
        }
    }
}

// ---------------------------------------------------------------------------
// The providers of a request
// ---------------------------------------------------------------------------

/// The providers of a request, of which one after another is asked.
#[derive(Debug)]
pub struct Failover<T> {
    app_type: AppType,
    bypass: bool,
    max_attempts: u64,
    providers: Vec<Provider>,
    next: usize,
    attempts: u64,
    pending: Option<ForwardedResponse<T>>,
    last_error: Option<ForwardFailure>,
    responses_retry: ResponsesRetryState,
    codex_anthropic_retry: ResponsesRetryState,
}

/// How far the providers of a request were asked.
#[verifier::ext_equal]
pub struct FailoverView<T> {
    pub app_type: AppType,
    /// Whether nothing is recorded.
    pub bypass: bool,
    pub max_attempts: nat,
    pub providers: Seq<ProviderView>,
    /// Which provider comes next.
    pub next: nat,
    /// How many were asked.
    pub attempts: nat,
    /// The response that the last provider sent, where it stands if no other is
    /// asked.
    pub pending: Option<(ProviderView, T)>,
    pub last_error: Option<FailureView>,
    /// The retries with providers of the Responses protocol.
    pub responses_retry: ResponsesRetryState,
    /// The retries with providers that answer a Codex client in the Messages
    /// protocol.
    pub codex_anthropic_retry: ResponsesRetryState,
}

pub open spec fn providers_view(v: Seq<Provider>) -> Seq<ProviderView> {
    v.map_values(|p: Provider| p@)
}

pub open spec fn pending_view<T>(p: Option<ForwardedResponse<T>>) -> Option<(ProviderView, T)> {
    match p {
        Some(f) => Some((f.provider@, f.response)),
        None => None,
    }
}

pub open spec fn failure_view(f: Option<ForwardFailure>) -> Option<FailureView> {
    match f {
        Some(f) => Some(f@),
        None => None,
    }
}

impl<T> View for Failover<T> {
    type V = FailoverView<T>;

    closed spec fn view(&self) -> FailoverView<T> {
        FailoverView {
            app_type: self.app_type,
            bypass: self.bypass,
            max_attempts: self.max_attempts as nat,
            providers: providers_view(self.providers@),
            next: self.next as nat,
            attempts: self.attempts as nat,
            pending: pending_view(self.pending),
            last_error: failure_view(self.last_error),
            responses_retry: self.responses_retry,
            codex_anthropic_retry: self.codex_anthropic_retry,
        }
    }
}

/// No provider could be asked.
pub open spec fn none_available() -> FailureView {
    FailureView { provider: None, error: ErrorView::NoAvailableProvider }
}

/// The failure of a provider that sent a response with that status.
pub open spec fn status_message(status: u16) -> Seq<char> {
    "upstream returned "@ + text::decimal(status as nat)
}

impl<T: UpstreamResponse> FailoverView<T> {
    /// Never more providers are asked than the options allow, nor any twice.
    pub open spec fn wf(self) -> bool {
        &&& self.attempts <= self.next <= self.providers.len()
        &&& self.attempts <= self.max_attempts
        &&& self.responses_retry.wf()
        &&& self.codex_anthropic_retry.wf()
    }

    /// Whether another provider may be asked.
    pub open spec fn goes_on(self) -> bool {
        self.next < self.providers.len() && self.attempts < self.max_attempts
    }

    /// What is recorded: nothing where the circuit breaker is bypassed.
    pub open spec fn report(self, r: ReportView) -> Option<ReportView> {
        if self.bypass {
            None
        } else {
            Some(r)
        }
    }

    /// Whether a response with the status of an error reaches the client as an
    /// error of the proxy. A response that is changed for the client stays what
    /// it is.
    pub open spec fn tells_error(self, provider: ProviderView) -> bool {
        self.app_type == AppType::Claude && !provider.needs_transform
    }

    /// What a response means. One with the status of success is the result. Of
    /// the others, one that blames the request is the result too, and one that
    /// is the fault of the provider stands only until another is asked.
    pub open spec fn responded(self, provider: ProviderView, decision: AttemptDecision, response: T) -> (
        FailoverView<T>,
        SettledView<T>,
    ) {
        let status = response.code();
        let result = ResultView::Response(provider, response);
        if errors::is_success(status) {
            (
                self,
                SettledView { report: self.report(ReportView::Success), result: Some(result) },
            )
        } else {
            let failure = FailureView { provider: Some(provider), error: response.error() };
            match decision {
                AttemptDecision::NeutralRelease => (
                    self,
                    SettledView {
                        report: self.report(ReportView::Release),
                        result: Some(
                            if self.tells_error(provider) {
                                ResultView::Failure(failure)
                            } else {
                                result
                            },
                        ),
                    },
                ),
                AttemptDecision::ProviderFailure => (
                    if self.tells_error(provider) {
                        FailoverView { last_error: Some(failure), ..self }
                    } else {
                        FailoverView {
                            pending: Some((provider, response)),
                            last_error: Some(
                                FailureView {
                                    provider: Some(provider),
                                    error: ErrorView::UpstreamError { status, body: None },
                                },
                            ),
                            ..self
                        }
                    },
                    SettledView {
                        report: self.report(ReportView::Failure(status_message(status))),
                        result: None,
                    },
                ),
                AttemptDecision::FatalStop => (
                    self,
                    SettledView {
                        report: self.report(ReportView::Failure(status_message(status))),
                        result: Some(result),
                    },
                ),
            }
        }
    }

    /// What an error means: one that is the fault of the provider is kept, and
    /// the next is asked; another is the result.
    pub open spec fn failed(self, provider: ProviderView, error: ErrorView) -> (
        FailoverView<T>,
        SettledView<T>,
    ) {
        let failure = FailureView { provider: Some(provider), error };
        if errors::error_decision(error, self.app_type, provider.is_codex_official)
            == AttemptDecision::ProviderFailure {
            (
                FailoverView { last_error: Some(failure), ..self },
                SettledView {
                    report: self.report(ReportView::Failure(error::error_message(error))),
                    result: None,
                },
            )
        } else {
            (
                self,
                SettledView {
                    report: self.report(ReportView::Release),
                    result: Some(ResultView::Failure(failure)),
                },
            )
        }
    }

    /// The result when no other provider is asked.
    pub open spec fn ended(self) -> ResultView<T> {
        match self.pending {
            Some((p, response)) => ResultView::Response(p, response),
            None => ResultView::Failure(
                match self.last_error {
                    Some(f) => f,
                    None => none_available(),
                },
            ),
        }
    }
}

impl<T: UpstreamResponse> Failover<T> {
    /// Begins with the first of the providers. The retries are as many as the
    /// options allow, and those of a Codex client have a time limit from the
    /// beginning.
    pub fn begin(
        app_type: AppType,
        options: &ForwardOptions,
        providers: Vec<Provider>,
        now: u128,
    ) -> (r: Failover<T>)
        ensures
            r@.wf(),
            r@.app_type == app_type,
            r@.bypass == options.bypass_circuit_breaker,
            r@.max_attempts == options.max_retries + 1,
            r@.providers == providers_view(providers@),
            r@.next == 0,
            r@.attempts == 0,
            r@.pending is None,
            r@.last_error is None,
            r@.responses_retry == (ResponsesRetryState {
                remaining: if app_type != AppType::Claude {
                    0
                } else if options.max_retries < 3 {
                    options.max_retries
                } else {
                    3
                },
                used: 0,
                deadline_started_at: None,
            }),
            r@.codex_anthropic_retry == (ResponsesRetryState {
                remaining: if app_type != AppType::Codex {
                    0
                } else if options.max_retries < 3 {
                    options.max_retries
                } else {
                    3
                },
                used: 0,
                deadline_started_at: if app_type == AppType::Codex && options.max_retries > 0 {
                    Some(now)
                } else {
                    None
                },
            }),
    {
        let codex = ResponsesRetryState::new(app_type == AppType::Codex, options.max_retries);
        Failover {
            app_type,
            bypass: options.bypass_circuit_breaker,
            max_attempts: options.max_retries as u64 + 1,
            providers,
            next: 0,
            attempts: 0,
            pending: None,
            last_error: None,
            responses_retry: ResponsesRetryState::new(
                app_type == AppType::Claude,
                options.max_retries,
            ),
            codex_anthropic_retry: codex.with_fallback_deadline(now),
        }
    }

    /// The next provider that may be asked, where there is one.
    pub fn next_provider(&mut self) -> (r: Option<usize>)
        requires
            old(self)@.wf(),
        ensures
            final(self)@.wf(),
            match r {
                Some(i) => old(self)@.goes_on() && i == old(self)@.next && final(self)@ == (
                FailoverView { next: old(self)@.next + 1, ..old(self)@ }),
                None => !old(self)@.goes_on() && final(self)@ == old(self)@,
            },
    {
        if self.next < self.providers.len() && self.attempts < self.max_attempts {
            let i: usize = self.next;
            self.next = self.next + 1;
            Some(i)
        } else {
            None
        }
    }

    /// Whether the router is asked, and told, about providers.
    pub fn consults_router(&self) -> (r: bool)
        ensures
            r == !self@.bypass,
    {
        !self.bypass
    }

    pub fn provider(&self, i: usize) -> (r: &Provider)
        requires
            i < self@.providers.len(),
        ensures
            r@ == self@.providers[i as int],
    {
        &self.providers[i]
    }

    /// A provider is asked: what an earlier one sent counts no more. The provider
    /// that was given last must not have been asked yet.
    pub fn begin_attempt(&mut self)
        requires
            old(self)@.wf(),
            old(self)@.attempts < old(self)@.next,
            old(self)@.attempts < old(self)@.max_attempts,
        ensures
            final(self)@.wf(),
            final(self)@ == (FailoverView {
                attempts: old(self)@.attempts + 1,
                pending: None,
                ..old(self)@
            }),
    {
        self.attempts = self.attempts + 1;
        self.pending = None;
    }

    /// The retries that an attempt with a provider may take.
    pub fn retry_state(&self, i: usize) -> (r: ResponsesRetryState)
        requires
            i < self@.providers.len(),
        ensures
            r == (if protocols::speaks_messages(self@.app_type, self@.providers[i as int]) {
                self@.codex_anthropic_retry
            } else {
                self@.responses_retry
            }),
    {
        if protocols::uses_codex_anthropic_protocol(self.app_type, &self.providers[i]) {
            self.codex_anthropic_retry
        } else {
            self.responses_retry
        }
    }

    /// The retries that an attempt with a provider has left.
    pub fn keep_retry_state(&mut self, i: usize, state: ResponsesRetryState)
        requires
            i < old(self)@.providers.len(),
        ensures
            final(self)@ == (if protocols::speaks_messages(
                old(self)@.app_type,
                old(self)@.providers[i as int],
            ) {
                FailoverView { codex_anthropic_retry: state, ..old(self)@ }
            } else {
                FailoverView { responses_retry: state, ..old(self)@ }
            }),
            old(self)@.wf() && state.wf() ==> final(self)@.wf(),
    {
        if protocols::uses_codex_anthropic_protocol(self.app_type, &self.providers[i]) {
            self.codex_anthropic_retry = state;
        } else {
            self.responses_retry = state;
        }
    }

    fn reported(&self, report: Report) -> (r: Option<Report>)
        ensures
            (match r {
                Some(x) => Some(x@),
                None => None,
            }) == self@.report(report@),
    {
        if self.bypass {
            None
        } else {
            Some(report)
        }
    }

    /// Takes in a response.
    pub fn on_response(&mut self, i: usize, decision: AttemptDecision, response: T) -> (r: Settled<T>)
        requires
            i < old(self)@.providers.len(),
        ensures
            (final(self)@, r@) == old(self)@.responded(
                old(self)@.providers[i as int],
                decision,
                response,
            ),
            old(self)@.wf() ==> final(self)@.wf(),
    {
        let status: u16 = response.status_of();
        let provider = self.providers[i].copy();
        if errors::is_success_status(status) {
            return Settled {
                report: self.reported(Report::Success),
                result: Some(Ok(ForwardedResponse { provider, response })),
            };
        }
        let tells_error = self.app_type == AppType::Claude && !provider.needs_transform;
        let code = text::to_decimal(status as u64);
        let message = text::concat2("upstream returned ", code.as_str());
        match decision {
            AttemptDecision::NeutralRelease => Settled {
                report: self.reported(Report::Release),
                result: Some(
                    if tells_error {
                        Err(ForwardFailure::new(Some(provider), response.into_error()))
                    } else {
                        Ok(ForwardedResponse { provider, response })
                    },
                ),
            },
            AttemptDecision::ProviderFailure => {
                if tells_error {
                    self.last_error =
                    Some(ForwardFailure::new(Some(provider), response.into_error()));
                } else {
                    let named = provider.copy();
                    self.pending = Some(ForwardedResponse { provider, response });
                    self.last_error =
                    Some(
                        ForwardFailure::new(
                            Some(named),
                            ProxyError::UpstreamError { status, body: None },
                        ),
                    );
                }
                Settled { report: self.reported(Report::Failure(message)), result: None }
            },
            AttemptDecision::FatalStop => Settled {
                report: self.reported(Report::Failure(message)),
                result: Some(Ok(ForwardedResponse { provider, response })),
            },
        }
    }

    /// Takes in an error.
    pub fn on_error(&mut self, i: usize, error: ProxyError) -> (r: Settled<T>)
        requires
            i < old(self)@.providers.len(),
        ensures
            (final(self)@, r@) == old(self)@.failed(old(self)@.providers[i as int], error@),
            old(self)@.wf() ==> final(self)@.wf(),
    {
        let provider = self.providers[i].copy();
        match errors::classify_attempt_error(&error, self.app_type, provider.is_codex_official) {
            AttemptDecision::ProviderFailure => {
                let report = self.reported(Report::Failure(error.message()));
                self.last_error = Some(ForwardFailure::new(Some(provider), error));
                Settled { report, result: None }
            },
            _ => Settled {
                report: self.reported(Report::Release),
                result: Some(Err(ForwardFailure::new(Some(provider), error))),
            },
        }
    }

    /// The result when no other provider is asked.
    pub fn finish(self) -> (r: Result<ForwardedResponse<T>, ForwardFailure>)
        ensures
            result_view(r) == self@.ended(),
    {
        if let Some(response) = self.pending {
            return Ok(response);
        }
        match self.last_error {
            Some(f) => Err(f),
            None => Err(ForwardFailure::new(None, ProxyError::NoAvailableProvider)),
        }
    }
}

} // verus!
