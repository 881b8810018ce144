//! Forwarding a request to one of several providers.
//!
//! What a provider answers is held to the protocol before any of it reaches
//! the client; what can be tried again is tried again, with the same provider
//! or the next. All that decides stands here; reading, sending and waiting are
//! the caller's.
use crate::error::{ErrorView, ProxyError};
use crate::forwarder::errors::upstream_error_body_from_bytes;
use std::sync::Arc;
use std::time::Duration;
use vstd::prelude::*;
use vstd::string::*;

pub mod anthropic;
pub mod attempt;
pub mod attempt_laws;
pub mod body;
pub mod errors;
pub mod failover;
pub mod laws;
pub mod message_laws;
pub mod protocols;
pub mod response_laws;
pub mod responses;
pub mod retry;
pub mod rule_laws;
pub mod start_laws;
pub mod stream_start;

verus! {

// ---------------------------------------------------------------------------
// The forwarder
// ---------------------------------------------------------------------------

/// What forwards requests, with what it needs for it: who knows which providers
/// may be asked (`R`), how requests are made better for Messages clients (`O`)
/// and for Copilot (`C`), and what is kept of earlier requests of Codex (`H`) and
/// Gemini (`G`).
pub struct RequestForwarder<R, O, C, H, G> {
    router: Arc<R>,
    optimizer_config: O,
    copilot_optimizer_config: C,
    session_id: String,
    session_client_provided: bool,
    codex_chat_history: Option<Arc<H>>,
    gemini_shadow: Option<Arc<G>>,
}

/// What a forwarder was made with.
pub struct ForwarderView<R, O, C, H, G> {
    pub router: Arc<R>,
    pub optimizer_config: O,
    pub copilot_optimizer_config: C,
    pub session_id: Seq<char>,
    pub session_client_provided: bool,
    pub codex_chat_history: Option<Arc<H>>,
    pub gemini_shadow: Option<Arc<G>>,
}

impl<R, O, C, H, G> View for RequestForwarder<R, O, C, H, G> {
    type V = ForwarderView<R, O, C, H, G>;

    closed spec fn view(&self) -> ForwarderView<R, O, C, H, G> {
        ForwarderView {
            router: self.router,
            optimizer_config: self.optimizer_config,
            copilot_optimizer_config: self.copilot_optimizer_config,
            session_id: self.session_id@,
            session_client_provided: self.session_client_provided,
            codex_chat_history: self.codex_chat_history,
            gemini_shadow: self.gemini_shadow,
        }
    }
}

impl<R, O: Default, C: Default, H, G> RequestForwarder<R, O, C, H, G> {
    /// A forwarder with nothing but a router. This does not fail.
    pub fn new(router: Arc<R>) -> (r: Result<Self, ProxyError>)
        ensures
            r matches Ok(f) && {
                &&& f@.router == router
                &&& call_ensures(O::default, (), f@.optimizer_config)
                &&& call_ensures(C::default, (), f@.copilot_optimizer_config)
                &&& f@.session_id == Seq::<char>::empty()
                &&& !f@.session_client_provided
                &&& f@.codex_chat_history is None
                &&& f@.gemini_shadow is None
            },
    {
        let f = RequestForwarder {
            router,
            optimizer_config: O::default(),
            copilot_optimizer_config: C::default(),
            session_id: String::new(),
            session_client_provided: false,
            codex_chat_history: None,
            gemini_shadow: None,
        };
        assert(f@.session_id =~= Seq::<char>::empty());
        Ok(f)
    }
}

impl<R, O, C, H, G> RequestForwarder<R, O, C, H, G> {
    pub fn with_optimizer_config(self, optimizer_config: O) -> (r: Self)
        ensures
            r@ == (ForwarderView { optimizer_config, ..self@ }),
    {
        let mut f = self;
        f.optimizer_config = optimizer_config;
        f
    }

    pub fn with_copilot_optimizer_config(self, copilot_optimizer_config: C) -> (r: Self)
        ensures
            r@ == (ForwarderView { copilot_optimizer_config, ..self@ }),
    {
        let mut f = self;
        f.copilot_optimizer_config = copilot_optimizer_config;
        f
    }

    pub fn with_session(self, session_id: String, client_provided: bool) -> (r: Self)
        ensures
            r@ == (ForwarderView {
                session_id: session_id@,
                session_client_provided: client_provided,
                ..self@
            }),
    {
        let mut f = self;
        f.session_id = session_id;
        f.session_client_provided = client_provided;
        f
    }

    pub fn with_codex_chat_history(self, history: Arc<H>) -> (r: Self)
        ensures
            r@ == (ForwarderView { codex_chat_history: Some(history), ..self@ }),
    {
        let mut f = self;
        f.codex_chat_history = Some(history);
        f
    }

    pub fn with_gemini_shadow(self, shadow: Arc<G>) -> (r: Self)
        ensures
            r@ == (ForwarderView { gemini_shadow: Some(shadow), ..self@ }),
    {
        let mut f = self;
        f.gemini_shadow = Some(shadow);
        f
    }

    pub fn router(&self) -> (r: &R)
        ensures
            r == self@.router,
    {
        &self.router
    }

    pub fn optimizer_config(&self) -> (r: &O)
        ensures
            r == self@.optimizer_config,
    {
        &self.optimizer_config
    }

    pub fn copilot_optimizer_config(&self) -> (r: &C)
        ensures
            r == self@.copilot_optimizer_config,
    {
        &self.copilot_optimizer_config
    }

    /// The session, and whether the client named it.
    pub fn session(&self) -> (r: (&str, bool))
        ensures
            r.0@ == self@.session_id,
            r.1 == self@.session_client_provided,
    {
        (self.session_id.as_str(), self.session_client_provided)
    }

    pub fn codex_chat_history(&self) -> (r: Option<&Arc<H>>)
        ensures
            match r {
                Some(h) => self@.codex_chat_history == Some(*h),
                None => self@.codex_chat_history is None,
            },
    {
        self.codex_chat_history.as_ref()
    }

    pub fn gemini_shadow(&self) -> (r: Option<&Arc<G>>)
        ensures
            match r {
                Some(g) => self@.gemini_shadow == Some(*g),
                None => self@.gemini_shadow is None,
            },
    {
        self.gemini_shadow.as_ref()
    }
}

/// How a request is to be forwarded.
#[derive(Debug, Clone, Copy)]
pub struct ForwardOptions {
    /// How many more providers may be asked than one.
    pub max_retries: u32,
    pub request_timeout: Option<Duration>,
    /// Whether every provider may be asked, and nothing is recorded of it.
    pub bypass_circuit_breaker: bool,
}

// ---------------------------------------------------------------------------
// Providers
// ---------------------------------------------------------------------------

/// A provider, with what counts of it for one request. Whether a request is
/// converted for a provider depends on the endpoint too: the last two fields
/// hold for the endpoint of the request at hand.
#[derive(Debug)]
pub struct Provider {
    pub id: String,
    /// Whether it is the official one of Codex.
    pub is_codex_official: bool,
    /// Whether a request of a Messages client is changed for it.
    pub needs_transform: bool,
    /// The format in which it serves Messages clients.
    pub claude_api_format: String,
    /// Whether the request at hand, to its endpoint, is a Responses request of
    /// Codex that becomes a chat request for this provider.
    pub converts_to_chat: bool,
    /// Whether the request at hand, to its endpoint, is a Responses request of
    /// Codex that becomes a Messages request for this provider.
    pub converts_to_anthropic: bool,
}

/// What is known of a provider for one request, to the endpoint of that request.
pub struct ProviderView {
    pub id: Seq<char>,
    pub is_codex_official: bool,
    pub needs_transform: bool,
    pub claude_api_format: Seq<char>,
    pub converts_to_chat: bool,
    pub converts_to_anthropic: bool,
}

impl View for Provider {
    type V = ProviderView;

    open spec fn view(&self) -> ProviderView {
        ProviderView {
            id: self.id@,
            is_codex_official: self.is_codex_official,
            needs_transform: self.needs_transform,
            claude_api_format: self.claude_api_format@,
            converts_to_chat: self.converts_to_chat,
            converts_to_anthropic: self.converts_to_anthropic,
        }
    }
}

impl Provider {
    pub fn copy(&self) -> (r: Provider)
        ensures
            r@ == self@,
    {
        Provider {
            id: self.id.clone(),
            is_codex_official: self.is_codex_official,
            needs_transform: self.needs_transform,
            claude_api_format: self.claude_api_format.clone(),
            converts_to_chat: self.converts_to_chat,
            converts_to_anthropic: self.converts_to_anthropic,
        }
    }
}

// ---------------------------------------------------------------------------
// Responses
// ---------------------------------------------------------------------------

/// A header of a response: its name and its value.
pub type Header = (String, Vec<u8>);

/// A response that was read.
#[derive(Debug)]
pub struct BufferedResponse {
    pub status: u16,
    pub headers: Vec<Header>,
    pub body: Vec<u8>,
}

/// A response that is handed on as it comes: what was read of it, and what
/// follows (`S`), where anything does.
#[derive(Debug)]
pub struct LiveResponse<S> {
    status: u16,
    headers: Vec<Header>,
    chunks: Vec<Vec<u8>>,
    tail: Option<S>,
}

impl<S> LiveResponse<S> {
    pub closed spec fn status_code(&self) -> u16 {
        self.status
    }

    pub closed spec fn header_list(&self) -> Seq<Header> {
        self.headers@
    }

    /// What was read.
    pub closed spec fn read(&self) -> Seq<Vec<u8>> {
        self.chunks@
    }

    /// What follows.
    pub closed spec fn rest(&self) -> Option<S> {
        self.tail
    }

    /// A response of which nothing was read.
    pub fn untouched(status: u16, headers: Vec<Header>, stream: S) -> (r: Self)
        ensures
            r.status_code() == status,
            r.header_list() == headers@,
            r.read() == Seq::<Vec<u8>>::empty(),
            r.rest() == Some(stream),
    {
        LiveResponse { status, headers, chunks: Vec::new(), tail: Some(stream) }
    }

    /// A response that begins with what was read of it.
    pub fn from_stream(
        status: u16,
        headers: Vec<Header>,
        chunks: Vec<Vec<u8>>,
        tail: Option<S>,
    ) -> (r: Self)
        ensures
            r.status_code() == status,
            r.header_list() == headers@,
            r.read() == chunks@,
            r.rest() == tail,
    {
        LiveResponse { status, headers, chunks, tail }
    }

    pub fn status(&self) -> (r: u16)
        ensures
            r == self.status_code(),
    {
        self.status
    }

    pub fn headers(&self) -> (r: &Vec<Header>)
        ensures
            r@ == self.header_list(),
    {
        &self.headers
    }

    /// The bytes of the response: what was read comes first, in the order in
    /// which it came.
    pub fn bytes_stream(self) -> (r: (Vec<Vec<u8>>, Option<S>))
        ensures
            r.0@ == self.read(),
            r.1 == self.rest(),
    {
        (self.chunks, self.tail)
    }
}

/// A response to a request that asked for a stream.
#[derive(Debug)]
pub enum StreamingResponse<S> {
    Live(LiveResponse<S>),
    Buffered(BufferedResponse),
}

impl<S> StreamingResponse<S> {
    pub open spec fn status_code(&self) -> u16 {
        match self {
            StreamingResponse::Live(response) => response.status_code(),
            StreamingResponse::Buffered(response) => response.status,
        }
    }

    pub fn status(&self) -> (r: u16)
        ensures
            r == self.status_code(),
    {
        match self {
            StreamingResponse::Live(response) => response.status(),
            StreamingResponse::Buffered(response) => response.status,
        }
    }
}

/// A response as an error, where its status is one.
pub open spec fn buffered_error(status: u16, body: Seq<u8>) -> ErrorView {
    ErrorView::UpstreamError { status, body: errors::error_body_text(body) }
}

pub fn buffered_response_to_upstream_error(response: BufferedResponse) -> (r: ProxyError)
    ensures
        r@ == buffered_error(response.status, response.body@),
{
    ProxyError::UpstreamError {
        status: response.status,
        body: upstream_error_body_from_bytes(response.body.as_slice()),
    }
}

/// A response as an error, where its status is one. Of one that was not read
/// only the status is known.
pub open spec fn streaming_error<S>(response: StreamingResponse<S>) -> ErrorView {
    match response {
        StreamingResponse::Live(live) => ErrorView::UpstreamError {
            status: live.status_code(),
            body: None,
        },
        StreamingResponse::Buffered(read) => buffered_error(read.status, read.body@),
    }
}

pub fn streaming_response_to_upstream_error<S>(response: StreamingResponse<S>) -> (r: ProxyError)
    ensures
        r@ == streaming_error(response),
{
    match response {
        StreamingResponse::Live(live) => ProxyError::UpstreamError {
            status: live.status(),
            body: None,
        },
        StreamingResponse::Buffered(read) => buffered_response_to_upstream_error(read),
    }
}

/// A response of a provider: its status, and how it is told as an error.
pub trait UpstreamResponse: Sized {
    spec fn code(&self) -> u16;

    spec fn error(&self) -> ErrorView;

    fn status_of(&self) -> (r: u16)
        ensures
            r == self.code(),
    ;

    fn into_error(self) -> (r: ProxyError)
        ensures
            r@ == self.error(),
    ;
}

impl UpstreamResponse for BufferedResponse {
    open spec fn code(&self) -> u16 {
        self.status
    }

    open spec fn error(&self) -> ErrorView {
        buffered_error(self.status, self.body@)
    }

    fn status_of(&self) -> (r: u16) {
        self.status
    }

    fn into_error(self) -> (r: ProxyError) {
        buffered_response_to_upstream_error(self)
    }
}

impl<S> UpstreamResponse for StreamingResponse<S> {
    open spec fn code(&self) -> u16 {
        self.status_code()
    }

    open spec fn error(&self) -> ErrorView {
        streaming_error(*self)
    }

    fn status_of(&self) -> (r: u16) {
        self.status()
    }

    fn into_error(self) -> (r: ProxyError) {
        streaming_response_to_upstream_error(self)
    }
}

/// A response, and the provider that sent it.
#[derive(Debug)]
pub struct ForwardedResponse<T> {
    pub provider: Provider,
    pub response: T,
}

/// An error, and the provider that it is of, where it is of one.
#[derive(Debug)]
pub struct ForwardFailure {
    pub provider: Option<Provider>,
    pub error: ProxyError,
}

/// What a failure says.
pub struct FailureView {
    pub provider: Option<ProviderView>,
    pub error: ErrorView,
}

impl View for ForwardFailure {
    type V = FailureView;

    open spec fn view(&self) -> FailureView {
        FailureView {
            provider: match self.provider {
                Some(p) => Some(p@),
                None => None,
            },
            error: self.error@,
        }
    }
}

impl ForwardFailure {
    pub fn new(provider: Option<Provider>, error: ProxyError) -> (r: ForwardFailure)
        ensures
            r == (ForwardFailure { provider, error }),
    {
        ForwardFailure { provider, error }
    }
}

} // verus!
