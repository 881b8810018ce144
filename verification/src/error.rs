//! The errors of the proxy.
use crate::text;
use vstd::prelude::*;
use vstd::string::*;

verus! {

#[derive(Debug, Clone, PartialEq, Eq)]
pub enum ProxyError {
    AlreadyRunning,
    NotRunning,
    BindFailed(String),
    StopTimeout,
    StopFailed(String),
    ForwardFailed(String),
    NoAvailableProvider,
    AllProvidersCircuitOpen,
    NoProvidersConfigured,
    DatabaseError(String),
    TransformError(String),
    InvalidRequest(String),
    Timeout(String),
    AuthError(String),
    UpstreamError { status: u16, body: Option<String> },
    Internal(String),
}

/// What an error says.
pub enum ErrorView {
    AlreadyRunning,
    NotRunning,
    BindFailed(Seq<char>),
    StopTimeout,
    StopFailed(Seq<char>),
    ForwardFailed(Seq<char>),
    NoAvailableProvider,
    AllProvidersCircuitOpen,
    NoProvidersConfigured,
    DatabaseError(Seq<char>),
    TransformError(Seq<char>),
    InvalidRequest(Seq<char>),
    Timeout(Seq<char>),
    AuthError(Seq<char>),
    UpstreamError { status: u16, body: Option<Seq<char>> },
    Internal(Seq<char>),
}

impl View for ProxyError {
    type V = ErrorView;

    open spec fn view(&self) -> ErrorView {
        match self {
            ProxyError::AlreadyRunning => ErrorView::AlreadyRunning,
            ProxyError::NotRunning => ErrorView::NotRunning,
            ProxyError::BindFailed(m) => ErrorView::BindFailed(m@),
            ProxyError::StopTimeout => ErrorView::StopTimeout,
            ProxyError::StopFailed(m) => ErrorView::StopFailed(m@),
            ProxyError::ForwardFailed(m) => ErrorView::ForwardFailed(m@),
            ProxyError::NoAvailableProvider => ErrorView::NoAvailableProvider,
            ProxyError::AllProvidersCircuitOpen => ErrorView::AllProvidersCircuitOpen,
            ProxyError::NoProvidersConfigured => ErrorView::NoProvidersConfigured,
            ProxyError::DatabaseError(m) => ErrorView::DatabaseError(m@),
            ProxyError::TransformError(m) => ErrorView::TransformError(m@),
            ProxyError::InvalidRequest(m) => ErrorView::InvalidRequest(m@),
            ProxyError::Timeout(m) => ErrorView::Timeout(m@),
            ProxyError::AuthError(m) => ErrorView::AuthError(m@),
            ProxyError::UpstreamError { status, body } => ErrorView::UpstreamError {
                status: *status,
                body: text::opt_string(*body),
            },
            ProxyError::Internal(m) => ErrorView::Internal(m@),
        }
    }
}

/// The error in words.
pub open spec fn error_message(e: ErrorView) -> Seq<char> {
    match e {
        ErrorView::AlreadyRunning => "proxy server is already running"@,
        ErrorView::NotRunning => "proxy server is not running"@,
        ErrorView::BindFailed(m) => "failed to bind: "@ + m,
        ErrorView::StopTimeout => "timed out while stopping"@,
        ErrorView::StopFailed(m) => "failed to stop: "@ + m,
        ErrorView::ForwardFailed(m) => "request forwarding failed: "@ + m,
        ErrorView::NoAvailableProvider => "no available provider"@,
        ErrorView::AllProvidersCircuitOpen => "all providers have an open circuit"@,
        ErrorView::NoProvidersConfigured => "no providers configured"@,
        ErrorView::DatabaseError(m) => "database error: "@ + m,
        ErrorView::TransformError(m) => "transform error: "@ + m,
        ErrorView::InvalidRequest(m) => "invalid request: "@ + m,
        ErrorView::Timeout(m) => "timeout: "@ + m,
        ErrorView::AuthError(m) => "authentication error: "@ + m,
        ErrorView::UpstreamError { status, body } => "upstream error "@ + text::decimal(
            status as nat,
        ) + (match body {
            Some(b) => ": "@ + b,
            None => Seq::empty(),
        }),
        ErrorView::Internal(m) => "internal error: "@ + m,
    }
}

impl ProxyError {
    /// The error in words.
    pub fn message(&self) -> (r: String)
        ensures
            r@ == error_message(self@),
    {
        match self {
            ProxyError::AlreadyRunning => "proxy server is already running".to_owned(),
            ProxyError::NotRunning => "proxy server is not running".to_owned(),
            ProxyError::BindFailed(m) => text::concat2("failed to bind: ", m.as_str()),
            ProxyError::StopTimeout => "timed out while stopping".to_owned(),
            ProxyError::StopFailed(m) => text::concat2("failed to stop: ", m.as_str()),
            ProxyError::ForwardFailed(m) => text::concat2("request forwarding failed: ", m.as_str()),
            ProxyError::NoAvailableProvider => "no available provider".to_owned(),
            ProxyError::AllProvidersCircuitOpen => "all providers have an open circuit".to_owned(),
            ProxyError::NoProvidersConfigured => "no providers configured".to_owned(),
            ProxyError::DatabaseError(m) => text::concat2("database error: ", m.as_str()),
            ProxyError::TransformError(m) => text::concat2("transform error: ", m.as_str()),
            ProxyError::InvalidRequest(m) => text::concat2("invalid request: ", m.as_str()),
            ProxyError::Timeout(m) => text::concat2("timeout: ", m.as_str()),
            ProxyError::AuthError(m) => text::concat2("authentication error: ", m.as_str()),
            ProxyError::UpstreamError { status, body } => {
                let code = text::to_decimal(*status as u64);
                let head = text::concat2("upstream error ", code.as_str());
                match body {
                    Some(b) => {
                        let tail = text::concat2(": ", b.as_str());
                        text::concat2(head.as_str(), tail.as_str())
                    },
                    None => {
                        assert(head@ + Seq::<char>::empty() =~= head@);
                        head
                    },
                }
            },
            ProxyError::Internal(m) => text::concat2("internal error: ", m.as_str()),
        }
    }
}

/// The request is not one that can be served.
pub fn invalid(message: &str) -> (r: ProxyError)
    ensures
        r@ == ErrorView::InvalidRequest(message@),
{
    ProxyError::InvalidRequest(message.to_owned())
}

} // verus!
