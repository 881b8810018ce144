//! The errors of upstream providers, and what they mean for an attempt.
use crate::error::{ErrorView, ProxyError};
use crate::json::{Json, JsonView};
use crate::json_codec;
use crate::text;
use vstd::prelude::*;
use vstd::string::*;
use vstd::utf8::{decode_utf8, valid_utf8};

verus! {

/// The clients that are served.
#[derive(Debug, Clone, Copy, PartialEq, Eq, Structural)]
pub enum AppType {
    Claude,
    Codex,
    Gemini,
}

/// What an attempt means for the provider: a failure of its own, nothing, or
/// the end of all attempts.
#[derive(Debug, Clone, Copy, PartialEq, Eq, Structural)]
pub enum AttemptDecision {
    ProviderFailure,
    NeutralRelease,
    FatalStop,
}

// ---------------------------------------------------------------------------
// Errors in the form of the Messages protocol
// ---------------------------------------------------------------------------

/// The status that goes with a type of error.
pub open spec fn status_of(error_type: Seq<char>) -> u16 {
    if error_type == "service_unavailable_error"@ || error_type == "overloaded_error"@ || error_type
        == "server_error"@ {
        503
    } else if error_type == "rate_limit_error"@ {
        429
    } else if error_type == "authentication_error"@ {
        401
    } else if error_type == "permission_error"@ {
        403
    } else if error_type == "invalid_request_error"@ {
        400
    } else {
        502
    }
}

/// An error of a provider.
pub open spec fn upstream_error(error_type: Seq<char>, message: Seq<char>) -> ErrorView {
    let detail = JsonView::object().with("type"@, JsonView::Str(error_type)).with(
        "message"@,
        JsonView::Str(message),
    );
    ErrorView::UpstreamError {
        status: status_of(error_type),
        body: Some(
            json_codec::written(
                JsonView::object().with("type"@, JsonView::Str("error"@)).with("error"@, detail),
            ),
        ),
    }
}

pub fn responses_upstream_error(error_type: &str, message: &str) -> (r: ProxyError)
    ensures
        r@ == upstream_error(error_type@, message@),
{
    let status: u16 = if text::same_text(error_type, "service_unavailable_error")
        || text::same_text(error_type, "overloaded_error") || text::same_text(
        error_type,
        "server_error",
    ) {
        503
    } else if text::same_text(error_type, "rate_limit_error") {
        429
    } else if text::same_text(error_type, "authentication_error") {
        401
    } else if text::same_text(error_type, "permission_error") {
        403
    } else if text::same_text(error_type, "invalid_request_error") {
        400
    } else {
        502
    };
    let detail = Json::object().with("type", Json::string(error_type)).with(
        "message",
        Json::string(message),
    );
    let body = json_codec::write(
        &Json::object().with("type", Json::string("error")).with("error", detail),
    );
    ProxyError::UpstreamError { status, body: Some(body) }
}

/// A response that is not what the protocol asks for: the provider does not
/// serve, and may be asked again.
pub open spec fn unusable(message: Seq<char>) -> ErrorView {
    upstream_error("service_unavailable_error"@, message)
}

/// A stream that does not keep to the protocol.
pub fn malformed_anthropic_stream_error(message: &str) -> (r: ProxyError)
    ensures
        r@ == unusable(message@),
{
    responses_upstream_error("service_unavailable_error", message)
}

/// A response without anything in it.
pub fn empty_codex_anthropic_stream_error(message: &str) -> (r: ProxyError)
    ensures
        r@ == unusable(message@),
{
    responses_upstream_error("service_unavailable_error", message)
}

/// Whether the same provider may be asked again: nothing has reached the client
/// yet, and the provider is not available for now.
pub open spec fn is_retryable(error: ErrorView) -> bool {
    error matches ErrorView::UpstreamError { status, .. } && status == 503
}

pub fn is_retryable_responses_pre_output_error(error: &ProxyError) -> (r: bool)
    ensures
        r == is_retryable(error@),
{
    match error {
        ProxyError::UpstreamError { status, .. } => *status == 503,
        _ => false,
    }
}

// ---------------------------------------------------------------------------
// What an attempt means
// ---------------------------------------------------------------------------

/// Whether a status says that the request itself is at fault.
pub open spec fn blames_request(status: u16) -> bool {
    status == 400 || status == 405 || status == 406 || status == 413 || status == 414 || status
        == 415 || status == 422 || status == 501
}

fn is_request_at_fault(status: u16) -> (r: bool)
    ensures
        r == blames_request(status),
{
    status == 400 || status == 405 || status == 406 || status == 413 || status == 414 || status
        == 415 || status == 422 || status == 501
}

/// Whether an error is one of who is asking.
pub open spec fn is_login_error(error: ErrorView) -> bool {
    ||| error is AuthError
    ||| (error matches ErrorView::UpstreamError { status, .. } && (status == 401 || status == 403))
}

/// Whether an error is of this proxy, not of a provider.
pub open spec fn is_own_error(error: ErrorView) -> bool {
    ||| error is AlreadyRunning
    ||| error is NotRunning
    ||| error is BindFailed
    ||| error is StopTimeout
    ||| error is StopFailed
    ||| error is NoAvailableProvider
    ||| error is AllProvidersCircuitOpen
    ||| error is NoProvidersConfigured
    ||| error is DatabaseError
    ||| error is InvalidRequest
    ||| error is Internal
}

/// What an error means for the provider that was tried.
pub open spec fn error_decision(error: ErrorView, app_type: AppType, is_codex_official: bool) -> AttemptDecision {
    if app_type == AppType::Codex && is_codex_official && is_login_error(error) {
        AttemptDecision::NeutralRelease
    } else if error matches ErrorView::UpstreamError { status, .. } && blames_request(status) {
        AttemptDecision::NeutralRelease
    } else if is_own_error(error) {
        AttemptDecision::FatalStop
    } else {
        AttemptDecision::ProviderFailure
    }
}

pub fn classify_attempt_error(
    error: &ProxyError,
    app_type: AppType,
    is_codex_official: bool,
) -> (r: AttemptDecision)
    ensures
        r == error_decision(error@, app_type, is_codex_official),
{
    if app_type == AppType::Codex && is_codex_official {
        match error {
            ProxyError::AuthError(_) => {
                return AttemptDecision::NeutralRelease;
            },
            ProxyError::UpstreamError { status, .. } => {
                if *status == 401 || *status == 403 {
                    return AttemptDecision::NeutralRelease;
                }
            },
            _ => {},
        }
    }
    match error {
        ProxyError::UpstreamError { status, .. } => {
            if is_request_at_fault(*status) {
                AttemptDecision::NeutralRelease
            } else {
                AttemptDecision::ProviderFailure
            }
        },
        ProxyError::AlreadyRunning => AttemptDecision::FatalStop,
        ProxyError::NotRunning => AttemptDecision::FatalStop,
        ProxyError::BindFailed(_) => AttemptDecision::FatalStop,
        ProxyError::StopTimeout => AttemptDecision::FatalStop,
        ProxyError::StopFailed(_) => AttemptDecision::FatalStop,
        ProxyError::NoAvailableProvider => AttemptDecision::FatalStop,
        ProxyError::AllProvidersCircuitOpen => AttemptDecision::FatalStop,
        ProxyError::NoProvidersConfigured => AttemptDecision::FatalStop,
        ProxyError::DatabaseError(_) => AttemptDecision::FatalStop,
        ProxyError::InvalidRequest(_) => AttemptDecision::FatalStop,
        ProxyError::Internal(_) => AttemptDecision::FatalStop,
        _ => AttemptDecision::ProviderFailure,
    }
}

/// What the status of a response means for the provider that sent it.
pub open spec fn response_decision(status: u16, app_type: AppType, is_codex_official: bool) -> AttemptDecision {
    if app_type == AppType::Codex && is_codex_official && (status == 401 || status == 403) {
        AttemptDecision::NeutralRelease
    } else if blames_request(status) {
        AttemptDecision::NeutralRelease
    } else {
        AttemptDecision::ProviderFailure
    }
}

pub fn classify_upstream_response(
    status: u16,
    app_type: AppType,
    is_codex_official: bool,
) -> (r: AttemptDecision)
    ensures
        r == response_decision(status, app_type, is_codex_official),
{
    if app_type == AppType::Codex && is_codex_official && (status == 401 || status == 403) {
        return AttemptDecision::NeutralRelease;
    }
    if is_request_at_fault(status) {
        AttemptDecision::NeutralRelease
    } else {
        AttemptDecision::ProviderFailure
    }
}

/// Whether a status is one of success.
pub open spec fn is_success(status: u16) -> bool {
    200 <= status < 300
}

pub fn is_success_status(status: u16) -> (r: bool)
    ensures
        r == is_success(status),
{
    200 <= status && status < 300
}

// ---------------------------------------------------------------------------
// The bodies of errors
// ---------------------------------------------------------------------------

/// The message of an error that is JSON: the first string among the places
/// where one may stand.
pub open spec fn json_error_message(body: JsonView) -> Option<Seq<char>> {
    match body.get_str_in("error"@, "message"@) {
        Some(s) => Some(s),
        None => match body.get_str("message"@) {
            Some(s) => Some(s),
            None => match body.get_str("detail"@) {
                Some(s) => Some(s),
                None => body.get_str("error"@),
            },
        },
    }
}

/// The message of an error: that of its JSON, else its text.
pub open spec fn error_body_message(body: Seq<u8>) -> Option<Seq<char>> {
    match json_codec::parsed_bytes(body) {
        Ok(v) => json_error_message(v),
        Err(_) => if valid_utf8(body) && !text::blank(decode_utf8(body)) {
            Some(text::trimmed(decode_utf8(body)))
        } else {
            None
        },
    }
}

pub fn extract_upstream_error_message(body: &[u8]) -> (r: Option<String>)
    ensures
        text::opt_string(r) == error_body_message(body@),
{
    if let Ok(v) = json_codec::parse_bytes(body) {
        let found = match v.get_str_in("error", "message") {
            Some(s) => Some(s),
            None => match v.get_str("message") {
                Some(s) => Some(s),
                None => match v.get_str("detail") {
                    Some(s) => Some(s),
                    None => v.get_str("error"),
                },
            },
        };
        return match found {
            Some(s) => Some(s.to_owned()),
            None => None,
        };
    }
    match text::utf8_text(body) {
        Some(s) => {
            if text::is_blank(s.as_str()) {
                None
            } else {
                Some(text::trim(s.as_str()))
            }
        },
        None => None,
    }
}

/// The body of an error as text, where there is one.
pub open spec fn error_body_text(body: Seq<u8>) -> Option<Seq<char>> {
    if body.len() == 0 {
        None
    } else {
        Some(text::lossy_text(body))
    }
}

pub fn upstream_error_body_from_bytes(body: &[u8]) -> (r: Option<String>)
    ensures
        text::opt_string(r) == error_body_text(body@),
{
    if body.len() == 0 {
        None
    } else {
        Some(text::utf8_lossy(body))
    }
}

} // verus!
