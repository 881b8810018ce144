//! Holding what a provider answers in the Responses protocol to that protocol,
//! before any of it reaches the client.
use crate::error::{ErrorView, ProxyError};
use crate::forwarder::anthropic;
use crate::forwarder::errors;
use crate::forwarder::errors::responses_upstream_error;
use crate::json::{Json, JsonView};
use crate::json_codec;
use crate::sse;
use crate::text;
use vstd::prelude::*;
use vstd::string::*;
use vstd::utf8::{decode_utf8, valid_utf8};

verus! {

// ---------------------------------------------------------------------------
// The type of an error
// ---------------------------------------------------------------------------

/// Whether a text is the type of an error rather than a message.
pub open spec fn is_type_name(s: Seq<char>) -> bool {
    text::has_suffix(s, "_error"@) || s == "overloaded"@
}

pub fn looks_like_responses_error_type(s: &str) -> (r: bool)
    ensures
        r == is_type_name(s@),
{
    text::ends_with(s, "_error") || text::same_text(s, "overloaded")
}

/// Whether a type says no more than that there is an error.
pub open spec fn is_wrapper(s: Seq<char>) -> bool {
    s == "error"@ || s == "response.failed"@ || s == "failed"@ || s == "cancelled"@
}

pub fn is_responses_error_wrapper(s: &str) -> (r: bool)
    ensures
        r == is_wrapper(s@),
{
    text::same_text(s, "error") || text::same_text(s, "response.failed") || text::same_text(
        s,
        "failed",
    ) || text::same_text(s, "cancelled")
}

/// A type that says more than that there is an error.
pub open spec fn telling_type(s: Option<Seq<char>>) -> Option<Seq<char>> {
    match s {
        Some(t) if !is_wrapper(t) => Some(t),
        _ => None,
    }
}

fn take_telling_type(s: Option<&str>) -> (r: Option<&str>)
    ensures
        text::opt_text(r) == telling_type(text::opt_text(s)),
{
    match s {
        Some(t) => {
            if is_responses_error_wrapper(t) {
                None
            } else {
                Some(t)
            }
        },
        None => None,
    }
}

/// The first that is there.
pub open spec fn or_else(a: Option<Seq<char>>, b: Option<Seq<char>>) -> Option<Seq<char>> {
    if a is Some {
        a
    } else {
        b
    }
}

/// The type of an error: what the error says, else what stands around it, else
/// the fallback.
pub open spec fn error_type(
    envelope: JsonView,
    error: JsonView,
    fallback: Option<Seq<char>>,
) -> Seq<char> {
    let named = match envelope.get_str("error"@) {
        Some(s) if is_type_name(s) => Some(s),
        _ => None,
    };
    let found = or_else(
        telling_type(error.get_str("type"@)),
        or_else(
            error.get_str("code"@),
            or_else(
                named,
                or_else(
                    envelope.get_str("code"@),
                    or_else(telling_type(envelope.get_str("type"@)), telling_type(fallback)),
                ),
            ),
        ),
    );
    match found {
        Some(s) => s,
        None => "upstream_error"@,
    }
}

pub fn responses_error_type<'a>(
    envelope: &'a Json,
    error: &'a Json,
    fallback: Option<&'a str>,
) -> (r: &'a str)
    ensures
        r@ == error_type(envelope@, error@, text::opt_text(fallback)),
{
    if let Some(s) = take_telling_type(error.get_str("type")) {
        return s;
    }
    if let Some(s) = error.get_str("code") {
        return s;
    }
    if let Some(s) = envelope.get_str("error") {
        if looks_like_responses_error_type(s) {
            return s;
        }
    }
    if let Some(s) = envelope.get_str("code") {
        return s;
    }
    if let Some(s) = take_telling_type(envelope.get_str("type")) {
        return s;
    }
    match take_telling_type(fallback) {
        Some(s) => s,
        None => "upstream_error",
    }
}

// ---------------------------------------------------------------------------
// Documents
// ---------------------------------------------------------------------------

/// Whether a status says that the response failed.
pub open spec fn has_failed_status(v: JsonView) -> bool {
    v.says("status"@, "failed"@) || v.says("status"@, "cancelled"@)
}

fn is_failed_status(v: &Json) -> (r: bool)
    ensures
        r == has_failed_status(v@),
{
    v.says("status", "failed") || v.says("status", "cancelled")
}

/// What a value says of an error: itself, where it has no member for it.
pub open spec fn error_part(v: JsonView) -> JsonView {
    match v.get("error"@) {
        Some(e) => e,
        None => v,
    }
}

fn get_error_part(v: &Json) -> (r: &Json)
    ensures
        r@ == error_part(v@),
{
    match v.get("error") {
        Some(e) => e,
        None => v,
    }
}

/// The message of an error in a document.
pub open spec fn document_message(value: JsonView) -> Seq<char> {
    let error = error_part(value);
    let bare = match error.as_str() {
        Some(s) if !is_type_name(s) => Some(s),
        _ => None,
    };
    let found = or_else(
        error.get_str("message"@),
        or_else(value.get_str("message"@), bare),
    );
    match found {
        Some(s) if !text::blank(s) => s,
        _ => if value.says("status"@, "cancelled"@) {
            "response generation was cancelled"@
        } else {
            "response generation failed"@
        },
    }
}

fn get_document_message(value: &Json) -> (r: &str)
    ensures
        r@ == document_message(value@),
{
    let error = get_error_part(value);
    let found = match error.get_str("message") {
        Some(s) => Some(s),
        None => match value.get_str("message") {
            Some(s) => Some(s),
            None => match error.as_str() {
                Some(s) => {
                    if looks_like_responses_error_type(s) {
                        None
                    } else {
                        Some(s)
                    }
                },
                None => None,
            },
        },
    };
    if let Some(s) = found {
        if !text::is_blank(s) {
            return s;
        }
    }
    if value.says("status", "cancelled") {
        "response generation was cancelled"
    } else {
        "response generation failed"
    }
}

/// The error that a document is, with its type and its message.
pub open spec fn error_envelope(value: JsonView) -> Option<(Seq<char>, Seq<char>)> {
    if !has_failed_status(value) && !anthropic::has_value(value, "error"@) && !value.says(
        "type"@,
        "error"@,
    ) && value.get_str("code"@) is None {
        None
    } else {
        Some(
            (
                error_type(value, error_part(value), value.get_str("status"@)),
                document_message(value),
            ),
        )
    }
}

pub fn responses_error_envelope(value: &Json) -> (r: Option<(String, String)>)
    ensures
        (match r {
            Some(p) => Some((p.0@, p.1@)),
            None => None,
        }) == error_envelope(value@),
{
    if !is_failed_status(value) && !anthropic::has_non_null(value, "error") && !value.says(
        "type",
        "error",
    ) && value.get_str("code").is_none() {
        return None;
    }
    let error = get_error_part(value);
    let kind = responses_error_type(value, error, value.get_str("status"));
    let message = get_document_message(value);
    Some((kind.to_owned(), message.to_owned()))
}

/// Whether a document is a response rather than an error.
pub open spec fn document_verdict(value: JsonView) -> Result<(), ErrorView> {
    match error_envelope(value) {
        Some((kind, message)) => Err(errors::upstream_error(kind, message)),
        None => Ok(()),
    }
}

pub fn validate_responses_success_document(value: &Json) -> (r: Result<(), ProxyError>)
    ensures
        anthropic::unit_result(r) == document_verdict(value@),
{
    match responses_error_envelope(value) {
        Some((kind, message)) => Err(responses_upstream_error(kind.as_str(), message.as_str())),
        None => Ok(()),
    }
}

/// Whether a text is a response rather than an error; nothing where it is no
/// JSON object or array.
pub open spec fn inspected_document(buffer: Seq<char>) -> Option<Result<(), ErrorView>> {
    let s = text::trimmed(buffer);
    if s.len() == 0 || !(s[0] == '{' || s[0] == '[') {
        None
    } else {
        match json_codec::parsed(s) {
            Err(_) => None,
            Ok(value) => Some(document_verdict(value)),
        }
    }
}

pub open spec fn opt_result(r: Option<Result<(), ProxyError>>) -> Option<Result<(), ErrorView>> {
    match r {
        Some(r) => Some(anthropic::unit_result(r)),
        None => None,
    }
}

pub fn inspect_responses_json_document(buffer: &str) -> (r: Option<Result<(), ProxyError>>)
    ensures
        opt_result(r) == inspected_document(buffer@),
{
    let trimmed = text::trim(buffer);
    let cs = text::chars_of(trimmed.as_str());
    if cs.len() == 0 || !(cs[0] == '{' || cs[0] == '[') {
        return None;
    }
    match json_codec::parse(trimmed.as_str()) {
        Ok(value) => Some(validate_responses_success_document(&value)),
        Err(_) => None,
    }
}

// ---------------------------------------------------------------------------
// Events
// ---------------------------------------------------------------------------

/// The name of an event: its own, else the type of its data.
pub open spec fn event_name(fields: sse::FieldsView, value: Option<JsonView>) -> Seq<char> {
    match anthropic::named_event(fields) {
        Some(event) => event,
        None => match value {
            Some(v) => v.str_or("type"@, ""@),
            None => ""@,
        },
    }
}

fn get_event_name<'a>(fields: &'a sse::Fields, value: Option<&'a Json>) -> (r: &'a str)
    ensures
        r@ == event_name(fields@, crate::json::opt_view(value)),
{
    if let Some(event) = &fields.event {
        if !event.as_str().is_empty() {
            return event.as_str();
        }
    }
    match value {
        Some(v) => v.str_or("type", ""),
        None => "",
    }
}

/// The message of an error in an event.
pub open spec fn event_message(error: JsonView, default: Seq<char>) -> Seq<char> {
    match error.get_str("message"@) {
        Some(s) => s,
        None => match error.as_str() {
            Some(s) => s,
            None => default,
        },
    }
}

fn get_event_message<'a>(error: &'a Json, default: &'a str) -> (r: &'a str)
    ensures
        r@ == event_message(error@, default@),
{
    match error.get_str("message") {
        Some(s) => s,
        None => match error.as_str() {
            Some(s) => s,
            None => default,
        },
    }
}

/// The response that an event carries: itself, where it has no member for it.
pub open spec fn response_part(value: JsonView) -> JsonView {
    match value.get("response"@) {
        Some(r) => r,
        None => value,
    }
}

fn get_response_part(value: &Json) -> (r: &Json)
    ensures
        r@ == response_part(value@),
{
    match value.get("response") {
        Some(r) => r,
        None => value,
    }
}

/// Whether an event shows that output has begun or the response has ended.
pub open spec fn shows_output(event: Seq<char>, value: JsonView) -> bool {
    ||| event == "response.output_text.delta"@
    ||| event == "response.refusal.delta"@
    ||| event == "response.function_call_arguments.delta"@
    ||| event == "response.reasoning.delta"@
    ||| event == "response.completed"@
    ||| event == "response.incomplete"@
    ||| event == "response.output_item.added"@ && value.get_str_in("item"@, "type"@) == Some(
        "function_call"@,
    )
}

fn is_output_event(event: &str, value: &Json) -> (r: bool)
    ensures
        r == shows_output(event@, value@),
{
    text::same_text(event, "response.output_text.delta") || text::same_text(
        event,
        "response.refusal.delta",
    ) || text::same_text(event, "response.function_call_arguments.delta") || text::same_text(
        event,
        "response.reasoning.delta",
    ) || text::same_text(event, "response.completed") || text::same_text(
        event,
        "response.incomplete",
    ) || (text::same_text(event, "response.output_item.added") && text::is_text(
        value.get_str_in("item", "type"),
        "function_call",
    ))
}

/// What an event says: an error, that output has begun, or nothing yet.
pub open spec fn event_verdict(event: Seq<char>, value: JsonView) -> Option<Result<(), ErrorView>> {
    let response = response_part(value);
    let error = error_part(response);
    if has_failed_status(response) || anthropic::has_value(response, "error"@) || response.get_str(
        "code"@,
    ) is Some {
        let kind = error_type(response, error, response.get_str("status"@));
        let message = event_message(error, "Responses upstream failed before output"@);
        Some(Err(errors::upstream_error(kind, message)))
    } else if event == "response.failed"@ || event == "error"@ {
        let kind = error_type(response, error, None);
        let message = event_message(error, "Responses upstream emitted an error before output"@);
        Some(Err(errors::upstream_error(kind, message)))
    } else if shows_output(event, value) {
        Some(Ok(()))
    } else {
        None
    }
}

/// What an event says, by its name and its data.
pub fn judge_event(event: &str, value: &Json) -> (r: Option<Result<(), ProxyError>>)
    ensures
        opt_result(r) == event_verdict(event@, value@),
{
    let response = get_response_part(value);
    let error = get_error_part(response);
    if is_failed_status(response) || anthropic::has_non_null(response, "error")
        || response.get_str("code").is_some() {
        let kind = responses_error_type(response, error, response.get_str("status"));
        let message = get_event_message(error, "Responses upstream failed before output");
        return Some(Err(responses_upstream_error(kind, message)));
    }
    if text::same_text(event, "response.failed") || text::same_text(event, "error") {
        let kind = responses_error_type(response, error, None);
        let message = get_event_message(
            error,
            "Responses upstream emitted an error before output",
        );
        return Some(Err(responses_upstream_error(kind, message)));
    }
    if is_output_event(event, value) {
        Some(Ok(()))
    } else {
        None
    }
}

/// What a block of a stream says. A block without data, or with data that is no
/// JSON, says nothing.
pub open spec fn inspected_block(block: Seq<char>) -> Option<Result<(), ErrorView>> {
    let fields = sse::block_fields(block);
    if fields.data.len() == 0 {
        None
    } else {
        match json_codec::parsed(text::joined(fields.data, "\n"@)) {
            Err(_) => None,
            Ok(value) => event_verdict(event_name(fields, Some(value)), value),
        }
    }
}

pub fn inspect_responses_start_event(block: &str) -> (r: Option<Result<(), ProxyError>>)
    ensures
        opt_result(r) == inspected_block(block@),
{
    let fields = sse::read_fields(block);
    assert(text::texts(fields.data@).len() == fields.data@.len());
    if fields.data.len() == 0 {
        return None;
    }
    let data = text::join(&fields.data, "\n");
    match json_codec::parse(data.as_str()) {
        Ok(value) => judge_event(get_event_name(&fields, Some(&value)), &value),
        Err(_) => None,
    }
}

/// Whether a block says that the response has ended well.
pub open spec fn is_terminal_block(block: Seq<char>) -> bool {
    let fields = sse::block_fields(block);
    let value = match json_codec::parsed(text::joined(fields.data, "\n"@)) {
        Ok(v) => Some(v),
        Err(_) => None,
    };
    let event = event_name(fields, value);
    ||| event == "response.completed"@
    ||| event == "response.incomplete"@
    ||| (value is Some && (response_part(value->0).says("status"@, "completed"@) || response_part(
        value->0,
    ).says("status"@, "incomplete"@)))
}

pub fn responses_block_is_terminal_success(block: &str) -> (r: bool)
    ensures
        r == is_terminal_block(block@),
{
    let fields = sse::read_fields(block);
    let data = text::join(&fields.data, "\n");
    let value: Option<Json> = match json_codec::parse(data.as_str()) {
        Ok(v) => Some(v),
        Err(_) => None,
    };
    let event = get_event_name(&fields, value.as_ref());
    if text::same_text(event, "response.completed") || text::same_text(
        event,
        "response.incomplete",
    ) {
        return true;
    }
    match &value {
        Some(v) => {
            let response = get_response_part(v);
            response.says("status", "completed") || response.says("status", "incomplete")
        },
        None => false,
    }
}

// ---------------------------------------------------------------------------
// Whole bodies
// ---------------------------------------------------------------------------

/// The first error among the blocks of a stream, the last of which may be
/// without its end.
pub open spec fn blocks_verdict(buffer: Seq<char>) -> Result<(), ErrorView>
    decreases buffer.len(),
    via blocks_verdict_ends
{
    match sse::first_block(buffer) {
        None => match inspected_block(text::trimmed(buffer)) {
            Some(Err(e)) => Err(e),
            _ => Ok(()),
        },
        Some((block, rest)) => match inspected_block(block) {
            Some(Err(e)) => Err(e),
            _ => blocks_verdict(rest),
        },
    }
}

#[via_fn]
proof fn blocks_verdict_ends(buffer: Seq<char>) {
    sse::first_block_shortens(buffer);
}

/// Whether a whole body is free of errors: as a document, else as a stream. A
/// body that is neither is let pass.
pub open spec fn body_verdict(body: Seq<u8>) -> Result<(), ErrorView> {
    match json_codec::parsed_bytes(body) {
        Ok(value) => document_verdict(value),
        Err(_) => if valid_utf8(body) {
            blocks_verdict(decode_utf8(body))
        } else {
            Ok(())
        },
    }
}

/// Whether a body is a response rather than an error. A body that is no JSON is
/// let pass.
pub fn validate_responses_success_body(body: &[u8]) -> (r: Result<(), ProxyError>)
    ensures
        anthropic::unit_result(r) == (match json_codec::parsed_bytes(body@) {
            Ok(value) => document_verdict(value),
            Err(_) => Ok(()),
        }),
{
    match json_codec::parse_bytes(body) {
        Ok(value) => validate_responses_success_document(&value),
        Err(_) => Ok(()),
    }
}

pub fn validate_buffered_responses_body(body: &[u8]) -> (r: Result<(), ProxyError>)
    ensures
        anthropic::unit_result(r) == body_verdict(body@),
{
    if let Ok(value) = json_codec::parse_bytes(body) {
        return validate_responses_success_document(&value);
    }
    let mut buffer = match text::utf8_text(body) {
        Some(s) => s,
        None => {
            return Ok(());
        },
    };
    let mut going = true;
    while going
        invariant
            json_codec::parsed_bytes(body@) is Err,
            valid_utf8(body@),
            blocks_verdict(buffer@) == blocks_verdict(decode_utf8(body@)),
            !going ==> sse::first_block(buffer@) is None,
        decreases buffer@.len() + (if going { 1nat } else { 0nat }),
    {
        proof {
            sse::first_block_shortens(buffer@);
        }
        match sse::take_sse_block(&mut buffer) {
            None => {
                going = false;
            },
            Some(block) => {
                if let Some(Err(e)) = inspect_responses_start_event(block.as_str()) {
                    return Err(e);
                }
            },
        }
    }
    let last = text::trim(buffer.as_str());
    if let Some(Err(e)) = inspect_responses_start_event(last.as_str()) {
        return Err(e);
    }
    Ok(())
}

} // verus!
