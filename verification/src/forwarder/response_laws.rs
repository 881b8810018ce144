//! When an answer in the Responses protocol is good.
use crate::error::ErrorView;
use crate::forwarder::errors;
use crate::forwarder::responses;
use crate::forwarder::start_laws;
use crate::json::JsonView;
use crate::json_codec;
use crate::sse;
use crate::text;
use vstd::prelude::*;
use vstd::utf8::{decode_utf8, valid_utf8};

verus! {

/// Whether a document tells of a failure: it failed or was cancelled, has an
/// error or an error code, or is an error.
pub open spec fn is_failed_document(value: JsonView) -> bool {
    ||| value.says("status"@, "failed"@)
    ||| value.says("status"@, "cancelled"@)
    ||| value.get("error"@) is Some && value.get("error"@) != Some(JsonView::Null)
    ||| value.says("type"@, "error"@)
    ||| value.get_str("code"@) is Some
}

/// A document passes exactly where it tells of no failure. A failure is reported
/// with the type and the message that stand with its error.
pub proof fn good_documents_pass(value: JsonView, error: JsonView)
    requires
        value.get("error"@) == Some(error) || error is Null,
    ensures
        ({
            let r = responses::document_verdict(value);
            let kind = error.get_str("type"@);
            let message = error.get_str("message"@);
            &&& r is Ok <==> !is_failed_document(value)
            &&& r is Err && kind is Some && message is Some && kind->0 != "error"@ && kind->0
                != "response.failed"@ && kind->0 != "failed"@ && kind->0 != "cancelled"@
                && !text::blank(message->0) ==> r->Err_0 == errors::upstream_error(
                kind->0,
                message->0,
            )
        }),
{
}

/// Whether a block tells of a failure.
pub open spec fn is_failed_block(block: Seq<char>) -> bool {
    match start_laws::told(block) {
        Some((name, value)) => start_laws::is_failure(name, value),
        None => false,
    }
}

/// Whether any block of a text tells of a failure; what follows the last block
/// counts as one.
pub open spec fn has_failure(buffer: Seq<char>) -> bool
    decreases buffer.len(),
    via has_failure_ends
{
    match sse::first_block(buffer) {
        None => is_failed_block(text::trimmed(buffer)),
        Some((block, rest)) => is_failed_block(block) || has_failure(rest),
    }
}

#[via_fn]
proof fn has_failure_ends(buffer: Seq<char>) {
    sse::first_block_shortens(buffer);
}

proof fn failures_in_events(buffer: Seq<char>)
    ensures
        responses::blocks_verdict(buffer) is Err <==> has_failure(buffer),
    decreases buffer.len(),
{
    sse::first_block_shortens(buffer);
    match sse::first_block(buffer) {
        None => {
            start_laws::blocks_are_told_apart(text::trimmed(buffer));
        },
        Some((block, rest)) => {
            start_laws::blocks_are_told_apart(block);
            failures_in_events(rest);
        },
    }
}

/// A body passes exactly where it tells of no failure: as a document where it is
/// one, else in any of its events. What is neither passes.
pub proof fn good_bodies_pass(body: Seq<u8>)
    ensures
        responses::body_verdict(body) is Ok <==> match json_codec::parsed_bytes(body) {
            Ok(value) => !is_failed_document(value),
            Err(_) => valid_utf8(body) ==> !has_failure(decode_utf8(body)),
        },
{
    if let Ok(value) = json_codec::parsed_bytes(body) {
        good_documents_pass(value, JsonView::Null);
    } else if valid_utf8(body) {
        failures_in_events(decode_utf8(body));
    }
}

/// A text is read as a document only where it begins as one and is JSON.
pub proof fn documents_are_recognized(buffer: Seq<char>)
    ensures
        ({
            let s = text::trimmed(buffer);
            let r = responses::inspected_document(buffer);
            &&& r is Some <==> s.len() > 0 && (s[0] == '{' || s[0] == '[') && json_codec::parsed(s)
                is Ok
            &&& r is Some ==> (r->0 is Ok <==> !is_failed_document(json_codec::parsed(s)->Ok_0))
        }),
{
    let s = text::trimmed(buffer);
    if let Ok(value) = json_codec::parsed(s) {
        good_documents_pass(value, JsonView::Null);
    }
}

/// The kind of an error is its type, else its code; where the error is only a
/// name of a kind, it is that; where nothing tells it, it is an error of the
/// provider. The message is that of the error, else that of the document.
pub proof fn errors_are_named(value: JsonView, error: JsonView, code: Seq<char>, message: Seq<char>)
    requires
        value.get("error"@) == Some(error),
        !(error is Null),
        !text::blank(message),
    ensures
        error.get("type"@) is None && error.says("code"@, code) && error.says("message"@, message)
            ==> responses::document_verdict(value) == Err::<(), ErrorView>(
            errors::upstream_error(code, message),
        ),
        error == JsonView::Str(code) && ends_in_error(code) && value.says("message"@, message)
            ==> responses::document_verdict(value) == Err::<(), ErrorView>(
            errors::upstream_error(code, message),
        ),
        error == JsonView::Str(message) && !ends_in_error(message) && message != "overloaded"@
            && value.get("message"@) is None && value.get("code"@) is None && value.get("type"@)
            is None && value.get("status"@) is None ==> responses::document_verdict(value) == Err::<
            (),
            ErrorView,
        >(errors::upstream_error("upstream_error"@, message)),
        error is Object && error.get("type"@) is None && error.get("code"@) is None && error.says(
            "message"@,
            message,
        ) && value.get("code"@) is None && value.get("type"@) is None && value.get("status"@)
            is None ==> responses::document_verdict(value) == Err::<(), ErrorView>(
            errors::upstream_error("upstream_error"@, message),
        ),
{
    reveal_strlit("_error");
    assert("_error"@.len() == 6);
}

/// Whether a text is the name of a kind of error.
pub open spec fn ends_in_error(s: Seq<char>) -> bool {
    s.len() >= 6 && s.skip(s.len() - 6) == "_error"@
}

} // verus!
