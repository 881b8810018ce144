//! What a provider answers is held to the protocol.
use responses_bridge::error::ProxyError;
use responses_bridge::forwarder::anthropic::{
    append_utf8_strict, end_block, judge_document, validate_codex_anthropic_success_body,
    AnthropicStreamStartValidator, AnthropicValidationBlock,
};
use responses_bridge::forwarder::responses::{
    inspect_responses_start_event, judge_event, responses_block_is_terminal_success,
    validate_buffered_responses_body, validate_responses_success_body,
};
use responses_bridge::json::Json;

#[test]
fn codex_anthropic_json_validation_handles_redacted_thinking_and_non_utf8() {
    let redacted = r#"{
        "id": "msg_reasoning",
        "type": "message",
        "role": "assistant",
        "content": [{"type": "redacted_thinking", "data": "encrypted-reasoning"}]
    }"#;
    validate_codex_anthropic_success_body(redacted.as_bytes())
        .expect("redacted thinking is substantive output");

    let error = validate_codex_anthropic_success_body(&[0xff])
        .expect_err("non-UTF-8 success bodies must be rejected");
    assert!(matches!(
        error,
        ProxyError::UpstreamError { status: 503, .. }
    ));
}

#[test]
fn codex_anthropic_malformed_json_tool_use_is_rejected() {
    let malformed = r#"{
        "type": "message",
        "content": [{"type": "tool_use", "id": "tool_1", "name": "exec"}]
    }"#;
    let error = validate_codex_anthropic_success_body(malformed.as_bytes())
        .expect_err("a JSON tool use without an input object must be rejected");
    assert!(matches!(
        error,
        ProxyError::UpstreamError { status: 503, .. }
    ));
}

#[test]
fn codex_anthropic_sse_validation_enforces_block_lifecycle_and_tool_json() {
    let mut validator = AnthropicStreamStartValidator::default();
    let orphan_delta = [
        "event: content_block_delta\n",
        "data: {\"type\":\"content_block_delta\",\"index\":0,",
        "\"delta\":{\"type\":\"text_delta\",\"text\":\"ignored\"}}",
    ]
    .concat();
    assert!(validator.inspect_sse_block(&orphan_delta).is_err());

    let mut validator = AnthropicStreamStartValidator::default();
    let tool_start = [
        "event: content_block_start\n",
        "data: {\"type\":\"content_block_start\",\"index\":0,",
        "\"content_block\":{\"type\":\"tool_use\",\"id\":\"tool_1\",",
        "\"name\":\"exec\",\"input\":{}}}",
    ]
    .concat();
    let bad_delta = [
        "event: content_block_delta\n",
        "data: {\"type\":\"content_block_delta\",\"index\":0,",
        "\"delta\":{\"type\":\"input_json_delta\",\"partial_json\":\"{bad\"}}",
    ]
    .concat();
    let tool_stop =
        "event: content_block_stop\ndata: {\"type\":\"content_block_stop\",\"index\":0}";
    assert!(!validator
        .inspect_sse_block(&tool_start)
        .expect("valid tool start"));
    assert!(!validator
        .inspect_sse_block(&bad_delta)
        .expect("tool JSON is incomplete until block stop"));
    assert!(validator.inspect_sse_block(tool_stop).is_err());

    let mut validator = AnthropicStreamStartValidator::default();
    assert!(validator
        .inspect_sse_block("event: error\ndata: {not-json}")
        .is_err());
}

#[test]
fn codex_anthropic_sse_validation_rejects_invalid_utf8() {
    let mut buffer = String::new();
    let mut remainder = Vec::new();
    let error = append_utf8_strict(
        &mut buffer,
        &mut remainder,
        b"data: {\"text\":\"\xff\"}\n\n",
    )
    .expect_err("invalid UTF-8 must not be replaced and accepted");
    assert!(matches!(
        error,
        ProxyError::UpstreamError { status: 503, .. }
    ));
}

#[test]
fn mixed_responses_error_envelopes_preserve_retryable_type() {
    for body in [
        r#"{"code": "server_error", "message": "busy"}"#,
        r#"{"error": "overloaded_error", "message": "busy"}"#,
        r#"{"type": "error", "code": "service_unavailable_error", "error": {"message": "busy"}}"#,
    ] {
        let error = validate_responses_success_body(body.as_bytes())
            .expect_err("temporary error envelope must not be accepted as success");
        assert!(matches!(
            error,
            ProxyError::UpstreamError { status: 503, .. }
        ));
    }

    let event = [
        "event: response.failed\n",
        "data: {\"type\":\"response.failed\",\"status\":\"failed\",",
        "\"code\":\"server_error\",\"message\":\"busy\"}\n\n",
    ]
    .concat();
    let error = inspect_responses_start_event(&event)
        .expect("inspect error event")
        .expect_err("server_error event must fail semantic validation");
    assert!(matches!(
        error,
        ProxyError::UpstreamError { status: 503, .. }
    ));
}

// ---------------------------------------------------------------------------
// Streams of the Messages protocol
// ---------------------------------------------------------------------------

fn start(index: u64, block: &str) -> String {
    format!(
        "event: content_block_start\ndata: {{\"type\":\"content_block_start\",\"index\":{index},\"content_block\":{block}}}"
    )
}

fn delta(index: u64, delta: &str) -> String {
    format!(
        "event: content_block_delta\ndata: {{\"type\":\"content_block_delta\",\"index\":{index},\"delta\":{delta}}}"
    )
}

fn stop(index: u64) -> String {
    format!(
        "event: content_block_stop\ndata: {{\"type\":\"content_block_stop\",\"index\":{index}}}"
    )
}

const MESSAGE_STOP: &str = "event: message_stop\ndata: {\"type\":\"message_stop\"}";

fn is_unusable(result: Result<bool, ProxyError>) -> bool {
    matches!(result, Err(ProxyError::UpstreamError { status: 503, .. }))
}

#[test]
fn text_makes_a_stream_substantive() {
    let mut validator = AnthropicStreamStartValidator::for_streaming_conversion();
    let block = start(0, r#"{"type":"text","text":""}"#);
    assert_eq!(validator.inspect_sse_block(&block), Ok(false));
    let text = delta(0, r#"{"type":"text_delta","text":"hello"}"#);
    assert_eq!(validator.inspect_sse_block(&text), Ok(true));
    assert_eq!(validator.inspect_sse_block(&stop(0)), Ok(true));
    assert_eq!(validator.inspect_sse_block(MESSAGE_STOP), Ok(true));
}

#[test]
fn nothing_is_accepted_after_the_message_has_ended() {
    let mut validator = AnthropicStreamStartValidator::default();
    let block = start(0, r#"{"type":"redacted_thinking","data":"x"}"#);
    assert_eq!(validator.inspect_sse_block(&block), Ok(true));
    assert_eq!(validator.inspect_sse_block(&stop(0)), Ok(true));
    assert_eq!(validator.inspect_sse_block(MESSAGE_STOP), Ok(true));
    assert!(is_unusable(
        validator.inspect_sse_block("event: ping\ndata: {\"type\":\"ping\"}")
    ));
}

#[test]
fn a_message_does_not_end_with_an_open_block() {
    let mut validator = AnthropicStreamStartValidator::default();
    let block = start(0, r#"{"type":"text","text":"hi"}"#);
    assert_eq!(validator.inspect_sse_block(&block), Ok(true));
    assert!(is_unusable(validator.inspect_sse_block(MESSAGE_STOP)));
}

#[test]
fn a_message_does_not_end_without_substance() {
    let mut validator = AnthropicStreamStartValidator::default();
    assert!(is_unusable(validator.inspect_sse_block(MESSAGE_STOP)));
}

#[test]
fn a_block_number_is_used_once() {
    let mut validator = AnthropicStreamStartValidator::default();
    let block = start(0, r#"{"type":"text","text":""}"#);
    assert_eq!(validator.inspect_sse_block(&block), Ok(false));
    assert_eq!(validator.inspect_sse_block(&stop(0)), Ok(false));
    assert!(is_unusable(validator.inspect_sse_block(&block)));
}

#[test]
fn tool_json_may_come_in_pieces() {
    let mut validator = AnthropicStreamStartValidator::default();
    let block = start(
        3,
        r#"{"type":"tool_use","id":"tool_1","name":"exec","input":{}}"#,
    );
    assert_eq!(validator.inspect_sse_block(&block), Ok(false));
    let first = delta(3, r#"{"type":"input_json_delta","partial_json":"{\"cmd\""}"#);
    let second = delta(3, r#"{"type":"input_json_delta","partial_json":":\"ls\"}"}"#);
    assert_eq!(validator.inspect_sse_block(&first), Ok(false));
    assert_eq!(validator.inspect_sse_block(&second), Ok(false));
    assert_eq!(validator.inspect_sse_block(&stop(3)), Ok(true));
}

#[test]
fn the_name_of_an_event_is_its_type() {
    let mut validator = AnthropicStreamStartValidator::default();
    assert!(is_unusable(validator.inspect_sse_block(
        "event: message_start\ndata: {\"type\":\"message_stop\"}"
    )));
}

#[test]
fn split_characters_wait_for_their_rest() {
    let text = "a\u{e9}\u{4e2d}\u{1f60a}z";
    let bytes = text.as_bytes();
    for cut in 0..=bytes.len() {
        let mut buffer = String::new();
        let mut remainder = Vec::new();
        assert!(append_utf8_strict(&mut buffer, &mut remainder, &bytes[..cut]).is_ok());
        assert!(text.starts_with(&buffer));
        assert!(remainder.len() < 4);
        assert!(append_utf8_strict(&mut buffer, &mut remainder, &bytes[cut..]).is_ok());
        assert_eq!(buffer, text);
        assert!(remainder.is_empty());
    }
}

#[test]
fn bytes_that_are_no_text_fail_however_they_are_cut() {
    // The fourth byte cannot go on with the character that the third begins.
    let bytes = [b'a', b'b', 0xE4, 0xC2, b'c'];
    for cut in 0..=bytes.len() {
        let mut buffer = String::new();
        let mut remainder = Vec::new();
        let first = append_utf8_strict(&mut buffer, &mut remainder, &bytes[..cut]);
        let second = append_utf8_strict(&mut buffer, &mut remainder, &bytes[cut..]);
        assert!(first.is_err() || second.is_err());
    }
}

#[test]
fn documents_are_judged_by_their_content() {
    let message = Json::object()
        .with("type", Json::string("message"))
        .with("role", Json::string("assistant"));
    let said = Json::object()
        .with("type", Json::string("text"))
        .with("text", Json::string("hello"));
    let full = message.copy().with("content", Json::Array(vec![said]));
    assert_eq!(judge_document(&full), Ok(()));
    let empty = message.with("content", Json::Array(vec![]));
    assert!(judge_document(&empty).is_err());
}

#[test]
fn events_are_inspected_by_name_and_data() {
    let start = Json::object().with("index", Json::number(0)).with(
        "content_block",
        Json::object()
            .with("type", Json::string("text"))
            .with("text", Json::string("hi")),
    );
    let stop = Json::object().with("index", Json::number(0));
    let mut validator = AnthropicStreamStartValidator::default();
    assert_eq!(validator.inspect_event("content_block_start", &start), Ok(true));
    assert_eq!(validator.inspect_event("content_block_stop", &stop), Ok(false));
    assert!(validator.inspect_event("content_block_stop", &stop).is_err());
}

#[test]
fn a_tool_use_ends_with_an_object() {
    let tool = |start_input: Json, partial_json: &str| AnthropicValidationBlock::ToolUse {
        start_input,
        partial_json: partial_json.to_string(),
    };
    assert_eq!(end_block(&AnthropicValidationBlock::Text), Ok(false));
    assert_eq!(end_block(&tool(Json::object(), "")), Ok(true));
    assert!(end_block(&tool(Json::Null, "")).is_err());
    assert_eq!(end_block(&tool(Json::Null, "{\"a\":1}")), Ok(true));
    assert!(end_block(&tool(Json::object(), "[1]")).is_err());
    assert!(end_block(&tool(Json::object(), "{")).is_err());
}

// ---------------------------------------------------------------------------
// Streams of the Responses protocol
// ---------------------------------------------------------------------------

fn status_of(result: Result<(), ProxyError>) -> Option<u16> {
    match result {
        Ok(()) => None,
        Err(ProxyError::UpstreamError { status, .. }) => Some(status),
        Err(_) => Some(0),
    }
}

#[test]
fn error_types_have_their_status() {
    let cases = [
        ("service_unavailable_error", 503),
        ("overloaded_error", 503),
        ("server_error", 503),
        ("rate_limit_error", 429),
        ("authentication_error", 401),
        ("permission_error", 403),
        ("invalid_request_error", 400),
        ("something_else", 502),
    ];
    for (kind, status) in cases {
        let body = format!("{{\"error\":{{\"type\":\"{kind}\",\"message\":\"m\"}}}}");
        assert_eq!(
            status_of(validate_responses_success_body(body.as_bytes())),
            Some(status)
        );
    }
}

#[test]
fn upstream_errors_are_told_in_the_messages_protocol() {
    let body = br#"{"error":{"type":"rate_limit_error","message":"slow down"}}"#;
    match validate_responses_success_body(body) {
        Err(ProxyError::UpstreamError {
            status: 429,
            body: Some(text),
        }) => assert_eq!(
            text,
            r#"{"error":{"message":"slow down","type":"rate_limit_error"},"type":"error"}"#
        ),
        other => panic!("unexpected result: {other:?}"),
    }
}

#[test]
fn a_body_of_events_is_read_to_its_end() {
    let good = "event: response.completed\ndata: {\"type\":\"response.completed\"}\n\n";
    assert_eq!(status_of(validate_buffered_responses_body(good.as_bytes())), None);
    let bad = format!(
        "{good}event: error\ndata: {{\"type\":\"error\",\"error\":{{\"type\":\"server_error\",\"message\":\"busy\"}}}}"
    );
    assert_eq!(
        status_of(validate_buffered_responses_body(bad.as_bytes())),
        Some(503)
    );
    assert_eq!(status_of(validate_buffered_responses_body(&[0xff])), None);
}

#[test]
fn only_a_completed_response_is_terminal() {
    assert!(responses_block_is_terminal_success(
        "event: response.completed\ndata: {\"type\":\"response.completed\"}"
    ));
    assert!(!responses_block_is_terminal_success(
        "event: response.output_text.delta\ndata: {\"type\":\"response.output_text.delta\"}"
    ));
}

#[test]
fn events_are_judged_by_name_and_data() {
    let none = Json::object();
    assert!(judge_event("response.created", &none).is_none());
    assert_eq!(judge_event("response.output_text.delta", &none), Some(Ok(())));
    let call = Json::object().with(
        "item",
        Json::object().with("type", Json::string("function_call")),
    );
    assert_eq!(judge_event("response.output_item.added", &call), Some(Ok(())));
    assert!(judge_event("response.output_item.added", &none).is_none());
    let busy = Json::object().with(
        "error",
        Json::object()
            .with("type", Json::string("rate_limit_error"))
            .with("message", Json::string("slow down")),
    );
    assert_eq!(
        status_of(judge_event("response.created", &busy).expect("an error")),
        Some(429)
    );
}
