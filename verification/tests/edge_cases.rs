//! Values at the edges, errors, and what the library has from others.
use responses_bridge::error::ProxyError;
use responses_bridge::forwarder::body::{response_is_json, uses_content_encoding};
use responses_bridge::forwarder::errors::{
    classify_attempt_error, classify_upstream_response, extract_upstream_error_message,
    upstream_error_body_from_bytes, AppType, AttemptDecision,
};
use responses_bridge::forwarder::protocols::{
    anthropic_request_uses_web_search, uses_codex_anthropic_protocol, uses_responses_protocol,
};
use responses_bridge::forwarder::retry::{map_request_send_error, SendError};
use responses_bridge::forwarder::Provider;
use responses_bridge::json::Json;
use responses_bridge::json_codec;
use responses_bridge::json_codec::{from_value, parse, parse_bytes, to_value};
use responses_bridge::sse::{
    anthropic_sse, append_utf8_safe, read_fields, strip_sse_field, take_sse_block,
};
use responses_bridge::text;
use responses_bridge::transform::{
    clean_schema, resolve_reasoning_effort, strip_leading_anthropic_billing_header,
    supports_reasoning_effort,
};
use responses_bridge::transform_responses::{
    add_web_search_usage, anthropic_to_responses, map_responses_stop_reason,
    map_tool_choice_to_responses, responses_to_anthropic_web_search,
    sanitize_anthropic_tool_use_input_json,
};
use responses_bridge::web_search_bridge::{
    fold_anthropic_web_search_history, map_anthropic_web_search_tool, render_anthropic_citation,
    result_digest, WebSearchRequestPolicy,
};
use serde_json::Value;

fn j(text: &str) -> Json {
    parse(text).expect("JSON text")
}

fn written(value: &Json) -> String {
    json_codec::write(value)
}

fn invalid<T>(result: Result<T, ProxyError>) -> String {
    match result {
        Err(ProxyError::InvalidRequest(message)) => message,
        Err(other) => panic!("another error: {other:?}"),
        Ok(_) => panic!("no error"),
    }
}

// ---------------------------------------------------------------------------
// JSON
// ---------------------------------------------------------------------------

#[test]
fn json_is_written_in_the_order_of_names() {
    let value = j(r#"{"b":[1,-2,2.5,true,null],"a":{"d":"x\n","c":1},"b2":18446744073709551615}"#);
    assert_eq!(
        written(&value),
        r#"{"a":{"c":1,"d":"x\n"},"b":[1,-2,2.5,true,null],"b2":18446744073709551615}"#
    );
    let back: Value = to_value(&value);
    assert_eq!(written(&from_value(back)), written(&value));
}

#[test]
fn json_that_is_none_gives_its_error() {
    assert!(parse("{").is_err());
    assert!(parse_bytes(b"\xff").is_err());
    assert_eq!(
        parse("nope").err(),
        serde_json::from_str::<Value>("nope")
            .err()
            .map(|e| e.to_string())
    );
    assert!(parse_bytes(b"[1]").is_ok());
}

#[test]
fn the_last_of_two_members_counts() {
    let value = j(r#"{"a":1,"a":2}"#);
    assert_eq!(value.get_u64("a"), Some(2));
    let mut object = Json::object().with("a", Json::number(1));
    object.set("a", Json::string("x"));
    assert_eq!(object.get_str("a"), Some("x"));
    object.unset("a");
    assert_eq!(written(&object), "{}");
}

#[test]
fn values_agree_by_what_they_hold() {
    assert!(j(r#"{"a":[1,{"b":null}],"c":0.0}"#).agrees(&j(r#"{"c":-0.0,"a":[1,{"b":null}]}"#)));
    assert!(!j("1").agrees(&j("1.0")));
    assert!(!j("1").agrees(&j("-1")));
    assert!(!j("[1,2]").agrees(&j("[1]")));
    assert!(!j(r#"{"a":1}"#).agrees(&j(r#"{"b":1}"#)));
    let copy = j("[1.5,\"x\"]").copy();
    assert!(copy.agrees(&j("[1.5,\"x\"]")));
}

#[test]
fn only_non_negative_integers_are_counts() {
    assert_eq!(j("7").as_u64(), Some(7));
    assert_eq!(j("-7").as_u64(), None);
    assert_eq!(j("7.0").as_u64(), None);
    assert_eq!(Json::number(u64::MAX).as_u64(), Some(u64::MAX));
}

// ---------------------------------------------------------------------------
// Text
// ---------------------------------------------------------------------------

#[test]
fn text_is_taken_apart_as_usual() {
    let samples = ["", " ", "a b", "\u{a0}x\u{3000}", "a\r\nb\n\nc", "\n", "x\r", "ü:ß:x"];
    for s in samples {
        assert_eq!(text::trim(s), s.trim());
        assert_eq!(text::is_blank(s), s.trim().is_empty());
        assert_eq!(text::lines(s), s.lines().collect::<Vec<_>>());
        assert_eq!(text::words(s), s.split_whitespace().collect::<Vec<_>>());
        assert_eq!(
            text::split_once(s, ':'),
            s.split_once(':')
                .map(|(a, b)| (a.to_string(), b.to_string()))
        );
        assert_eq!(text::to_ascii_lower(s), s.to_ascii_lowercase());
        assert_eq!(text::bytes_of(s), s.as_bytes());
    }
    for c in '\0'..='\u{3100}' {
        assert_eq!(text::is_white(c), c.is_whitespace());
    }
}

#[test]
fn bytes_that_are_no_text_are_replaced() {
    let mut buffer = String::new();
    let mut remainder = Vec::new();
    append_utf8_safe(&mut buffer, &mut remainder, b"a\xffb\xe4\xb8");
    assert_eq!(buffer, "a\u{fffd}b");
    assert_eq!(remainder, vec![0xe4, 0xb8]);
    append_utf8_safe(&mut buffer, &mut remainder, b"\xad");
    assert_eq!(buffer, "a\u{fffd}b\u{4e2d}");
    assert!(remainder.is_empty());
    assert_eq!(
        upstream_error_body_from_bytes(b"x\xff"),
        Some("x\u{fffd}".to_string())
    );
    assert_eq!(upstream_error_body_from_bytes(b""), None);
}

#[test]
fn blocks_end_with_an_empty_line() {
    let mut buffer = "data: 1\n\ndata: 2\r\n\r\ndata: 3".to_string();
    assert_eq!(take_sse_block(&mut buffer), Some("data: 1".to_string()));
    assert_eq!(take_sse_block(&mut buffer), Some("data: 2".to_string()));
    assert_eq!(take_sse_block(&mut buffer), None);
    assert_eq!(buffer, "data: 3");
}

#[test]
fn fields_are_read_with_or_without_a_space() {
    assert_eq!(strip_sse_field("data: x", "data"), Some("x".to_string()));
    assert_eq!(strip_sse_field("data:x", "data"), Some("x".to_string()));
    assert_eq!(strip_sse_field("database", "data"), None);
    let fields = read_fields("event: a\nevent:  b \ndata: 1\n: note\ndata:2");
    assert_eq!(fields.event, Some("b".to_string()));
    assert_eq!(fields.data, vec!["1".to_string(), "2".to_string()]);
    assert_eq!(
        anthropic_sse("ping", &j(r#"{"type":"ping"}"#)),
        "event: ping\ndata: {\"type\":\"ping\"}\n\n"
    );
}

// ---------------------------------------------------------------------------
// Requests
// ---------------------------------------------------------------------------

#[test]
fn efforts_come_from_the_request() {
    for model in ["o3-mini", "gpt-5", "GPT-5.4", "gpt-9"] {
        assert!(supports_reasoning_effort(model));
    }
    for model in ["gpt-4o", "o", "other", "gpt-"] {
        assert!(!supports_reasoning_effort(model));
    }
    let effort = |body: &str| resolve_reasoning_effort(&j(body));
    assert_eq!(effort(r#"{"output_config":{"effort":"max"}}"#), Some("xhigh"));
    assert_eq!(effort(r#"{"output_config":{"effort":"odd"}}"#), None);
    assert_eq!(
        effort(r#"{"thinking":{"type":"enabled","budget_tokens":3999}}"#),
        Some("low")
    );
    assert_eq!(
        effort(r#"{"thinking":{"type":"enabled","budget_tokens":4000}}"#),
        Some("medium")
    );
    assert_eq!(
        effort(r#"{"thinking":{"type":"enabled","budget_tokens":16000}}"#),
        Some("high")
    );
    assert_eq!(effort(r#"{"thinking":{"type":"disabled"}}"#), None);
    assert_eq!(effort("{}"), None);
}

#[test]
fn schemas_and_system_texts_are_completed() {
    assert_eq!(
        written(&clean_schema(j(r#"{"type":"string"}"#))),
        r#"{"type":"string"}"#
    );
    assert_eq!(
        written(&clean_schema(j(r#"{"type":"object"}"#))),
        r#"{"properties":{},"type":"object"}"#
    );
    assert_eq!(
        strip_leading_anthropic_billing_header("x-anthropic-billing-header: a;\nrest"),
        "rest"
    );
    assert_eq!(strip_leading_anthropic_billing_header("plain"), "plain");
}

#[test]
fn tool_choices_are_mapped() {
    let mapped = |choice: &str, hosted: bool| written(&map_tool_choice_to_responses(&j(choice), hosted));
    assert_eq!(mapped(r#"{"type":"any"}"#, false), "\"required\"");
    assert_eq!(mapped(r#"{"type":"none"}"#, false), "\"none\"");
    assert_eq!(
        mapped(r#"{"type":"tool","name":"web_search"}"#, false),
        r#"{"name":"web_search","type":"function"}"#
    );
    assert_eq!(
        mapped(r#"{"type":"tool","name":"web_search"}"#, true),
        r#"{"type":"web_search"}"#
    );
    assert_eq!(mapped(r#"{"type":"odd"}"#, true), r#"{"type":"odd"}"#);
    assert_eq!(mapped("\"auto\"", true), "\"auto\"");
}

#[test]
fn batch_tools_are_left_out() {
    let request = anthropic_to_responses(
        j(r#"{"tools":[{"type":"BatchTool","name":"b"}]}"#),
        None,
        false,
        false,
    )
    .expect("mapped");
    assert!(request.get("tools").is_none());
}

#[test]
fn search_tools_are_checked() {
    let message = |tool: &str| invalid(map_anthropic_web_search_tool(&j(tool)));
    assert!(message(r#"{"type":"web_search","name":"web_search"}"#).contains("is supported"));
    assert_eq!(
        message(
            r#"{"type":"web_search_20250305","name":"web_search","user_location":{"type":"exact"}}"#
        ),
        "WebSearch user_location.type must be approximate"
    );
    assert_eq!(
        message(
            r#"{"type":"web_search_20250305","name":"web_search","user_location":{"type":"approximate","city":1}}"#
        ),
        "WebSearch user_location.city must be a string or null"
    );
    let policy = |body: &str| WebSearchRequestPolicy::from_anthropic_request(&j(body));
    assert_eq!(
        invalid(policy(
            r#"{"tools":[{"type":"web_search_20250305","name":"web_search","max_uses":0}]}"#
        )),
        "WebSearch max_uses must be a positive integer"
    );
    assert_eq!(
        invalid(policy(
            r#"{"tools":[{"type":"web_search_20250305","name":"web_search"},{"type":"web_search_20250305","name":"web_search"}]}"#
        )),
        "multiple hosted WebSearch tools are not supported"
    );
    assert_eq!(
        policy(r#"{"tools":[{"type":"web_search_20250305","name":"web_search"}]}"#),
        Ok(Some(WebSearchRequestPolicy { max_uses: None }))
    );
}

#[test]
fn citations_are_held_to_their_text() {
    let scalars: Vec<char> = "abc".chars().collect();
    let shown = |annotation: &str| render_anthropic_citation(&j(annotation), &scalars);
    assert_eq!(
        invalid(shown(
            r#"{"type":"url_citation","url":"u","start_index":1,"end_index":4}"#
        )),
        "citation offsets are outside the owning text"
    );
    assert_eq!(
        invalid(shown(
            r#"{"type":"url_citation","url":"u","start_index":2,"end_index":1}"#
        )),
        "citation offsets are outside the owning text"
    );
    assert_eq!(
        invalid(shown(r#"{"type":"url_citation","url":"u","end_index":1}"#)),
        "citation start_index must be a non-negative integer"
    );
    assert_eq!(
        invalid(shown(r#"{"type":"url_citation","url":"  "}"#)),
        "citation url must be a non-empty string"
    );
    assert!(matches!(shown(r#"{"type":"file_citation"}"#), Ok(None)));
}

#[test]
fn history_without_its_result_is_refused() {
    let server = r#"{"type":"server_tool_use","id":"ws_1","name":"web_search","input":{"query":"q"}}"#;
    assert!(fold_anthropic_web_search_history(&vec![j(server)], 0).is_err());
    assert!(matches!(
        fold_anthropic_web_search_history(&vec![j(r#"{"type":"text","text":"x"}"#)], 0),
        Ok(None)
    ));
}

#[test]
fn digests_differ_in_all_that_they_are_made_of() {
    let digest = result_digest("ws_1", 0, "https://github.com/SaladDay/cc-switch-cli");
    assert_eq!(
        digest,
        "ccs-ws1:9caa7767eea9deb1b062b630e6c79a2d2f2c3b5c9ad236bc6a1ff8b77b978b78"
    );
    assert_ne!(digest, result_digest("ws_2", 0, "https://github.com/SaladDay/cc-switch-cli"));
    assert_ne!(digest, result_digest("ws_1", 1, "https://github.com/SaladDay/cc-switch-cli"));
    assert_ne!(digest, result_digest("ws_1", 0, "https://github.com"));
}

// ---------------------------------------------------------------------------
// Responses
// ---------------------------------------------------------------------------

#[test]
fn stop_reasons_are_mapped() {
    assert_eq!(map_responses_stop_reason(Some("completed"), false, None), Some("end_turn"));
    assert_eq!(map_responses_stop_reason(Some("completed"), true, None), Some("tool_use"));
    assert_eq!(
        map_responses_stop_reason(Some("incomplete"), false, Some("max_output_tokens")),
        Some("max_tokens")
    );
    assert_eq!(map_responses_stop_reason(None, false, None), None);
}

#[test]
fn usage_tells_of_searches_only_where_there_were_any() {
    assert_eq!(written(&add_web_search_usage(Json::object(), 0)), "{}");
    assert_eq!(
        written(&add_web_search_usage(Json::object(), 2)),
        r#"{"server_tool_use":{"web_search_requests":2}}"#
    );
}

#[test]
fn tool_input_is_sanitized_as_text_too() {
    assert_eq!(
        sanitize_anthropic_tool_use_input_json("Read", r#"{"pages":"","a":1}"#),
        r#"{"a":1}"#
    );
    assert_eq!(sanitize_anthropic_tool_use_input_json("Read", ""), "");
    assert_eq!(sanitize_anthropic_tool_use_input_json("Read", "{"), "{");
    assert_eq!(
        sanitize_anthropic_tool_use_input_json("Other", r#"{"pages":""}"#),
        r#"{"pages":""}"#
    );
}

#[test]
fn a_citation_outside_its_text_fails_the_response() {
    let body = j(
        r#"{"status":"completed","output":[{"type":"message","content":[{"type":"output_text","text":"ab","annotations":[{"type":"url_citation","url":"u","start_index":0,"end_index":3}]}]}]}"#,
    );
    assert_eq!(
        invalid(responses_to_anthropic_web_search(body)),
        "citation offsets are outside the owning text"
    );
}

// ---------------------------------------------------------------------------
// Providers
// ---------------------------------------------------------------------------

#[test]
fn errors_are_told_in_words() {
    let words = [
        (ProxyError::AlreadyRunning, "proxy server is already running"),
        (ProxyError::NotRunning, "proxy server is not running"),
        (ProxyError::BindFailed("x".to_string()), "failed to bind: x"),
        (ProxyError::StopTimeout, "timed out while stopping"),
        (ProxyError::StopFailed("x".to_string()), "failed to stop: x"),
        (
            ProxyError::ForwardFailed("x".to_string()),
            "request forwarding failed: x",
        ),
        (ProxyError::NoAvailableProvider, "no available provider"),
        (
            ProxyError::AllProvidersCircuitOpen,
            "all providers have an open circuit",
        ),
        (ProxyError::NoProvidersConfigured, "no providers configured"),
        (
            ProxyError::DatabaseError("x".to_string()),
            "database error: x",
        ),
        (
            ProxyError::TransformError("x".to_string()),
            "transform error: x",
        ),
        (
            ProxyError::InvalidRequest("x".to_string()),
            "invalid request: x",
        ),
        (ProxyError::Timeout("x".to_string()), "timeout: x"),
        (
            ProxyError::AuthError("x".to_string()),
            "authentication error: x",
        ),
        (
            ProxyError::UpstreamError {
                status: 502,
                body: None,
            },
            "upstream error 502",
        ),
        (
            ProxyError::UpstreamError {
                status: 502,
                body: Some("x".to_string()),
            },
            "upstream error 502: x",
        ),
        (ProxyError::Internal("x".to_string()), "internal error: x"),
    ];
    for (error, text) in words {
        assert_eq!(error.message(), text);
    }
}

#[test]
fn attempts_are_judged_by_their_errors() {
    let upstream = |status: u16| ProxyError::UpstreamError { status, body: None };
    let judge = |error: ProxyError| classify_attempt_error(&error, AppType::Codex, true);
    assert_eq!(judge(upstream(401)), AttemptDecision::NeutralRelease);
    assert_eq!(
        judge(ProxyError::AuthError(String::new())),
        AttemptDecision::NeutralRelease
    );
    assert_eq!(judge(upstream(422)), AttemptDecision::NeutralRelease);
    assert_eq!(judge(upstream(500)), AttemptDecision::ProviderFailure);
    assert_eq!(
        judge(ProxyError::Timeout(String::new())),
        AttemptDecision::ProviderFailure
    );
    assert_eq!(
        judge(ProxyError::Internal(String::new())),
        AttemptDecision::FatalStop
    );
    assert_eq!(
        classify_attempt_error(&upstream(401), AppType::Claude, true),
        AttemptDecision::ProviderFailure
    );
    for status in [400, 405, 406, 413, 414, 415, 422, 501] {
        assert_eq!(
            classify_upstream_response(status, AppType::Gemini, false),
            AttemptDecision::NeutralRelease
        );
    }
    for status in [401, 403, 404, 429, 500, 503] {
        assert_eq!(
            classify_upstream_response(status, AppType::Gemini, false),
            AttemptDecision::ProviderFailure
        );
    }
}

#[test]
fn transport_errors_are_mapped() {
    let error = |is_timeout: bool, is_connect: bool| SendError {
        is_timeout,
        is_connect,
        message: "m".to_string(),
    };
    assert_eq!(
        map_request_send_error(error(true, true), Some(3_000_000_000)),
        ProxyError::Timeout("request timed out after 3s".to_string())
    );
    assert_eq!(
        map_request_send_error(error(true, false), None),
        ProxyError::Timeout("m".to_string())
    );
    assert_eq!(
        map_request_send_error(error(false, true), None),
        ProxyError::ForwardFailed("connection failed: m".to_string())
    );
    assert_eq!(
        map_request_send_error(error(false, false), None),
        ProxyError::ForwardFailed("m".to_string())
    );
}

#[test]
fn messages_of_errors_are_found() {
    let message = |body: &str| extract_upstream_error_message(body.as_bytes());
    assert_eq!(
        message(r#"{"error":{"message":"a"},"message":"b"}"#),
        Some("a".to_string())
    );
    assert_eq!(message(r#"{"message":"b","detail":"c"}"#), Some("b".to_string()));
    assert_eq!(message(r#"{"detail":"c"}"#), Some("c".to_string()));
    assert_eq!(message(r#"{"error":"d"}"#), Some("d".to_string()));
    assert_eq!(message("{}"), None);
    assert_eq!(message("  plain \n"), Some("plain".to_string()));
    assert_eq!(message("  "), None);
    assert_eq!(extract_upstream_error_message(&[0xff]), None);
}

#[test]
fn headers_are_read_as_usual() {
    assert!(response_is_json(Some("Application/JSON; charset=utf-8")));
    assert!(response_is_json(Some("application/problem+json")));
    assert!(!response_is_json(Some("text/event-stream")));
    assert!(!response_is_json(None));
    assert!(!uses_content_encoding(None));
    assert!(!uses_content_encoding(Some(" Identity ")));
    assert!(uses_content_encoding(Some("br")));
}

#[test]
fn protocols_follow_from_client_provider_and_endpoint() {
    let provider = |format: &str, chat: bool, anthropic: bool| Provider {
        id: "p".to_string(),
        is_codex_official: false,
        needs_transform: false,
        claude_api_format: format.to_string(),
        converts_to_chat: chat,
        converts_to_anthropic: anthropic,
    };
    let responses = provider("openai_responses", false, false);
    assert!(uses_responses_protocol(AppType::Claude, &responses, "/v1/messages"));
    let other = provider("anthropic", false, false);
    assert!(!uses_responses_protocol(AppType::Claude, &other, "/v1/responses"));
    for path in [
        "/responses",
        "/v1/responses?x=1",
        "/responses/compact",
        "/v1/responses/compact",
    ] {
        assert!(uses_responses_protocol(AppType::Codex, &other, path));
    }
    assert!(!uses_responses_protocol(AppType::Codex, &other, "/v1/chat"));
    assert!(!uses_responses_protocol(
        AppType::Codex,
        &provider("", true, false),
        "/responses"
    ));
    let messages = provider("", false, true);
    assert!(!uses_responses_protocol(AppType::Codex, &messages, "/responses"));
    assert!(uses_codex_anthropic_protocol(AppType::Codex, &messages));
    assert!(!uses_codex_anthropic_protocol(AppType::Claude, &messages));
    let tools = j(r#"{"tools":[{"name":"x"},{"type":"web_search_20990101"}]}"#);
    assert!(anthropic_request_uses_web_search(AppType::Claude, &tools));
    assert!(!anthropic_request_uses_web_search(AppType::Codex, &tools));
    assert!(!anthropic_request_uses_web_search(AppType::Claude, &j("{}")));
}
