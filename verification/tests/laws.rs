//! The laws of the library on concrete values.
use responses_bridge::citations::{
    decode_responses_citation_index, responses_annotations_from_anthropic_text,
};
use responses_bridge::error::ProxyError;
use responses_bridge::forwarder::attempt::{
    Attempt, AttemptAction, AttemptEvent, AttemptMode, AttemptOutcome, AttemptRules, Phase,
};
use responses_bridge::forwarder::errors::AppType;
use responses_bridge::forwarder::retry::{
    request_timeout_error, responses_retry_backoff, stream_first_byte_timeout_error,
    ResponsesRetryState, RetryPlan, SendError,
};
use responses_bridge::forwarder::stream_start::{
    StartRules, StreamEvent, StreamStart, Verdict, WaitPlan,
};
use responses_bridge::forwarder::{ForwardOptions, RequestForwarder};
use responses_bridge::json::Json;
use responses_bridge::json_codec;
use responses_bridge::json_codec::{parse, to_value};
use responses_bridge::reasoning::{
    responses_reasoning_from_redacted_block, responses_reasoning_redacted_block,
};
use responses_bridge::text::{parse_u64, to_decimal};
use responses_bridge::transform_responses::{
    anthropic_to_responses, build_anthropic_usage_from_responses, responses_to_anthropic,
    responses_to_anthropic_impl, responses_to_anthropic_web_search,
};
use responses_bridge::web_search_bridge::{
    fold_anthropic_web_search_history, render_anthropic_citation,
    render_anthropic_web_search_blocks, Titles,
};
use responses_bridge::web_search_stream::{
    bounded_message, BufferedAnthropicStream, WebSearchBufferedResponse,
};
use responses_bridge::web_search_bridge::WebSearchRequestPolicy;
use std::sync::Arc;
use std::time::Duration;

const SECOND: u128 = 1_000_000_000;

fn j(text: &str) -> Json {
    parse(text).expect("JSON text")
}

fn written(value: &Json) -> String {
    json_codec::write(value)
}

fn policy(max_uses: u64) -> WebSearchRequestPolicy {
    WebSearchRequestPolicy {
        max_uses: Some(max_uses),
    }
}

// ---------------------------------------------------------------------------
// Search and citations
// ---------------------------------------------------------------------------

#[test]
fn a_shown_citation_carries_its_place() {
    let scalars: Vec<char> = "see the docs".chars().collect();
    let annotation = j(
        r#"{"type":"url_citation","url":"https://a.example","title":" ","start_index":4,"end_index":12}"#,
    );
    let citation = render_anthropic_citation(&annotation, &scalars)
        .expect("valid")
        .expect("shown");
    assert_eq!(decode_responses_citation_index(&citation), Some((4, 12)));
    assert_eq!(citation.get_str("cited_text"), Some("the docs"));
    assert_eq!(citation.get_str("title"), Some("https://a.example"));

    let block = Json::object().with("citations", Json::Array(vec![citation]));
    let back = responses_annotations_from_anthropic_text(&block, "another text");
    assert_eq!(
        back.iter().map(written).collect::<Vec<_>>(),
        vec![
            r#"{"end_index":12,"start_index":4,"title":"https://a.example","type":"url_citation","url":"https://a.example"}"#
        ]
    );
}

#[test]
fn a_shown_search_folds_back() {
    let item = j(
        r#"{"id":"ws_1","type":"web_search_call","status":"completed","action":{"type":"search","query":"q","sources":[{"type":"url","url":"https://a.example"},{"type":"url","url":"https://b.example"}]}}"#,
    );
    let mut titles = Titles::new();
    titles.add_missing("https://b.example", "B");
    titles.add_missing("https://b.example", "later");
    let (server, result) = render_anthropic_web_search_blocks(&item, &titles).expect("shown");
    assert_eq!(
        to_value(&result)["content"][1]["title"],
        serde_json::Value::String("B".to_string())
    );
    let (back, next) = fold_anthropic_web_search_history(&vec![server, result], 0)
        .expect("valid")
        .expect("a search");
    assert_eq!(next, 2);
    assert_eq!(written(&back), written(&item));
}

#[test]
fn encrypted_reasoning_comes_back() {
    let item = j(
        r#"{"type":"reasoning","id":"rs_1","summary":[{"type":"summary_text","text":"s"}],"encrypted_content":"opaque"}"#,
    );
    let block = responses_reasoning_redacted_block(&item).expect("carried");
    let back = responses_reasoning_from_redacted_block(&block).expect("read back");
    assert_eq!(
        written(&back),
        r#"{"encrypted_content":"opaque","id":"rs_1","summary":[],"type":"reasoning"}"#
    );
    assert!(responses_reasoning_redacted_block(&j(r#"{"type":"reasoning"}"#)).is_none());
    assert!(responses_reasoning_from_redacted_block(&j(r#"{"data":"foreign"}"#)).is_none());
}

#[test]
fn searches_and_reasoning_come_back_in_order() {
    let response = j(
        r#"{"id":"resp_1","status":"completed","model":"gpt-5.6","output":[
            {"type":"reasoning","id":"rs_1","summary":[{"type":"summary_text","text":"think"}],"encrypted_content":"opaque-1"},
            {"type":"web_search_call","id":"ws_1","status":"completed","action":{"type":"search","query":"q","queries":["q"],"sources":[{"type":"url","url":"https://a.example","title":"A"}]}},
            {"type":"web_search_call","id":"ws_2","status":"completed","action":{"type":"search","query":"r"}},
            {"type":"reasoning","id":"rs_2","summary":[],"encrypted_content":"opaque-2"},
            {"type":"reasoning","id":"rs_3","summary":[{"type":"summary_text","text":"only shown"}]},
            {"type":"web_search_call","id":"ws_3","status":"completed","action":{"type":"find_in_page","url":"https://a.example","pattern":"p"}}
        ]}"#,
    );
    let kept = [
        r#"{"encrypted_content":"opaque-1","id":"rs_1","summary":[],"type":"reasoning"}"#,
        r#"{"action":{"query":"q","sources":[{"type":"url","url":"https://a.example"}],"type":"search"},"id":"ws_1","status":"completed","type":"web_search_call"}"#,
        r#"{"action":{"query":"r","sources":[],"type":"search"},"id":"ws_2","status":"completed","type":"web_search_call"}"#,
        r#"{"encrypted_content":"opaque-2","id":"rs_2","summary":[],"type":"reasoning"}"#,
        r#"{"action":{"pattern":"p","type":"find_in_page","url":"https://a.example"},"id":"ws_3","status":"completed","type":"web_search_call"}"#,
    ];
    let message = responses_to_anthropic_web_search(response).expect("shown");
    let content = message.get("content").expect("content").copy();
    let request = j(
        r#"{"model":"gpt-5.6","tools":[{"type":"web_search_20250305","name":"web_search"}]}"#,
    )
    .with(
        "messages",
        Json::Array(vec![j(r#"{"role":"assistant"}"#).with("content", content)]),
    );
    let bridged = anthropic_to_responses(request, None, false, false).expect("accepted");
    let input = bridged.get_array("input").expect("input");
    assert_eq!(input.iter().map(written).collect::<Vec<_>>(), kept);
}

#[test]
fn texts_and_calls_do_not_disturb_what_comes_back() {
    let response = j(
        r#"{"id":"resp_2","status":"completed","output":[
            {"type":"message","content":[{"type":"output_text","text":"before"}]},
            {"type":"web_search_call","id":"ws_1","status":"completed","action":{"type":"open_page","url":"https://a.example"}},
            {"type":"message","content":[{"type":"output_text","text":"between"},{"type":"refusal","refusal":"no"}]},
            {"type":"function_call","call_id":"call_1","name":"f","arguments":"{\"x\":1}"},
            {"type":"reasoning","id":"rs_1","encrypted_content":"opaque"},
            {"type":"message","content":[{"type":"output_text","text":"after"}]}
        ]}"#,
    );
    let message = responses_to_anthropic_impl(response, true).expect("shown");
    let content = message.get("content").expect("content").copy();
    let request = j(r#"{"tools":[{"type":"web_search_20250305","name":"web_search"}]}"#).with(
        "messages",
        Json::Array(vec![j(r#"{"role":"assistant"}"#).with("content", content)]),
    );
    let bridged = anthropic_to_responses(request, None, true, true).expect("accepted");
    let input = bridged.get_array("input").expect("input");
    let kinds: Vec<&str> = input.iter().map(|item| item.str_or("type", "said")).collect();
    assert_eq!(
        kinds,
        vec!["said", "web_search_call", "said", "function_call", "reasoning", "said"]
    );
    assert_eq!(
        written(&input[1]),
        r#"{"action":{"type":"open_page","url":"https://a.example"},"id":"ws_1","status":"completed","type":"web_search_call"}"#
    );
    assert_eq!(
        written(&input[4]),
        r#"{"encrypted_content":"opaque","id":"rs_1","summary":[],"type":"reasoning"}"#
    );
}

#[test]
fn the_last_of_two_members_of_one_name_counts() {
    let twice = Json::Object(vec![
        ("a".to_string(), Json::number(1)),
        ("b".to_string(), Json::Null),
        ("a".to_string(), Json::number(2)),
    ]);
    assert_eq!(written(&twice), r#"{"a":2,"b":null}"#);
    assert_eq!(twice.get_u64("a"), Some(2));
}

#[test]
fn what_is_done_stays_and_what_is_closed_is_closed() {
    let mut received = WebSearchBufferedResponse::new();
    let done = |id: &str| {
        j(&format!(
            "{{\"output_index\":0,\"item\":{{\"id\":\"{id}\",\"type\":\"message\",\"content\":[]}}}}"
        ))
    };
    assert_eq!(
        received.ingest_responses_event("response.output_item.done", &done("a")),
        Ok(())
    );
    assert_eq!(
        received.ingest_responses_event("response.output_item.done", &done("a")),
        Ok(())
    );
    assert_eq!(
        received.ingest_responses_event("response.output_item.done", &done("b")),
        Err("output_index 0 has conflicting done items".to_string())
    );
    let completed = j(r#"{"response":{"status":"completed","output":[{}]}}"#);
    assert_eq!(
        received.ingest_responses_event("response.completed", &completed),
        Ok(())
    );
    assert_eq!(
        received.ingest_responses_event("response.output_item.done", &done("a")),
        Err("received a Responses event after response.completed".to_string())
    );
    let sealed = received.seal_responses(&policy(1)).expect("sealed");
    assert_eq!(
        written(&sealed),
        r#"{"output":[{"content":[],"id":"a","type":"message"}],"status":"completed"}"#
    );
}

#[test]
fn a_response_is_not_sealed_before_its_items_are_done() {
    let mut received = WebSearchBufferedResponse::new();
    for index in [2, 0] {
        let added = j(&format!("{{\"output_index\":{index}}}"));
        assert_eq!(
            received.ingest_responses_event("response.output_item.added", &added),
            Ok(())
        );
    }
    let completed = j(r#"{"response":{"status":"completed","output":[]}}"#);
    assert_eq!(
        received.ingest_responses_event("response.completed", &completed),
        Ok(())
    );
    assert_eq!(
        received.seal_responses(&policy(1)).map(|_| ()),
        Err("WebSearch stream ended without output_item.done for indices [0, 2]".to_string())
    );
    assert_eq!(
        WebSearchBufferedResponse::new().seal(&policy(1)).map(|_| ()),
        Err("WebSearch stream ended without response.completed".to_string())
    );
}

#[test]
fn a_failure_of_a_search_stream_stays() {
    let mut stream = BufferedAnthropicStream::new();
    stream.feed(b"event: response.failed\ndata: {}\n\n");
    stream.feed(b"event: response.completed\ndata: {\"status\":\"completed\"}\n\n");
    let end = stream.finish(&policy(1));
    assert_eq!(
        end.failure,
        Some("upstream ended with response.failed".to_string())
    );
    assert_eq!(
        end.events,
        vec![
            "event: error\ndata: {\"error\":{\"message\":\"upstream ended with response.failed\",\"type\":\"upstream_error\"},\"type\":\"error\"}\n\n"
                .to_string()
        ]
    );
}

#[test]
fn a_search_stream_may_not_end_in_the_middle_of_a_frame() {
    let mut stream = BufferedAnthropicStream::new();
    stream.feed(b"event: response.completed\ndata: {");
    assert_eq!(
        stream.finish(&policy(1)).failure,
        Some("WebSearch stream ended with an incomplete SSE frame".to_string())
    );
    let mut stream = BufferedAnthropicStream::new();
    stream.feed(&[0xe4, 0xb8]);
    assert_eq!(
        stream.finish(&policy(1)).failure,
        Some("WebSearch stream ended with an incomplete SSE frame".to_string())
    );
    let mut stream = BufferedAnthropicStream::new();
    stream.feed_error("reset".to_string());
    assert_eq!(stream.finish(&policy(1)).failure, Some("reset".to_string()));
}

#[test]
fn error_messages_are_one_bounded_line() {
    assert_eq!(bounded_message(" a\n b\t c "), "a b c");
    assert_eq!(bounded_message(&"x".repeat(240)), "x".repeat(240));
    assert_eq!(
        bounded_message(&"x".repeat(241)),
        format!("{}...", "x".repeat(240))
    );
}

#[test]
fn numbers_in_decimal_read_back() {
    for n in [0, 7, 10, 999, u64::MAX] {
        assert_eq!(to_decimal(n), n.to_string());
        assert_eq!(parse_u64(&to_decimal(n)), Some(n));
    }
    assert_eq!(parse_u64("18446744073709551616"), None);
    assert_eq!(parse_u64("+5"), Some(5));
    assert_eq!(parse_u64("-5"), None);
    assert_eq!(parse_u64(""), None);
}

// ---------------------------------------------------------------------------
// Requests and responses
// ---------------------------------------------------------------------------

#[test]
fn every_request_streams_whatever_the_client_asked_for() {
    let request = anthropic_to_responses(
        j(r#"{"model":"m","stream":false,"messages":[]}"#),
        Some("key"),
        false,
        false,
    )
    .expect("mapped");
    assert_eq!(
        written(&request),
        r#"{"input":[],"model":"m","prompt_cache_key":"key","stream":true}"#
    );
}

#[test]
fn usage_buckets_add_up_to_the_input() {
    let usage = build_anthropic_usage_from_responses(Some(&j(
        r#"{"input_tokens":100,"output_tokens":5,"cache_read_input_tokens":30,"input_tokens_details":{"cached_tokens":1,"cache_write_tokens":20}}"#,
    )));
    assert_eq!(
        written(&usage),
        r#"{"cache_creation_input_tokens":20,"cache_read_input_tokens":30,"input_tokens":50,"output_tokens":5}"#
    );
    let more_cached = build_anthropic_usage_from_responses(Some(&j(
        r#"{"input_tokens":10,"output_tokens":5,"cache_read_input_tokens":30}"#,
    )));
    assert_eq!(more_cached.get_u64("input_tokens"), Some(0));
    assert_eq!(
        written(&build_anthropic_usage_from_responses(None)),
        r#"{"input_tokens":0,"output_tokens":0}"#
    );
}

#[test]
fn an_ordinary_response_shows_no_search() {
    let message = r#"{"type":"message","content":[{"type":"output_text","text":"hi"}]}"#;
    let with_search = format!(
        "{{\"output\":[{{\"type\":\"web_search_call\",\"status\":\"failed\"}},{message}]}}"
    );
    let without = format!("{{\"output\":[{message}]}}");
    assert_eq!(
        responses_to_anthropic(j(&with_search)).map(|m| written(&m)),
        responses_to_anthropic(j(&without)).map(|m| written(&m))
    );
    assert_eq!(
        responses_to_anthropic(j("{}")).map(|m| written(&m)),
        Err(ProxyError::TransformError("No output in response".to_string()))
    );
}

// ---------------------------------------------------------------------------
// Retries and attempts
// ---------------------------------------------------------------------------

fn unavailable() -> ProxyError {
    ProxyError::UpstreamError {
        status: 503,
        body: None,
    }
}

#[test]
fn retries_wait_longer_and_longer_and_end() {
    assert_eq!(
        (0..5).map(responses_retry_backoff).collect::<Vec<_>>(),
        vec![SECOND, 2 * SECOND, 4 * SECOND, 4 * SECOND, 4 * SECOND]
    );
    let mut state = ResponsesRetryState::new(true, 7);
    let mut now = 100 * SECOND;
    for wait in [SECOND, 2 * SECOND, 4 * SECOND] {
        match state.plan_retry(&unavailable(), 100 * SECOND, None, now) {
            RetryPlan::Wait(nanos) => assert_eq!(nanos, wait),
            other => panic!("unexpected plan: {other:?}"),
        }
        now += wait;
        assert_eq!(state.used + state.remaining, 3);
        assert_eq!(state.deadline_started_at, Some(100 * SECOND));
    }
    assert!(matches!(
        state.plan_retry(&unavailable(), now, None, now),
        RetryPlan::GiveUp
    ));
    assert_eq!(ResponsesRetryState::new(false, 7).remaining, 0);
}

#[test]
fn a_retry_needs_time_to_wait_for_it() {
    let mut state = ResponsesRetryState::new(true, 1);
    match state.plan_retry(&unavailable(), 0, Some(2 * SECOND), SECOND) {
        RetryPlan::OutOfTime(error) => assert_eq!(
            error,
            ProxyError::Timeout("request timed out after 2s".to_string())
        ),
        other => panic!("unexpected plan: {other:?}"),
    }
    assert_eq!(state.remaining, 1);
    assert!(matches!(
        state.plan_retry(&ProxyError::NotRunning, 0, None, 0),
        RetryPlan::GiveUp
    ));
}

#[test]
fn time_limits_are_told_in_seconds() {
    assert_eq!(
        request_timeout_error(1_999_999_999),
        ProxyError::Timeout("request timed out after 1s".to_string())
    );
    assert_eq!(
        stream_first_byte_timeout_error(1),
        ProxyError::Timeout("stream timeout after 1s".to_string())
    );
    assert_eq!(
        stream_first_byte_timeout_error(0),
        ProxyError::Timeout("stream timeout after 0s".to_string())
    );
}

fn rules(app_type: AppType, max_retries: u32) -> AttemptRules {
    AttemptRules {
        mode: AttemptMode::Buffered,
        app_type,
        is_codex_official: false,
        responses: false,
        codex_anthropic: false,
        web_search: false,
        limit: Some(10 * SECOND),
        max_retries,
        started_at: 0,
    }
}

fn no_connection() -> SendError {
    SendError {
        is_timeout: false,
        is_connect: true,
        message: "refused".to_string(),
    }
}

#[test]
fn a_request_that_did_not_get_through_is_sent_again_as_often_as_allowed() {
    let mut retry = ResponsesRetryState::new(false, 0);
    let (mut attempt, action) = Attempt::begin(rules(AppType::Codex, 2), &retry, 0);
    assert!(matches!(action, AttemptAction::Prepare(None)));
    let mut action = attempt.on_event(&mut retry, AttemptEvent::Prepared, 0);
    for now in [3 * SECOND, 6 * SECOND] {
        assert!(matches!(action, AttemptAction::Send(Some(left)) if left == 10 * SECOND));
        action = attempt.on_event(&mut retry, AttemptEvent::SendFailed(no_connection()), now);
    }
    assert!(matches!(action, AttemptAction::Send(_)));
    let last = attempt.on_event(&mut retry, AttemptEvent::SendTimedOut, 9 * SECOND);
    match last {
        AttemptAction::Finish(AttemptOutcome::Failed(error)) => assert_eq!(
            error.into_error(),
            ProxyError::Timeout("request timed out after 10s".to_string())
        ),
        other => panic!("unexpected action: {other:?}"),
    }
    assert_eq!(attempt.phase, Phase::Over);
    assert!(matches!(
        attempt.on_event(&mut retry, AttemptEvent::Waited, 9 * SECOND),
        AttemptAction::Unexpected
    ));
}

#[test]
fn an_event_that_was_not_asked_for_changes_nothing() {
    let mut retry = ResponsesRetryState::new(true, 3);
    let (mut attempt, _) = Attempt::begin(rules(AppType::Claude, 0), &retry, 0);
    let before = attempt;
    assert!(matches!(
        attempt.on_event(&mut retry, AttemptEvent::StreamReady, 0),
        AttemptAction::Unexpected
    ));
    assert!(matches!(
        attempt.on_event(&mut retry, AttemptEvent::PreparationTimedOut, 0),
        AttemptAction::Unexpected
    ));
    assert_eq!(attempt, before);
    assert_eq!(retry, ResponsesRetryState::new(true, 3));
}

#[test]
fn preparation_shares_the_time_for_retries() {
    let mut retry = ResponsesRetryState::new(true, 3).with_fallback_deadline(0);
    let (mut attempt, action) = Attempt::begin(rules(AppType::Codex, 0), &retry, 4 * SECOND);
    assert!(matches!(action, AttemptAction::Prepare(Some(left)) if left == 6 * SECOND));
    match attempt.on_event(&mut retry, AttemptEvent::PreparationTimedOut, 10 * SECOND) {
        AttemptAction::Finish(AttemptOutcome::Failed(error)) => assert_eq!(
            error.into_error(),
            ProxyError::Timeout("request timed out after 10s".to_string())
        ),
        other => panic!("unexpected action: {other:?}"),
    }
    let (_, late) = Attempt::begin(rules(AppType::Codex, 0), &retry, 11 * SECOND);
    assert!(matches!(
        late,
        AttemptAction::Finish(AttemptOutcome::Failed(_))
    ));
}

#[test]
fn preparation_and_copies_may_fail() {
    let mut retry = ResponsesRetryState::new(false, 0);
    let (mut attempt, _) = Attempt::begin(rules(AppType::Claude, 0), &retry, 0);
    let failed = AttemptEvent::PreparationFailed(ProxyError::AuthError("no key".to_string()));
    match attempt.on_event(&mut retry, failed, 0) {
        AttemptAction::Finish(AttemptOutcome::Failed(error)) => {
            assert_eq!(error.into_error(), ProxyError::AuthError("no key".to_string()))
        }
        other => panic!("unexpected action: {other:?}"),
    }
    let (mut attempt, _) = Attempt::begin(rules(AppType::Claude, 0), &retry, 0);
    attempt.on_event(&mut retry, AttemptEvent::Prepared, 0);
    match attempt.on_event(&mut retry, AttemptEvent::CloneFailed, 0) {
        AttemptAction::Finish(AttemptOutcome::Failed(error)) => assert_eq!(
            error.into_error(),
            ProxyError::ForwardFailed("clone proxy request failed before retry".to_string())
        ),
        other => panic!("unexpected action: {other:?}"),
    }
}

// ---------------------------------------------------------------------------
// The start of streams
// ---------------------------------------------------------------------------

fn start(responses: bool, until_terminal: bool) -> StreamStart {
    StreamStart::begin(
        StartRules {
            timeout: Some(5 * SECOND),
            started_at: 0,
            responses,
            codex_anthropic: !responses,
            until_terminal,
            total_timeout: false,
        },
        Some(" Identity "),
    )
    .expect("not encoded")
}

#[test]
fn what_was_read_is_handed_on_from_its_first_byte() {
    let mut stream = start(true, false);
    let chunks = vec![b": hello\n\n".to_vec(), vec![b'x'; 262_144]];
    assert!(matches!(
        stream.on_event(StreamEvent::Chunk(chunks[0].clone()), 1),
        Verdict::Continue
    ));
    assert!(matches!(stream.wait_plan(SECOND), WaitPlan::Read(Some(left)) if left == 4 * SECOND));
    assert!(matches!(
        stream.on_event(StreamEvent::Chunk(chunks[1].clone()), 2),
        Verdict::Commit { with_tail: true }
    ));
    assert_eq!(stream.into_chunks(), chunks);
}

#[test]
fn a_stream_that_is_read_to_its_end_has_no_tail() {
    let mut stream = start(true, true);
    let completed = b"event: response.completed\ndata: {}\n\n".to_vec();
    assert!(matches!(
        stream.on_event(StreamEvent::Chunk(completed), 1),
        Verdict::Commit { with_tail: false }
    ));
}

#[test]
fn streams_that_end_without_output_fail() {
    let mut stream = start(true, false);
    match stream.on_event(StreamEvent::Ended, 1) {
        Verdict::Fail(error) => assert_eq!(
            error,
            ProxyError::ForwardFailed(
                "Responses stream ended before producing output or a terminal event".to_string()
            )
        ),
        other => panic!("unexpected: {other:?}"),
    }
    let mut stream = start(false, false);
    match stream.on_event(StreamEvent::Ended, 1) {
        Verdict::Fail(ProxyError::UpstreamError { status, .. }) => assert_eq!(status, 503),
        other => panic!("unexpected: {other:?}"),
    }
    let mut stream = start(false, false);
    match stream.on_event(StreamEvent::TimedOut, 1) {
        Verdict::Fail(error) => assert_eq!(
            error,
            ProxyError::Timeout("stream timeout after 5s".to_string())
        ),
        other => panic!("unexpected: {other:?}"),
    }
}

#[test]
fn encoded_streams_of_the_messages_protocol_are_refused() {
    let refused = StreamStart::begin(
        StartRules {
            timeout: None,
            started_at: 0,
            responses: false,
            codex_anthropic: true,
            until_terminal: false,
            total_timeout: false,
        },
        Some("gzip"),
    );
    assert!(matches!(
        refused,
        Err(ProxyError::UpstreamError { status: 503, .. })
    ));
}

// ---------------------------------------------------------------------------
// The forwarder
// ---------------------------------------------------------------------------

#[test]
fn a_forwarder_keeps_what_it_is_given() {
    let router = Arc::new("router");
    let forwarder: RequestForwarder<&str, u8, u16, String, String> =
        RequestForwarder::new(router).expect("does not fail");
    assert_eq!(*forwarder.optimizer_config(), 0);
    assert_eq!(*forwarder.copilot_optimizer_config(), 0);
    assert_eq!(forwarder.session(), ("", false));
    assert!(forwarder.codex_chat_history().is_none());
    assert!(forwarder.gemini_shadow().is_none());
    let forwarder = forwarder
        .with_optimizer_config(3)
        .with_copilot_optimizer_config(4)
        .with_session("s".to_string(), true)
        .with_codex_chat_history(Arc::new("history".to_string()))
        .with_gemini_shadow(Arc::new("shadow".to_string()));
    assert_eq!(*forwarder.router(), "router");
    assert_eq!(*forwarder.optimizer_config(), 3);
    assert_eq!(*forwarder.copilot_optimizer_config(), 4);
    assert_eq!(forwarder.session(), ("s", true));
    assert_eq!(
        forwarder.codex_chat_history().map(|h| h.as_str()),
        Some("history")
    );
    assert_eq!(forwarder.gemini_shadow().map(|g| g.as_str()), Some("shadow"));
    let options = ForwardOptions {
        max_retries: 1,
        request_timeout: Some(Duration::from_secs(2)),
        bypass_circuit_breaker: false,
    };
    assert_eq!(
        responses_bridge::forwarder::retry::limit_nanos(options.request_timeout),
        Some(2 * SECOND)
    );
}
