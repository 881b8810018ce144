//! Forwarding as a whole: scripted providers, a scripted clock, and the rules of
//! the library between them.
use responses_bridge::error::ProxyError;
use responses_bridge::forwarder::attempt::{
    Attempt, AttemptAction, AttemptEvent, AttemptMode, AttemptOutcome, BodyRules,
};
use responses_bridge::forwarder::body::{check_decoded_size, BodyReader};
use responses_bridge::forwarder::errors::{AppType, AttemptDecision};
use responses_bridge::forwarder::failover::{Failover, Report, Settled};
use responses_bridge::forwarder::protocols::rules_for_attempt;
use responses_bridge::forwarder::retry::{ResponsesRetryState, SendError};
use responses_bridge::forwarder::stream_start::{
    StartRules, StreamEvent, StreamStart, Verdict, WaitPlan,
};
use responses_bridge::forwarder::{
    BufferedResponse, ForwardFailure, ForwardOptions, ForwardedResponse, LiveResponse, Provider,
    StreamingResponse,
};
use responses_bridge::json::Json;
use responses_bridge::json_codec;
use serde_json::Value;
use std::collections::HashMap;
use std::time::Duration;

// ---------------------------------------------------------------------------
// Scripted providers
// ---------------------------------------------------------------------------

const MILLI: u128 = 1_000_000;

/// A part of a body: after so many milliseconds some bytes come, or reading
/// fails.
#[derive(Debug, Clone)]
enum Piece {
    Bytes(u128, Vec<u8>),
    Broken,
}

#[derive(Debug, Clone)]
enum Reply {
    Answer {
        delay: u128,
        status: u16,
        content_type: &'static str,
        encoding: Option<&'static str>,
        length: Option<u64>,
        body: Vec<Piece>,
    },
    NoConnection,
}

fn sse(body: &str) -> Reply {
    late_sse(0, body)
}

fn late_sse(delay: u128, body: &str) -> Reply {
    chunks(delay, vec![body.as_bytes().to_vec()])
}

fn chunks(delay: u128, parts: Vec<Vec<u8>>) -> Reply {
    Reply::Answer {
        delay,
        status: 200,
        content_type: "text/event-stream",
        encoding: None,
        length: None,
        body: parts
            .into_iter()
            .map(|part| Piece::Bytes(0, part))
            .collect(),
    }
}

fn json(status: u16, body: &str) -> Reply {
    late_json(0, status, body)
}

fn late_json(delay: u128, status: u16, body: &str) -> Reply {
    Reply::Answer {
        delay,
        status,
        content_type: "application/json; charset=utf-8",
        encoding: None,
        length: None,
        body: vec![Piece::Bytes(0, body.as_bytes().to_vec())],
    }
}

/// The head comes at once and the body after a while.
fn slow_body(delay: u128) -> Reply {
    Reply::Answer {
        delay: 0,
        status: 200,
        content_type: "application/json",
        encoding: None,
        length: None,
        body: vec![Piece::Bytes(delay, b"{}".to_vec())],
    }
}

struct World {
    now: u128,
    replies: HashMap<String, Vec<Reply>>,
    hits: HashMap<String, usize>,
    reports: Vec<(String, String)>,
    refused: Vec<String>,
    rectifies: bool,
}

impl World {
    fn new(replies: Vec<(&str, Vec<Reply>)>) -> World {
        World {
            now: 5_000 * MILLI,
            replies: replies
                .into_iter()
                .map(|(id, mut script)| {
                    script.reverse();
                    (id.to_string(), script)
                })
                .collect(),
            hits: HashMap::new(),
            reports: Vec::new(),
            refused: Vec::new(),
            rectifies: false,
        }
    }

    fn hits(&self, id: &str) -> usize {
        self.hits.get(id).copied().unwrap_or(0)
    }

    fn reply(&mut self, id: &str) -> Reply {
        *self.hits.entry(id.to_string()).or_insert(0) += 1;
        self.replies
            .get_mut(id)
            .and_then(|script| script.pop())
            .expect("a reply for every request")
    }

    /// Lets time pass, up to a limit. Tells whether there was time enough.
    fn pass(&mut self, millis: u128, limit: Option<u128>) -> bool {
        match limit {
            Some(limit) if millis * MILLI >= limit => {
                self.now += limit;
                false
            }
            _ => {
                self.now += millis * MILLI;
                true
            }
        }
    }
}

// ---------------------------------------------------------------------------
// Doing what the rules say
// ---------------------------------------------------------------------------

enum Got {
    Live(LiveResponse<Vec<Piece>>, AttemptDecision),
    Buffered(BufferedResponse, AttemptDecision),
    Failed(ProxyError),
}

fn read_body(
    world: &mut World,
    rules: &BodyRules,
    encoding: Option<&str>,
    length: Option<u64>,
    pieces: &[Piece],
) -> Result<Vec<u8>, ProxyError> {
    let mut reader = BodyReader::begin(
        rules.limit,
        rules.timeout,
        rules.started_at,
        rules.as_stream,
        encoding,
        length,
    )?;
    for piece in pieces {
        let wait = reader.wait_time(world.now)?;
        match piece {
            Piece::Broken => {
                return Err(reader.failed(SendError {
                    is_timeout: false,
                    is_connect: false,
                    message: "broken".to_string(),
                }))
            }
            Piece::Bytes(delay, bytes) => {
                if !world.pass(*delay, wait) {
                    return Err(reader.timed_out());
                }
                reader.push(bytes)?;
            }
        }
    }
    reader.wait_time(world.now)?;
    let body = reader.finish();
    check_decoded_size(rules.limit, body.len())?;
    Ok(body)
}

type Started = (Vec<Vec<u8>>, Option<Vec<Piece>>);

fn start_stream(
    world: &mut World,
    rules: StartRules,
    encoding: Option<&str>,
    pieces: &[Piece],
) -> Result<Started, ProxyError> {
    let mut start = StreamStart::begin(rules, encoding)?;
    let mut rest = pieces.to_vec();
    loop {
        let wait = match start.wait_plan(world.now) {
            WaitPlan::Commit => return Ok((start.into_chunks(), Some(rest))),
            WaitPlan::Fail(error) => return Err(error),
            WaitPlan::Read(wait) => wait,
        };
        let event = if rest.is_empty() {
            StreamEvent::Ended
        } else {
            match rest.remove(0) {
                Piece::Broken => StreamEvent::Failed("broken".to_string()),
                Piece::Bytes(delay, bytes) => {
                    if world.pass(delay, wait) {
                        StreamEvent::Chunk(bytes)
                    } else {
                        StreamEvent::TimedOut
                    }
                }
            }
        };
        match start.on_event(event, world.now) {
            Verdict::Continue => {}
            Verdict::Fail(error) => return Err(error),
            Verdict::Commit { with_tail } => {
                return Ok((start.into_chunks(), with_tail.then_some(rest)))
            }
        }
    }
}

fn run_attempt(
    world: &mut World,
    id: &str,
    rules: responses_bridge::forwarder::attempt::AttemptRules,
    retry: &mut ResponsesRetryState,
) -> Got {
    let (mut attempt, mut action) = Attempt::begin(rules, retry, world.now);
    let mut status = 0;
    let mut encoding = None;
    let mut length = None;
    let mut pieces = Vec::new();
    let mut body = Vec::new();
    let mut started: Started = (Vec::new(), None);
    loop {
        action = match action {
            AttemptAction::Prepare(_) => {
                attempt.on_event(retry, AttemptEvent::Prepared, world.now)
            }
            AttemptAction::Send(limit) => match world.reply(id) {
                Reply::NoConnection => attempt.on_event(
                    retry,
                    AttemptEvent::SendFailed(SendError {
                        is_timeout: false,
                        is_connect: true,
                        message: "refused".to_string(),
                    }),
                    world.now,
                ),
                Reply::Answer {
                    delay,
                    status: code,
                    content_type,
                    encoding: coding,
                    length: announced,
                    body: script,
                } => {
                    if world.pass(delay, limit) {
                        status = code;
                        encoding = coding;
                        length = announced;
                        pieces = script;
                        attempt.on_event(
                            retry,
                            AttemptEvent::Answered {
                                status,
                                content_type: Some(content_type),
                            },
                            world.now,
                        )
                    } else {
                        attempt.on_event(retry, AttemptEvent::SendTimedOut, world.now)
                    }
                }
            },
            AttemptAction::ReadBody(rules) => {
                match read_body(world, &rules, encoding, length, &pieces) {
                    Ok(bytes) => {
                        body = bytes;
                        attempt.on_event(retry, AttemptEvent::BodyRead(&body), world.now)
                    }
                    Err(error) => {
                        attempt.on_event(retry, AttemptEvent::BodyFailed(error), world.now)
                    }
                }
            }
            AttemptAction::StartStream(rules) => {
                match start_stream(world, rules, encoding, &pieces) {
                    Ok(got) => {
                        started = got;
                        attempt.on_event(retry, AttemptEvent::StreamReady, world.now)
                    }
                    Err(error) => {
                        attempt.on_event(retry, AttemptEvent::StreamFailed(error), world.now)
                    }
                }
            }
            AttemptAction::Wait(nanos) => {
                world.now += nanos;
                attempt.on_event(retry, AttemptEvent::Waited, world.now)
            }
            AttemptAction::Rectify(_) => {
                attempt.on_event(retry, AttemptEvent::Rectified(world.rectifies), world.now)
            }
            AttemptAction::Finish(AttemptOutcome::Failed(error)) => {
                return Got::Failed(error.into_error())
            }
            AttemptAction::Finish(AttemptOutcome::Buffered(decision)) => {
                return Got::Buffered(
                    BufferedResponse {
                        status,
                        headers: Vec::new(),
                        body,
                    },
                    decision,
                )
            }
            AttemptAction::Finish(AttemptOutcome::Live(decision)) => {
                let (chunks, tail) = if started.0.is_empty() && started.1.is_none() {
                    (Vec::new(), Some(pieces))
                } else {
                    started
                };
                return Got::Live(
                    LiveResponse::from_stream(status, Vec::new(), chunks, tail),
                    decision,
                );
            }
            AttemptAction::Unexpected => unreachable!("every event was asked for"),
        };
    }
}

fn note(world: &mut World, id: &str, report: Option<Report>) {
    if let Some(report) = report {
        let text = match report {
            Report::Success => "success".to_string(),
            Report::Failure(reason) => reason,
            Report::Release => "release".to_string(),
        };
        world.reports.push((id.to_string(), text));
    }
}

fn options(max_retries: u32, timeout: Duration, bypass_circuit_breaker: bool) -> ForwardOptions {
    ForwardOptions {
        max_retries,
        request_timeout: Some(timeout),
        bypass_circuit_breaker,
    }
}

fn forward_streaming(
    world: &mut World,
    app_type: AppType,
    endpoint: &str,
    body: &Json,
    providers: Vec<Provider>,
    options: ForwardOptions,
) -> Result<ForwardedResponse<StreamingResponse<Vec<Piece>>>, ForwardFailure> {
    let mut failover = Failover::begin(app_type, &options, providers, world.now);
    while let Some(i) = failover.next_provider() {
        let id = failover.provider(i).id.clone();
        if failover.consults_router() && world.refused.contains(&id) {
            continue;
        }
        failover.begin_attempt();
        let rules = rules_for_attempt(
            AttemptMode::Streaming,
            app_type,
            failover.provider(i),
            endpoint,
            body,
            &options,
            world.now,
        );
        let mut retry = failover.retry_state(i);
        let got = run_attempt(world, &id, rules, &mut retry);
        failover.keep_retry_state(i, retry);
        let settled: Settled<StreamingResponse<Vec<Piece>>> = match got {
            Got::Live(live, decision) => {
                failover.on_response(i, decision, StreamingResponse::Live(live))
            }
            Got::Buffered(read, decision) => {
                failover.on_response(i, decision, StreamingResponse::Buffered(read))
            }
            Got::Failed(error) => failover.on_error(i, error),
        };
        note(world, &id, settled.report);
        if let Some(result) = settled.result {
            return result;
        }
    }
    failover.finish()
}

fn forward_buffered(
    world: &mut World,
    app_type: AppType,
    endpoint: &str,
    body: &Json,
    providers: Vec<Provider>,
    options: ForwardOptions,
) -> Result<ForwardedResponse<BufferedResponse>, ForwardFailure> {
    let mut failover = Failover::begin(app_type, &options, providers, world.now);
    while let Some(i) = failover.next_provider() {
        let id = failover.provider(i).id.clone();
        if failover.consults_router() && world.refused.contains(&id) {
            continue;
        }
        failover.begin_attempt();
        let rules = rules_for_attempt(
            AttemptMode::Buffered,
            app_type,
            failover.provider(i),
            endpoint,
            body,
            &options,
            world.now,
        );
        let mut retry = failover.retry_state(i);
        let got = run_attempt(world, &id, rules, &mut retry);
        failover.keep_retry_state(i, retry);
        let settled: Settled<BufferedResponse> = match got {
            Got::Buffered(read, decision) => failover.on_response(i, decision, read),
            Got::Live(_, _) => unreachable!("a whole answer was wanted"),
            Got::Failed(error) => failover.on_error(i, error),
        };
        note(world, &id, settled.report);
        if let Some(result) = settled.result {
            return result;
        }
    }
    failover.finish()
}

// ---------------------------------------------------------------------------
// Providers and requests
// ---------------------------------------------------------------------------

fn plain_provider(id: &str) -> Provider {
    Provider {
        id: id.to_string(),
        is_codex_official: false,
        needs_transform: false,
        claude_api_format: "anthropic".to_string(),
        converts_to_chat: false,
        converts_to_anthropic: false,
    }
}

/// A provider that serves Messages clients in the Responses protocol.
fn responses_provider(id: &str) -> Provider {
    Provider {
        needs_transform: true,
        claude_api_format: "openai_responses".to_string(),
        ..plain_provider(id)
    }
}

/// A provider that serves Codex clients in the Messages protocol.
fn anthropic_provider(id: &str) -> Provider {
    Provider {
        converts_to_anthropic: true,
        ..plain_provider(id)
    }
}

fn request(text: &str) -> Json {
    json_codec::parse(text).expect("JSON text")
}

fn codex_request() -> Json {
    request(r#"{"model": "gpt-5.6-terra", "input": "continue", "stream": true}"#)
}

fn messages_request() -> Json {
    request(
        r#"{"stream": true, "max_tokens": 32, "messages": [{"role": "user", "content": "hello"}]}"#,
    )
}

fn search_request() -> Json {
    request(
        r#"{
            "stream": true,
            "max_tokens": 32,
            "tools": [{"type": "web_search_20250305", "name": "web_search"}],
            "messages": [{"role": "user", "content": "search"}]
        }"#,
    )
}

/// All bytes of a response that is handed on as it comes.
fn live_bytes(response: StreamingResponse<Vec<Piece>>) -> Vec<u8> {
    match response {
        StreamingResponse::Live(live) => {
            let (chunks, tail) = live.bytes_stream();
            let mut bytes = chunks.concat();
            for piece in tail.unwrap_or_default() {
                match piece {
                    Piece::Bytes(_, part) => bytes.extend(part),
                    Piece::Broken => panic!("broken"),
                }
            }
            bytes
        }
        StreamingResponse::Buffered(_) => panic!("the response should be handed on as it comes"),
    }
}

fn live_text(response: StreamingResponse<Vec<Piece>>) -> String {
    String::from_utf8(live_bytes(response)).expect("UTF-8")
}

fn is_status(error: &ProxyError, wanted: u16) -> bool {
    matches!(error, ProxyError::UpstreamError { status, .. } if *status == wanted)
}

const SECOND: Duration = Duration::from_secs(1);

// ---------------------------------------------------------------------------
// Codex clients and the Messages protocol
// ---------------------------------------------------------------------------

const EMPTY_MESSAGE: &str = "event: message_start\ndata: {\"type\":\"message_start\",\"message\":{\"id\":\"msg_empty\",\"type\":\"message\",\"role\":\"assistant\",\"content\":[],\"usage\":{\"input_tokens\":1,\"output_tokens\":0}}}\n\nevent: message_delta\ndata: {\"type\":\"message_delta\",\"delta\":{\"stop_reason\":\"end_turn\"},\"usage\":{\"output_tokens\":0}}\n\nevent: message_stop\ndata: {\"type\":\"message_stop\"}\n\n";

const TEXT_MESSAGE: &str = "event: message_start\ndata: {\"type\":\"message_start\",\"message\":{\"id\":\"msg_ok\",\"type\":\"message\",\"role\":\"assistant\",\"content\":[],\"usage\":{\"input_tokens\":1,\"output_tokens\":0}}}\n\nevent: content_block_start\ndata: {\"type\":\"content_block_start\",\"index\":0,\"content_block\":{\"type\":\"text\",\"text\":\"\"}}\n\nevent: content_block_delta\ndata: {\"type\":\"content_block_delta\",\"index\":0,\"delta\":{\"type\":\"text_delta\",\"text\":\"ok\"}}\n\nevent: content_block_stop\ndata: {\"type\":\"content_block_stop\",\"index\":0}\n\nevent: message_delta\ndata: {\"type\":\"message_delta\",\"delta\":{\"stop_reason\":\"end_turn\"},\"usage\":{\"output_tokens\":1}}\n\nevent: message_stop\ndata: {\"type\":\"message_stop\"}\n\n";

fn codex(
    world: &mut World,
    max_retries: u32,
    timeout: Duration,
) -> Result<ForwardedResponse<StreamingResponse<Vec<Piece>>>, ForwardFailure> {
    forward_streaming(
        world,
        AppType::Codex,
        "/v1/responses",
        &codex_request(),
        vec![anthropic_provider("p1")],
        options(max_retries, timeout, true),
    )
}

#[test]
fn codex_anthropic_empty_success_retries_before_client_commit() {
    let mut world = World::new(vec![("p1", vec![sse(EMPTY_MESSAGE), sse(TEXT_MESSAGE)])]);
    let result = codex(&mut world, 2, 5 * SECOND)
        .expect("empty Anthropic completion should retry before client commit");
    assert_eq!(result.response.status(), 200);
    assert_eq!(live_text(result.response), TEXT_MESSAGE);
    assert_eq!(world.hits("p1"), 2);
}

#[test]
fn codex_anthropic_empty_json_retries_before_client_commit() {
    let mut world = World::new(vec![(
        "p1",
        vec![
            json(
                200,
                r#"{"id": "msg_empty", "type": "message", "role": "assistant", "content": [], "stop_reason": "end_turn"}"#,
            ),
            json(
                200,
                r#"{"id": "msg_ok", "type": "message", "role": "assistant", "content": [{"type": "text", "text": "ok"}]}"#,
            ),
        ],
    )]);
    let result = codex(&mut world, 2, 5 * SECOND)
        .expect("empty Anthropic JSON should retry before client commit");
    assert_eq!(result.response.status(), 200);
    assert!(matches!(result.response, StreamingResponse::Buffered(_)));
    assert_eq!(world.hits("p1"), 2);
}

#[test]
fn codex_anthropic_tool_use_commits_without_retry() {
    let tool_use = "event: content_block_start\ndata: {\"type\":\"content_block_start\",\"index\":0,\"content_block\":{\"type\":\"tool_use\",\"id\":\"tool_1\",\"name\":\"exec\",\"input\":{}}}\n\nevent: content_block_delta\ndata: {\"type\":\"content_block_delta\",\"index\":0,\"delta\":{\"type\":\"input_json_delta\",\"partial_json\":\"{\\\"code\\\":\\\"text('ok')\\\"}\"}}\n\nevent: content_block_stop\ndata: {\"type\":\"content_block_stop\",\"index\":0}\n\nevent: message_stop\ndata: {\"type\":\"message_stop\"}\n\n";
    let mut world = World::new(vec![("p1", vec![sse(tool_use)])]);
    let result = codex(&mut world, 2, 5 * SECOND)
        .expect("tool use should commit the first response without retrying");
    assert_eq!(live_text(result.response), tool_use);
    assert_eq!(world.hits("p1"), 1);
}

#[test]
fn codex_anthropic_empty_success_retry_exhaustion_returns_503() {
    let mut world = World::new(vec![("p1", vec![sse(EMPTY_MESSAGE), sse(EMPTY_MESSAGE)])]);
    let failure = codex(&mut world, 1, 5 * SECOND)
        .expect_err("persistent empty Anthropic completions should fail explicitly");
    match failure.error {
        ProxyError::UpstreamError { status, body } => {
            assert_eq!(status, 503);
            let body: Value = serde_json::from_str(&body.expect("error body")).expect("JSON");
            assert_eq!(body["error"]["type"], "service_unavailable_error");
            assert!(body["error"]["message"]
                .as_str()
                .is_some_and(|message| message.contains("without text")));
        }
        other => panic!("expected upstream 503, got {other:?}"),
    }
    assert_eq!(world.hits("p1"), 2);
}

#[test]
fn codex_anthropic_empty_and_invalid_json_retry_before_client_commit() {
    let mut world = World::new(vec![(
        "p1",
        vec![
            json(200, ""),
            json(200, "{\"type\":"),
            json(
                200,
                r#"{"id": "msg_ok", "type": "message", "role": "assistant", "content": [{"type": "text", "text": "ok"}]}"#,
            ),
        ],
    )]);
    let result = codex(&mut world, 2, 10 * SECOND)
        .expect("empty and truncated JSON should retry before client commit");
    assert_eq!(result.response.status(), 200);
    assert_eq!(world.hits("p1"), 3);
}

#[test]
fn codex_anthropic_redacted_thinking_is_substantive_output() {
    let redacted = "event: content_block_start\ndata: {\"type\":\"content_block_start\",\"index\":0,\"content_block\":{\"type\":\"redacted_thinking\",\"data\":\"encrypted-reasoning\"}}\n\nevent: content_block_stop\ndata: {\"type\":\"content_block_stop\",\"index\":0}\n\nevent: message_stop\ndata: {\"type\":\"message_stop\"}\n\n";
    let mut world = World::new(vec![("p1", vec![sse(redacted)])]);
    let result =
        codex(&mut world, 2, 5 * SECOND).expect("redacted thinking should be committed");
    assert!(live_text(result.response).contains("encrypted-reasoning"));
    assert_eq!(world.hits("p1"), 1);
}

#[test]
fn codex_anthropic_final_sse_block_without_separator_is_inspected() {
    let text = "event: content_block_start\ndata: {\"type\":\"content_block_start\",\"index\":0,\"content_block\":{\"type\":\"text\",\"text\":\"\"}}\n\nevent: content_block_delta\ndata: {\"type\":\"content_block_delta\",\"index\":0,\"delta\":{\"type\":\"text_delta\",\"text\":\"ok\"}}";
    let mut world = World::new(vec![("p1", vec![sse(text)])]);
    let result = codex(&mut world, 0, 5 * SECOND)
        .expect("a final unterminated SSE block with output should remain valid");
    assert_eq!(live_text(result.response), text);
    assert_eq!(world.hits("p1"), 1);
}

#[test]
fn codex_anthropic_oversized_non_output_prelude_is_rejected() {
    let oversized = format!(
        ":{}\n\nevent: content_block_start\ndata: {{\"type\":\"content_block_start\",\"index\":0,\"content_block\":{{\"type\":\"text\",\"text\":\"too late\"}}}}\n\n",
        "x".repeat(256 * 1024)
    );
    let mut world = World::new(vec![("p1", vec![sse(&oversized)])]);
    let failure = codex(&mut world, 0, 5 * SECOND)
        .expect_err("an oversized prelude without output must not be committed");
    assert!(is_status(&failure.error, 503));
    assert_eq!(world.hits("p1"), 1);
}

#[test]
fn codex_anthropic_malformed_tool_use_is_rejected() {
    let malformed = "event: content_block_start\ndata: {\"type\":\"content_block_start\",\"index\":0,\"content_block\":{\"type\":\"tool_use\",\"id\":\"\",\"name\":\"\",\"input\":null}}\n\nevent: message_stop\ndata: {\"type\":\"message_stop\"}\n\n";
    let mut world = World::new(vec![("p1", vec![sse(malformed)])]);
    let failure =
        codex(&mut world, 0, 5 * SECOND).expect_err("a malformed tool use must not be committed");
    assert!(is_status(&failure.error, 503));
    assert_eq!(world.hits("p1"), 1);
}

#[test]
fn codex_anthropic_crlf_and_split_utf8_remain_streamable() {
    let payload = "event: content_block_start\r\ndata: {\"type\":\"content_block_start\",\"index\":0,\"content_block\":{\"type\":\"text\",\"text\":\"\"}}\r\n\r\nevent: content_block_delta\r\ndata: {\"type\":\"content_block_delta\",\"index\":0,\"delta\":{\"type\":\"text_delta\",\"text\":\"你好\"}}\r\n\r\n";
    let split = payload.find('你').expect("find multibyte text") + 1;
    let parts = vec![
        payload.as_bytes()[..split].to_vec(),
        payload.as_bytes()[split..].to_vec(),
    ];
    let mut world = World::new(vec![("p1", vec![chunks(0, parts)])]);
    let result =
        codex(&mut world, 0, 5 * SECOND).expect("CRLF and split UTF-8 should remain valid");
    assert_eq!(live_text(result.response), payload);
    assert_eq!(world.hits("p1"), 1);
}

#[test]
fn codex_anthropic_oversized_json_is_rejected_before_commit() {
    let oversized = " ".repeat(16 * 1024 * 1024 + 1);
    let mut world = World::new(vec![("p1", vec![json(200, &oversized)])]);
    let failure = codex(&mut world, 0, 5 * SECOND)
        .expect_err("an oversized JSON body must not be buffered without a limit");
    assert!(is_status(&failure.error, 503));
    assert_eq!(world.hits("p1"), 1);
}

#[test]
fn an_announced_length_is_held_to_the_limit() {
    let mut world = World::new(vec![(
        "p1",
        vec![Reply::Answer {
            delay: 0,
            status: 200,
            content_type: "application/json",
            encoding: None,
            length: Some(16 * 1024 * 1024 + 1),
            body: Vec::new(),
        }],
    )]);
    let failure = codex(&mut world, 0, 5 * SECOND).expect_err("announced as too long");
    assert!(failure.error.message().contains("16777216-byte"));
}

#[test]
fn codex_anthropic_encoded_json_is_rejected_before_decompression() {
    let mut world = World::new(vec![(
        "p1",
        vec![Reply::Answer {
            delay: 0,
            status: 200,
            content_type: "application/json",
            encoding: Some("gzip"),
            length: None,
            body: vec![Piece::Bytes(0, b"not-really-gzip".to_vec())],
        }],
    )]);
    let failure = codex(&mut world, 0, 5 * SECOND)
        .expect_err("encoded JSON must not bypass the decoded body limit");
    assert!(is_status(&failure.error, 503));
    assert_eq!(world.hits("p1"), 1);
}

#[test]
fn codex_anthropic_json_overload_retries_with_503_semantics() {
    let mut world = World::new(vec![(
        "p1",
        vec![
            json(
                200,
                r#"{"type": "error", "error": {"type": "overloaded_error", "message": "busy"}}"#,
            ),
            json(
                200,
                r#"{"id": "msg_ok", "type": "message", "role": "assistant", "content": [{"type": "text", "text": "ok"}]}"#,
            ),
        ],
    )]);
    let result = codex(&mut world, 1, 5 * SECOND)
        .expect("a JSON overload envelope should retry and recover");
    assert_eq!(result.response.status(), 200);
    assert_eq!(world.hits("p1"), 2);
}

#[test]
fn codex_anthropic_semantic_retry_shares_total_timeout() {
    let empty = "event: message_stop\ndata: {\"type\":\"message_stop\"}\n\n";
    let late = "event: content_block_delta\ndata: {\"type\":\"content_block_delta\",\"index\":0,\"delta\":{\"type\":\"text_delta\",\"text\":\"late\"}}\n\n";
    let mut world = World::new(vec![("p1", vec![sse(empty), late_sse(800, late)])]);
    let started = world.now;
    let failure = codex(&mut world, 1, Duration::from_millis(1500))
        .expect_err("semantic retries must share the configured total timeout");
    assert!(matches!(failure.error, ProxyError::Timeout(_)));
    assert_eq!(world.now - started, 1500 * MILLI);
    assert_eq!(world.hits("p1"), 2);
}

#[test]
fn codex_native_responses_does_not_inherit_anthropic_retry_state() {
    let native_failure = "event: response.failed\ndata: {\"type\":\"response.failed\",\"response\":{\"status\":\"failed\",\"error\":{\"type\":\"service_unavailable_error\",\"message\":\"busy\"}}}\n\n";
    let mut world = World::new(vec![
        ("native", vec![sse(native_failure)]),
        ("anthropic", vec![sse(TEXT_MESSAGE)]),
    ]);
    let result = forward_streaming(
        &mut world,
        AppType::Codex,
        "/v1/responses",
        &codex_request(),
        vec![plain_provider("native"), anthropic_provider("anthropic")],
        options(1, 5 * SECOND, true),
    )
    .expect("native failure should fail over without an internal semantic retry");
    assert_eq!(result.provider.id, "anthropic");
    assert_eq!(world.hits("native"), 1);
    assert_eq!(world.hits("anthropic"), 1);
}

// ---------------------------------------------------------------------------
// Messages clients
// ---------------------------------------------------------------------------

fn buffered(
    world: &mut World,
    providers: Vec<Provider>,
    options: ForwardOptions,
) -> Result<ForwardedResponse<BufferedResponse>, ForwardFailure> {
    forward_buffered(
        world,
        AppType::Claude,
        "/v1/messages",
        &messages_request(),
        providers,
        options,
    )
}

fn streaming(
    world: &mut World,
    providers: Vec<Provider>,
    options: ForwardOptions,
) -> Result<ForwardedResponse<StreamingResponse<Vec<Piece>>>, ForwardFailure> {
    forward_streaming(
        world,
        AppType::Claude,
        "/v1/messages",
        &messages_request(),
        providers,
        options,
    )
}

#[test]
fn single_provider_buffered_claude_non_2xx_returns_upstream_error() {
    let body = r#"{"error":{"message":"rate limited"}}"#;
    let mut world = World::new(vec![("p1", vec![json(429, body)])]);
    let failure = buffered(
        &mut world,
        vec![plain_provider("p1")],
        options(0, 2 * SECOND, false),
    )
    .expect_err("a lone 429 should surface as UpstreamError");
    assert_eq!(
        failure.error,
        ProxyError::UpstreamError {
            status: 429,
            body: Some(body.to_string()),
        }
    );
    assert_eq!(failure.provider.map(|provider| provider.id), Some("p1".to_string()));
    assert_eq!(world.hits("p1"), 1);
    assert_eq!(
        world.reports,
        vec![("p1".to_string(), "upstream returned 429".to_string())]
    );
}

#[test]
fn last_provider_429_returns_upstream_error() {
    let limited = r#"{"error":{"message":"rate limited"}}"#;
    let mut world = World::new(vec![
        ("p1", vec![json(500, r#"{"error":{"message":"primary down"}}"#)]),
        ("p2", vec![json(429, limited)]),
    ]);
    let failure = buffered(
        &mut world,
        vec![plain_provider("p1"), plain_provider("p2")],
        options(1, 2 * SECOND, false),
    )
    .expect_err("last provider 429 should surface as UpstreamError");
    assert_eq!(
        failure.error,
        ProxyError::UpstreamError {
            status: 429,
            body: Some(limited.to_string()),
        }
    );
}

#[test]
fn last_streaming_provider_429_returns_upstream_error() {
    let limited = r#"{"error":{"message":"rate limited"}}"#;
    let mut world = World::new(vec![
        ("p1", vec![json(500, r#"{"error":{"message":"primary down"}}"#)]),
        ("p2", vec![json(429, limited)]),
    ]);
    let failure = streaming(
        &mut world,
        vec![plain_provider("p1"), plain_provider("p2")],
        options(1, 2 * SECOND, false),
    )
    .expect_err("last streaming provider 429 should surface as UpstreamError");
    assert_eq!(
        failure.error,
        ProxyError::UpstreamError {
            status: 429,
            body: Some(limited.to_string()),
        }
    );
}

#[test]
fn buffered_timeout_includes_body_read_budget_after_headers() {
    let mut world = World::new(vec![("p1", vec![slow_body(200)])]);
    let failure = buffered(
        &mut world,
        vec![plain_provider("p1")],
        options(0, Duration::from_millis(50), true),
    )
    .expect_err("buffered request should time out while waiting for body");
    assert!(
        matches!(failure.error, ProxyError::Timeout(message) if message.contains("request timed out"))
    );
    assert_eq!(world.hits("p1"), 1);
}

#[test]
fn buffered_body_timeout_after_headers_fails_over() {
    let mut world = World::new(vec![
        ("p1", vec![slow_body(200)]),
        ("p2", vec![json(200, r#"{"ok": true}"#)]),
    ]);
    let result = buffered(
        &mut world,
        vec![plain_provider("p1"), plain_provider("p2")],
        options(1, Duration::from_millis(50), false),
    )
    .expect("body timeout before commit should fail over");
    assert_eq!(result.provider.id, "p2");
    assert_eq!(result.response.status, 200);
    assert_eq!(world.hits("p1"), 1);
    assert_eq!(world.hits("p2"), 1);
    assert_eq!(world.reports[1], ("p2".to_string(), "success".to_string()));
}

#[test]
fn streaming_first_chunk_timeout_after_headers_fails_over_and_replays_fallback() {
    let fallback =
        "data: {\"id\":\"msg_fallback\",\"type\":\"message_start\"}\n\ndata: [DONE]\n\n";
    let mut world = World::new(vec![
        ("p1", vec![slow_body(200)]),
        ("p2", vec![sse(fallback)]),
    ]);
    let result = streaming(
        &mut world,
        vec![plain_provider("p1"), plain_provider("p2")],
        options(1, Duration::from_millis(50), false),
    )
    .expect("first chunk timeout should fail over");
    assert_eq!(result.provider.id, "p2");
    assert_eq!(live_bytes(result.response), fallback.as_bytes());
    assert_eq!(world.hits("p1"), 1);
    assert_eq!(world.hits("p2"), 1);
}

#[test]
fn streaming_first_chunk_error_fails_over() {
    let mut world = World::new(vec![
        (
            "p1",
            vec![Reply::Answer {
                delay: 0,
                status: 200,
                content_type: "text/event-stream",
                encoding: None,
                length: None,
                body: vec![Piece::Broken],
            }],
        ),
        ("p2", vec![sse("data: [DONE]\n\n")]),
    ]);
    let result = streaming(
        &mut world,
        vec![plain_provider("p1"), plain_provider("p2")],
        options(1, 2 * SECOND, false),
    )
    .expect("first chunk error should fail over");
    assert_eq!(result.provider.id, "p2");
    assert_eq!(world.hits("p1"), 1);
    assert_eq!(world.hits("p2"), 1);
}

#[test]
fn max_retries_does_not_retry_the_same_provider() {
    let mut world = World::new(vec![(
        "p1",
        vec![
            late_json(100, 200, r#"{"id": "first-attempt"}"#),
            json(200, r#"{"id": "second-attempt"}"#),
        ],
    )]);
    let failure = buffered(
        &mut world,
        vec![plain_provider("p1")],
        options(1, Duration::from_millis(50), true),
    )
    .expect_err("max_retries should only permit another provider attempt");
    assert_eq!(
        failure.error,
        ProxyError::Timeout("request timed out after 0s".to_string())
    );
    assert_eq!(world.hits("p1"), 1);
}

#[test]
fn buffered_connect_error_maps_to_forward_failed() {
    let mut world = World::new(vec![("p1", vec![Reply::NoConnection])]);
    let failure = buffered(
        &mut world,
        vec![plain_provider("p1")],
        options(2, SECOND, true),
    )
    .expect_err("connect failures should map to forward failed");
    assert_eq!(
        failure.error,
        ProxyError::ForwardFailed("connection failed: refused".to_string())
    );
}

const BAD_SIGNATURE: &str =
    r#"{"error": {"message": "messages.1.content.0: Invalid `signature` in `thinking` block"}}"#;

#[test]
fn buffered_rectifier_retry_shares_request_timeout_budget() {
    let mut world = World::new(vec![(
        "p1",
        vec![
            late_json(20, 400, BAD_SIGNATURE),
            late_json(40, 200, r#"{"id": "msg_123", "content": []}"#),
        ],
    )]);
    world.rectifies = true;
    let failure = buffered(
        &mut world,
        vec![plain_provider("p1")],
        options(0, Duration::from_millis(50), true),
    )
    .expect_err("rectifier retry should share a single buffered request timeout budget");
    assert!(
        matches!(failure.error, ProxyError::Timeout(message) if message.contains("request timed out"))
    );
    assert_eq!(world.hits("p1"), 2);
}

#[test]
fn a_request_is_set_right_once() {
    let mut world = World::new(vec![(
        "p1",
        vec![json(400, BAD_SIGNATURE), json(400, BAD_SIGNATURE)],
    )]);
    world.rectifies = true;
    let failure = buffered(
        &mut world,
        vec![plain_provider("p1"), plain_provider("p2")],
        options(1, SECOND, false),
    )
    .expect_err("a request that is still at fault is not sent to another provider");
    assert!(is_status(&failure.error, 400));
    assert_eq!(world.hits("p1"), 2);
    assert_eq!(world.reports, vec![("p1".to_string(), "release".to_string())]);
}

#[test]
fn streaming_transport_timeout_fails_over_without_same_provider_retry() {
    let mut world = World::new(vec![
        ("p1", vec![late_sse(100, "data: 1\n\n"), sse("data: 2\n\n")]),
        ("p2", vec![sse("data: 3\n\n")]),
    ]);
    let result = streaming(
        &mut world,
        vec![plain_provider("p1"), plain_provider("p2")],
        options(1, Duration::from_millis(50), true),
    )
    .expect("transport timeout should fail over to next provider");
    assert_eq!(result.provider.id, "p2");
    assert_eq!(result.response.status(), 200);
    assert_eq!(world.hits("p1"), 1);
    assert_eq!(world.hits("p2"), 1);
}

#[test]
fn claude_streaming_success_path_does_not_trigger_rectifier_retry() {
    let mut world = World::new(vec![("p1", vec![sse("data: [DONE]\n\n")])]);
    world.rectifies = true;
    let result = streaming(
        &mut world,
        vec![plain_provider("p1")],
        options(0, 2 * SECOND, true),
    )
    .expect("streaming success path should not use rectifier retry");
    assert_eq!(result.response.status(), 200);
    assert_eq!(world.hits("p1"), 1);
    assert!(world.reports.is_empty());
}

#[test]
fn without_a_time_limit_a_stream_is_handed_on_untouched() {
    let mut world = World::new(vec![("p1", vec![sse("data: 1\n\n")])]);
    let result = streaming(
        &mut world,
        vec![plain_provider("p1")],
        ForwardOptions {
            max_retries: 0,
            request_timeout: None,
            bypass_circuit_breaker: true,
        },
    )
    .expect("nothing is read");
    match result.response {
        StreamingResponse::Live(live) => {
            let (chunks, tail) = live.bytes_stream();
            assert!(chunks.is_empty());
            assert_eq!(tail.map(|rest| rest.len()), Some(1));
        }
        StreamingResponse::Buffered(_) => panic!("nothing should be read"),
    }
}

// ---------------------------------------------------------------------------
// Messages clients and the Responses protocol
// ---------------------------------------------------------------------------

fn failed_event(kind: &str, message: &str) -> String {
    format!(
        "event: response.failed\ndata: {{\"type\":\"response.failed\",\"response\":{{\"status\":\"failed\",\"error\":{{\"type\":\"{kind}\",\"message\":\"{message}\"}}}}}}\n\n"
    )
}

const DELTA: &str =
    "event: response.output_text.delta\ndata: {\"type\":\"response.output_text.delta\",\"delta\":\"ok\"}\n\n";

const COMPLETED: &str =
    "event: response.completed\ndata: {\"type\":\"response.completed\",\"response\":{\"status\":\"completed\"}}\n\n";

#[test]
fn responses_overload_before_output_retries_same_provider_then_succeeds() {
    let overloaded = failed_event("service_unavailable_error", "overloaded");
    let success = format!("{DELTA}{COMPLETED}");
    let mut world = World::new(vec![(
        "p1",
        vec![sse(&overloaded), sse(&overloaded), sse(&success)],
    )]);
    let started = world.now;
    let result = streaming(
        &mut world,
        vec![responses_provider("p1")],
        options(3, 10 * SECOND, true),
    )
    .expect("overload before output should be retried");
    let body = live_text(result.response);
    assert!(body.contains("response.output_text.delta"));
    assert!(!body.contains("service_unavailable_error"));
    assert_eq!(world.hits("p1"), 3);
    assert_eq!(world.now - started, 3_000 * MILLI);
}

#[test]
fn responses_overload_retry_budget_exhaustion_returns_503() {
    let overloaded = failed_event("service_unavailable_error", "overloaded");
    let mut world = World::new(vec![("p1", vec![sse(&overloaded), sse(&overloaded)])]);
    let failure = streaming(
        &mut world,
        vec![responses_provider("p1")],
        options(1, 5 * SECOND, true),
    )
    .expect_err("persistent overload should stop after the configured retry budget");
    match failure.error {
        ProxyError::UpstreamError { status, body } => {
            assert_eq!(status, 503);
            let body: Value = serde_json::from_str(&body.expect("error body")).expect("JSON");
            assert_eq!(body["type"], "error");
            assert_eq!(body["error"]["type"], "service_unavailable_error");
            assert_eq!(body["error"]["message"], "overloaded");
        }
        other => panic!("expected upstream 503, got {other:?}"),
    }
    assert_eq!(world.hits("p1"), 2);
}

#[test]
fn retries_are_never_more_than_three() {
    let overloaded = failed_event("service_unavailable_error", "overloaded");
    let mut world = World::new(vec![("p1", vec![sse(&overloaded); 9])]);
    let failure = streaming(
        &mut world,
        vec![responses_provider("p1")],
        options(9, 60 * SECOND, true),
    )
    .expect_err("persistent overload");
    assert!(is_status(&failure.error, 503));
    assert_eq!(world.hits("p1"), 4);
}

#[test]
fn responses_invalid_request_before_output_is_not_retried() {
    let invalid = failed_event("invalid_request_error", "bad input");
    let mut world = World::new(vec![("p1", vec![sse(&invalid)])]);
    let failure = streaming(
        &mut world,
        vec![responses_provider("p1")],
        options(3, 5 * SECOND, true),
    )
    .expect_err("invalid requests must not be replayed");
    assert!(is_status(&failure.error, 400));
    assert_eq!(world.hits("p1"), 1);
}

#[test]
fn responses_overload_retry_does_not_exceed_shared_timeout() {
    let overloaded = failed_event("overloaded_error", "busy");
    let mut world = World::new(vec![("p1", vec![sse(&overloaded)])]);
    let started = world.now;
    let failure = streaming(
        &mut world,
        vec![responses_provider("p1")],
        options(3, Duration::from_millis(200), true),
    )
    .expect_err("retry backoff must respect the original timeout budget");
    assert!(matches!(failure.error, ProxyError::Timeout(_)));
    assert_eq!(world.now, started);
    assert_eq!(world.hits("p1"), 1);
}

#[test]
fn responses_failure_after_first_output_is_not_replayed() {
    let partial = format!(
        "{DELTA}{}",
        failed_event("service_unavailable_error", "late failure")
    );
    let mut world = World::new(vec![("p1", vec![sse(&partial)])]);
    let result = streaming(
        &mut world,
        vec![responses_provider("p1")],
        options(3, 5 * SECOND, true),
    )
    .expect("the forwarder must commit once output has started");
    assert_eq!(live_text(result.response), partial);
    assert_eq!(world.hits("p1"), 1);
}

#[test]
fn buffered_responses_overload_sse_retries_same_provider_then_succeeds() {
    let overloaded = failed_event("service_unavailable_error", "busy");
    let success = format!("{DELTA}{COMPLETED}");
    let mut world = World::new(vec![("p1", vec![sse(&overloaded), sse(&success)])]);
    let result = buffered(
        &mut world,
        vec![responses_provider("p1")],
        options(1, 5 * SECOND, true),
    )
    .expect("buffered Responses overload should recover");
    assert_eq!(result.response.body, success.as_bytes());
    assert_eq!(world.hits("p1"), 2);
}

#[test]
fn buffered_responses_json_overload_retries_but_invalid_request_does_not() {
    let mut world = World::new(vec![
        (
            "retry",
            vec![
                json(200, r#"{"code": "server_error", "message": "busy"}"#),
                sse(COMPLETED),
            ],
        ),
        (
            "invalid",
            vec![json(
                200,
                r#"{"status": "failed", "error": {"type": "invalid_request_error", "message": "bad input"}}"#,
            )],
        ),
    ]);
    buffered(
        &mut world,
        vec![responses_provider("retry")],
        options(1, 5 * SECOND, true),
    )
    .expect("JSON server_error should retry");
    let failure = buffered(
        &mut world,
        vec![responses_provider("invalid")],
        options(1, 5 * SECOND, true),
    )
    .expect_err("JSON invalid_request_error must not retry");
    assert!(is_status(&failure.error, 400));
    assert_eq!(world.hits("retry"), 2);
    assert_eq!(world.hits("invalid"), 1);
}

#[test]
fn http_503_responses_overload_retries_for_streaming_and_buffered_requests() {
    let overload = r#"{"error": {"type": "overloaded_error", "message": "busy"}}"#;
    let mut world = World::new(vec![
        ("stream", vec![json(503, overload), sse(DELTA)]),
        (
            "buffered",
            vec![
                json(503, overload),
                json(200, r#"{"id": "resp_ok", "status": "completed", "output": []}"#),
            ],
        ),
    ]);
    streaming(
        &mut world,
        vec![responses_provider("stream")],
        options(1, 5 * SECOND, true),
    )
    .expect("streaming HTTP 503 overload should retry");
    buffered(
        &mut world,
        vec![responses_provider("buffered")],
        options(1, 5 * SECOND, true),
    )
    .expect("buffered HTTP 503 overload should retry");
    assert_eq!(world.hits("stream"), 2);
    assert_eq!(world.hits("buffered"), 2);
}

#[test]
fn top_level_responses_error_code_is_classified_and_retried() {
    let server_error = "event: error\ndata: {\"type\":\"error\",\"code\":\"server_error\",\"error\":{\"message\":\"busy\"}}\n\n";
    let mut world = World::new(vec![("p1", vec![sse(server_error), sse(DELTA)])]);
    streaming(
        &mut world,
        vec![responses_provider("p1")],
        options(1, 5 * SECOND, true),
    )
    .expect("top-level server_error should be retryable");
    assert_eq!(world.hits("p1"), 2);
}

#[test]
fn data_only_responses_error_code_is_classified_and_retried() {
    let server_error = "data: {\"code\":\"server_error\",\"message\":\"busy\"}\n\n";
    let mut world = World::new(vec![("p1", vec![sse(server_error), sse(DELTA)])]);
    streaming(
        &mut world,
        vec![responses_provider("p1")],
        options(1, 5 * SECOND, true),
    )
    .expect("data-only server_error should be retryable");
    assert_eq!(world.hits("p1"), 2);
}

#[test]
fn non_emitting_output_item_added_keeps_semantic_retry_available() {
    let message_then_failed = format!(
        "event: response.output_item.added\ndata: {{\"type\":\"response.output_item.added\",\"item\":{{\"type\":\"message\",\"id\":\"msg_1\"}}}}\n\n{}",
        failed_event("server_error", "busy")
    );
    let mut world = World::new(vec![("p1", vec![sse(&message_then_failed), sse(DELTA)])]);
    streaming(
        &mut world,
        vec![responses_provider("p1")],
        options(1, 5 * SECOND, true),
    )
    .expect("a non-emitting lifecycle item must not consume the retry opportunity");
    assert_eq!(world.hits("p1"), 2);
}

#[test]
fn responses_semantic_retry_budget_is_shared_across_provider_failover() {
    let overloaded = failed_event("overloaded_error", "busy");
    let mut world = World::new(vec![
        (
            "p1",
            vec![sse(&overloaded), sse(&overloaded), sse(&overloaded)],
        ),
        ("p2", vec![sse(&overloaded)]),
        ("p3", vec![sse(DELTA)]),
    ]);
    let result = streaming(
        &mut world,
        vec![
            responses_provider("p1"),
            responses_provider("p2"),
            responses_provider("p3"),
        ],
        options(2, 10 * SECOND, false),
    )
    .expect("failover should continue after the shared semantic retry budget is exhausted");
    assert_eq!(result.provider.id, "p3");
    assert_eq!(world.hits("p1"), 3);
    assert_eq!(world.hits("p2"), 1);
    assert_eq!(world.hits("p3"), 1);
}

// ---------------------------------------------------------------------------
// Web search
// ---------------------------------------------------------------------------

fn search(
    world: &mut World,
    options: ForwardOptions,
) -> Result<ForwardedResponse<StreamingResponse<Vec<Piece>>>, ForwardFailure> {
    forward_streaming(
        world,
        AppType::Claude,
        "/v1/messages",
        &search_request(),
        vec![responses_provider("p1")],
        options,
    )
}

#[test]
fn web_search_terminal_validation_rejects_single_chunk_above_hard_limit() {
    let oversized = format!(":{}\n{COMPLETED}", "x".repeat(4 * 1024 * 1024));
    let mut world = World::new(vec![("p1", vec![sse(&oversized)])]);
    let failure = search(&mut world, options(0, 5 * SECOND, true))
        .expect_err("a terminal event must not bypass the WebSearch pre-read hard limit");
    assert!(failure
        .error
        .message()
        .contains("Responses stream exceeded 4194304 bytes"));
    assert_eq!(world.hits("p1"), 1);
}

#[test]
fn web_search_terminal_validation_drops_unbounded_post_terminal_tail() {
    let parts = vec![COMPLETED.as_bytes().to_vec(), vec![b'x'; 5 * 1024 * 1024]];
    let mut world = World::new(vec![("p1", vec![chunks(0, parts)])]);
    let result = search(&mut world, options(0, 5 * SECOND, true))
        .expect("terminal WebSearch prefix should be accepted");
    assert_eq!(live_text(result.response), COMPLETED);
    assert_eq!(world.hits("p1"), 1);
}

#[test]
fn web_search_overload_before_terminal_is_retried_before_client_commit() {
    let done = "event: response.output_item.done\ndata: {\"type\":\"response.output_item.done\",\"output_index\":0,\"item\":{\"type\":\"web_search_call\",\"id\":\"ws_1\",\"status\":\"completed\"}}\n\n";
    let failed = format!(
        "{done}{}",
        failed_event("service_unavailable_error", "busy")
    );
    let success = format!("{done}{COMPLETED}");
    let mut world = World::new(vec![("p1", vec![sse(&failed), sse(&success)])]);
    search(&mut world, options(1, 5 * SECOND, true))
        .expect("WebSearch overload before terminal should recover before client commit");
    assert_eq!(world.hits("p1"), 2);
}

#[test]
fn web_search_streams_may_take_longer_than_the_first_byte_limit() {
    let body = vec![
        Piece::Bytes(0, DELTA.as_bytes().to_vec()),
        Piece::Bytes(20_000, COMPLETED.as_bytes().to_vec()),
    ];
    let reply = Reply::Answer {
        delay: 0,
        status: 200,
        content_type: "text/event-stream",
        encoding: None,
        length: None,
        body,
    };
    let mut world = World::new(vec![("p1", vec![reply.clone()])]);
    search(&mut world, options(0, 5 * SECOND, true)).expect("the end comes in time");

    let slow = match reply {
        Reply::Answer { body, .. } => {
            let mut body = body;
            body[1] = Piece::Bytes(700_000, COMPLETED.as_bytes().to_vec());
            Reply::Answer {
                delay: 0,
                status: 200,
                content_type: "text/event-stream",
                encoding: None,
                length: None,
                body,
            }
        }
        Reply::NoConnection => unreachable!("an answer"),
    };
    let mut world = World::new(vec![("p1", vec![slow])]);
    let failure = search(&mut world, options(0, 5 * SECOND, true)).expect_err("no end in time");
    assert_eq!(
        failure.error,
        ProxyError::Timeout("Responses terminal validation timed out after 600s".to_string())
    );
}

// ---------------------------------------------------------------------------
// Providers
// ---------------------------------------------------------------------------

#[test]
fn no_provider_is_an_error_of_its_own() {
    let mut world = World::new(Vec::new());
    let failure = buffered(&mut world, Vec::new(), options(0, SECOND, false)).expect_err("none");
    assert_eq!(failure.error, ProxyError::NoAvailableProvider);
    assert!(failure.provider.is_none());

    world.refused = vec!["p1".to_string()];
    let failure = buffered(
        &mut world,
        vec![plain_provider("p1")],
        options(0, SECOND, false),
    )
    .expect_err("none allowed");
    assert_eq!(failure.error, ProxyError::NoAvailableProvider);
    assert_eq!(world.hits("p1"), 0);
}

#[test]
fn refused_providers_do_not_count_as_attempts() {
    let mut world = World::new(vec![("p2", vec![json(200, "{}")])]);
    world.refused = vec!["p1".to_string()];
    let result = buffered(
        &mut world,
        vec![plain_provider("p1"), plain_provider("p2")],
        options(0, SECOND, false),
    )
    .expect("the second provider is asked");
    assert_eq!(result.provider.id, "p2");
}

#[test]
fn no_more_providers_are_asked_than_allowed() {
    let mut world = World::new(vec![
        ("p1", vec![json(500, "{}")]),
        ("p2", vec![json(500, "{}")]),
        ("p3", vec![json(200, "{}")]),
    ]);
    let failure = buffered(
        &mut world,
        vec![
            plain_provider("p1"),
            plain_provider("p2"),
            plain_provider("p3"),
        ],
        options(1, SECOND, false),
    )
    .expect_err("two attempts");
    assert!(is_status(&failure.error, 500));
    assert_eq!(failure.provider.map(|provider| provider.id), Some("p2".to_string()));
    assert_eq!(world.hits("p3"), 0);
}

#[test]
fn the_last_response_stands_where_it_is_changed_for_the_client() {
    let mut world = World::new(vec![
        ("p1", vec![json(500, "one")]),
        ("p2", vec![json(502, "two")]),
    ]);
    let result = buffered(
        &mut world,
        vec![responses_provider("p1"), responses_provider("p2")],
        options(1, SECOND, false),
    )
    .expect("the last response stands");
    assert_eq!(result.provider.id, "p2");
    assert_eq!(result.response.status, 502);
    assert_eq!(result.response.body, b"two");
    assert_eq!(
        world.reports,
        vec![
            ("p1".to_string(), "upstream returned 500".to_string()),
            ("p2".to_string(), "upstream returned 502".to_string()),
        ]
    );
}

#[test]
fn a_later_failure_takes_the_place_of_an_earlier_response() {
    let mut world = World::new(vec![
        ("p1", vec![json(500, "one")]),
        ("p2", vec![Reply::NoConnection]),
    ]);
    let failure = buffered(
        &mut world,
        vec![responses_provider("p1"), responses_provider("p2")],
        options(1, SECOND, false),
    )
    .expect_err("the second provider failed");
    assert_eq!(
        failure.error,
        ProxyError::ForwardFailed("connection failed: refused".to_string())
    );
}

#[test]
fn the_official_provider_is_not_blamed_for_a_login() {
    let official = || Provider {
        is_codex_official: true,
        ..plain_provider("p1")
    };
    let mut world = World::new(vec![("p1", vec![json(401, "{}")])]);
    let result = forward_buffered(
        &mut world,
        AppType::Codex,
        "/v1/chat",
        &codex_request(),
        vec![official(), plain_provider("p2")],
        options(1, SECOND, false),
    )
    .expect("the answer is the client's");
    assert_eq!(result.response.status, 401);
    assert_eq!(world.reports, vec![("p1".to_string(), "release".to_string())]);

    let mut world = World::new(vec![
        ("p1", vec![json(401, "{}")]),
        ("p2", vec![json(200, "{}")]),
    ]);
    let result = forward_buffered(
        &mut world,
        AppType::Codex,
        "/v1/chat",
        &codex_request(),
        vec![plain_provider("p1"), plain_provider("p2")],
        options(1, SECOND, false),
    )
    .expect("another provider answers");
    assert_eq!(result.provider.id, "p2");
}
