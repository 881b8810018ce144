//! Hosted web search: requests, history, citations, and streamed responses.
use responses_bridge::citations::unicode_scalar_boundaries;
use responses_bridge::error::ProxyError;
use responses_bridge::json::Json;
use responses_bridge::json_codec::{from_value, to_value};
use responses_bridge::web_search_bridge;
use responses_bridge::web_search_bridge::{
    result_digest, WebSearchRequestPolicy, RESULT_DIGEST_PREFIX,
};
use responses_bridge::web_search_stream::{BufferedAnthropicStream, WebSearchBufferedResponse};
use serde_json::Value;

fn value(text: &str) -> Value {
    serde_json::from_str(text).expect("JSON text")
}

fn policy(max_uses: u64) -> WebSearchRequestPolicy {
    WebSearchRequestPolicy {
        max_uses: Some(max_uses),
    }
}

fn policy_of(request: &Value) -> Result<Option<WebSearchRequestPolicy>, ProxyError> {
    WebSearchRequestPolicy::from_anthropic_request(&from_value(request.clone()))
}

fn map_anthropic_web_search_tool(tool: &Value) -> Result<Value, ProxyError> {
    web_search_bridge::map_anthropic_web_search_tool(&from_value(tool.clone()))
        .map(|mapped| to_value(&mapped))
}

fn fold_anthropic_web_search_history(
    blocks: &[Value],
    index: usize,
) -> Result<Option<(Value, usize)>, ProxyError> {
    let blocks: Vec<Json> = blocks.iter().cloned().map(from_value).collect();
    web_search_bridge::fold_anthropic_web_search_history(&blocks, index)
        .map(|found| found.map(|(item, next)| (to_value(&item), next)))
}

fn render_anthropic_citation(annotation: &Value, text: &str) -> Result<Option<Value>, ProxyError> {
    let scalars: Vec<char> = text.chars().collect();
    web_search_bridge::render_anthropic_citation(&from_value(annotation.clone()), &scalars)
        .map(|citation| citation.map(|citation| to_value(&citation)))
}

/// The result of a search, with its mark.
fn search_result(digest: &str) -> Value {
    let mut block = value(
        r#"{
            "type":"web_search_tool_result","tool_use_id":"ws_1",
            "content":[{
                "type":"web_search_result","url":"https://example.com",
                "title":"Example"
            }]
        }"#,
    );
    block["content"][0]["encrypted_content"] = Value::String(digest.to_string());
    block
}

/// What the client is sent of a stream that comes in one piece, and what went
/// wrong.
fn collect_buffered(input: &str, policy: &WebSearchRequestPolicy) -> (String, Option<String>) {
    let mut stream = BufferedAnthropicStream::new();
    stream.feed(input.as_bytes());
    let end = stream.finish(policy);
    (end.events.concat(), end.failure)
}

fn anthropic_payloads(output: &str) -> Vec<Value> {
    output
        .lines()
        .filter_map(|line| line.strip_prefix("data: "))
        .filter_map(|data| serde_json::from_str(data).ok())
        .collect()
}

#[test]
fn request_mapping_preserves_supported_fields_and_omits_max_tool_calls() {
    let request = value(
        r#"{
            "tools": [{
                "type": "web_search_20250305",
                "name": "web_search",
                "allowed_domains": ["example.com"],
                "blocked_domains": [],
                "max_uses": 2,
                "user_location": {"type": "approximate", "country": "CN"}
            }]
        }"#,
    );
    let policy = policy_of(&request)
        .unwrap()
        .unwrap();
    assert!(policy.permits_search_count(2));
    assert!(!policy.permits_search_count(3));
    assert_eq!(
        map_anthropic_web_search_tool(&request["tools"][0]).unwrap(),
        value(
            r#"{
                "type": "web_search",
                "filters": {"allowed_domains": ["example.com"]},
                "user_location": {"type": "approximate", "country": "CN"}
            }"#,
        )
    );
}

#[test]
fn request_mapping_rejects_unknown_version_and_blocked_domains() {
    for tool in [
        value(r#"{"type":"web_search_20990101","name":"web_search"}"#),
        value(
            r#"{
                "type":"web_search_20250305","name":"web_search",
                "blocked_domains":["example.com"]
            }"#,
        ),
        value(
            r#"{
                "type":"web_search_20250305","name":"web_search",
                "blocked_domains":"example.com"
            }"#,
        ),
        value(
            r#"{
                "type":"web_search_20250305","name":"web_search",
                "future_restrictive_field": true
            }"#,
        ),
    ] {
        assert!(map_anthropic_web_search_tool(&tool).is_err());
    }
}

#[test]
fn canonical_history_pair_folds_without_titles_or_encrypted_payload() {
    let blocks = vec![
        value(
            r#"{
                "type":"server_tool_use","id":"ws_1","name":"web_search",
                "input":{"query":"rust"}
            }"#,
        ),
        search_result(&result_digest("ws_1", 0, "https://example.com")),
    ];
    let (item, next) = fold_anthropic_web_search_history(&blocks, 0)
        .unwrap()
        .unwrap();
    assert_eq!(next, 2);
    assert_eq!(
        item,
        value(
            r#"{
                "type":"web_search_call","id":"ws_1","status":"completed",
                "action":{
                    "type":"search","query":"rust",
                    "sources":[{"type":"url","url":"https://example.com"}]
                }
            }"#,
        )
    );

    let mut tampered = blocks;
    tampered[1]["content"][0]["url"] = value(r#""https://example.com/tampered""#);
    assert!(fold_anthropic_web_search_history(&tampered, 0).is_err());
}

#[test]
fn unicode_citation_uses_scalar_offsets_and_exact_slice() {
    let text = "A😊中B";
    let citation = render_anthropic_citation(
        &value(
            r#"{
                "type":"url_citation","url":"https://example.com","title":"Example",
                "start_index":1,"end_index":3
            }"#,
        ),
        text,
    )
    .unwrap()
    .unwrap();
    assert_eq!(citation["cited_text"], "😊中");
    assert_eq!(citation["encrypted_index"], "ccs-cit1:1:3");
}

#[test]
fn result_digest_is_stable_and_contains_no_source_payload() {
    let digest = result_digest("ws_1", 0, "https://example.com");
    assert_eq!(digest, result_digest("ws_1", 0, "https://example.com"));
    assert_eq!(digest.len(), RESULT_DIGEST_PREFIX.len() + 64);
    assert!(digest
        .strip_prefix(RESULT_DIGEST_PREFIX)
        .unwrap()
        .bytes()
        .all(|byte| byte.is_ascii_digit() || (b'a'..=b'f').contains(&byte)));
    assert!(!digest.contains("example.com"));
}

#[test]
fn ordinary_request_does_not_enable_buffered_mode() {
    let request = value(
        r#"{
            "tools": [
                {"name":"Bash","input_schema":{"type":"object"}},
                {"name":"web_search","input_schema":{"type":"object"}}
            ]
        }"#,
    );
    assert_eq!(
        policy_of(&request).unwrap(),
        None
    );
}

#[test]
fn completed_response_with_error_is_rejected() {
    let mut accumulator = WebSearchBufferedResponse::new();
    let error = accumulator
        .ingest_responses_event(
            "response.completed",
            &from_value(value(
                r#"{
                    "response": {
                        "status": "completed",
                        "output": [],
                        "error": {"type": "server_error"}
                    }
                }"#,
            )),
        )
        .unwrap_err();
    assert!(error.contains("non-null error"));
}

#[test]
fn scalar_boundaries_are_byte_offsets() {
    assert_eq!(unicode_scalar_boundaries("A😊中B"), vec![0, 1, 5, 8, 9]);
    assert_eq!(unicode_scalar_boundaries(""), vec![0]);
}

#[test]
fn buffered_mode_renders_search_open_find_late_title_and_unicode_citation() {
    let input = [
        "event: response.output_item.done\n",
        "data: {\"type\":\"response.output_item.done\",\"output_index\":1,\"item\":{\"id\":\"ws_search\",\"type\":\"web_search_call\",\"status\":\"completed\",\"action\":{\"type\":\"search\",\"query\":\"rust\",\"sources\":[{\"type\":\"url\",\"url\":\"https://example.com\"}]}}}\n\n",
        "event: response.output_item.done\n",
        "data: {\"type\":\"response.output_item.done\",\"output_index\":3,\"item\":{\"id\":\"ws_open\",\"type\":\"web_search_call\",\"status\":\"completed\",\"action\":{\"type\":\"open_page\",\"url\":\"https://example.com\"}}}\n\n",
        "event: response.output_item.done\n",
        "data: {\"type\":\"response.output_item.done\",\"output_index\":5,\"item\":{\"id\":\"ws_find\",\"type\":\"web_search_call\",\"status\":\"completed\",\"action\":{\"type\":\"find_in_page\",\"url\":\"https://example.com\",\"pattern\":\"Rust\"}}}\n\n",
        "event: response.output_item.done\n",
        "data: {\"type\":\"response.output_item.done\",\"output_index\":6,\"item\":{\"id\":\"msg_1\",\"type\":\"message\",\"status\":\"completed\",\"role\":\"assistant\",\"content\":[{\"type\":\"output_text\",\"text\":\"A😊中B\",\"annotations\":[{\"type\":\"url_citation\",\"url\":\"https://example.com\",\"title\":\"Late title\",\"start_index\":1,\"end_index\":3}]}]}}\n\n",
        "event: response.completed\n",
        "data: {\"type\":\"response.completed\",\"response\":{\"id\":\"resp_1\",\"model\":\"gpt-5.6-sol\",\"status\":\"completed\",\"output\":[],\"usage\":{\"input_tokens\":9,\"output_tokens\":4}}}\n\n",
    ]
    .concat();
    let (output, failure) = collect_buffered(&input, &policy(1));
    let payloads = anthropic_payloads(&output);
    let starts = payloads
        .iter()
        .filter_map(|payload| {
            payload
                .pointer("/content_block/type")
                .and_then(Value::as_str)
        })
        .collect::<Vec<_>>();
    assert_eq!(
        starts,
        vec![
            "server_tool_use",
            "web_search_tool_result",
            "server_tool_use",
            "web_search_tool_result",
            "server_tool_use",
            "web_search_tool_result",
            "text"
        ]
    );
    let first_result = payloads
        .iter()
        .find(|payload| {
            payload
                .pointer("/content_block/tool_use_id")
                .and_then(Value::as_str)
                == Some("ws_search")
        })
        .unwrap();
    assert_eq!(
        first_result["content_block"]["content"][0]["title"],
        "Late title"
    );
    let citation = payloads
        .iter()
        .find_map(|payload| payload.pointer("/delta/citation"))
        .unwrap();
    assert_eq!(citation["cited_text"], "😊中");
    let terminal = payloads
        .iter()
        .find(|payload| payload.get("type").and_then(Value::as_str) == Some("message_delta"))
        .unwrap();
    assert_eq!(terminal["delta"]["stop_reason"], "end_turn");
    assert_eq!(
        terminal["usage"]["server_tool_use"]["web_search_requests"],
        1
    );
    assert_eq!(failure, None);
}

#[test]
fn missing_search_sources_renders_an_empty_result_array() {
    let input = [
        "event: response.output_item.done\n",
        "data: {\"output_index\":0,\"item\":{\"id\":\"ws_empty\",\"type\":\"web_search_call\",\"status\":\"completed\",\"action\":{\"type\":\"search\",\"query\":\"nothing\"}}}\n\n",
        "event: response.completed\n",
        "data: {\"response\":{\"id\":\"resp_empty\",\"model\":\"gpt-5.6-sol\",\"status\":\"completed\",\"output\":[]}}\n\n",
    ]
    .concat();
    let (output, failure) = collect_buffered(&input, &policy(1));
    let result = anthropic_payloads(&output)
        .into_iter()
        .find(|payload| {
            payload
                .pointer("/content_block/type")
                .and_then(Value::as_str)
                == Some("web_search_tool_result")
        })
        .unwrap();
    assert_eq!(result["content_block"]["content"], value("[]"));
    assert_eq!(failure, None);
}

#[test]
fn max_uses_excess_fails_the_buffered_response() {
    let search = |index: u64| {
        format!(
            "event: response.output_item.done\ndata: {{\"output_index\":{index},\"item\":{{\"id\":\"ws_{index}\",\"type\":\"web_search_call\",\"status\":\"completed\",\"action\":{{\"type\":\"search\",\"query\":\"q{index}\",\"sources\":[]}}}}}}\n\n"
        )
    };
    let input = format!(
        "{}{}event: response.completed\ndata: {{\"response\":{{\"status\":\"completed\",\"output\":[]}}}}\n\n",
        search(0),
        search(1)
    );
    let (output, failure) = collect_buffered(&input, &policy(1));
    assert!(output.contains("WebSearch max_uses exceeded"));
    assert!(failure.is_some());
    assert!(!output.contains("content_block_start"));
}
