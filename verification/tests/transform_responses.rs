//! Requests of the Messages protocol as requests of the Responses protocol, and
//! responses the other way round.
use responses_bridge::citations;
use responses_bridge::error::ProxyError;
use responses_bridge::json::Json;
use responses_bridge::json_codec::{from_value, to_value};
use responses_bridge::reasoning::RESPONSES_PROXY_THINKING_SIGNATURE;
use responses_bridge::tool_results::TOOL_RESULT_ERROR_MARKER;
use responses_bridge::transform_responses;
use responses_bridge::web_search_bridge;
use responses_bridge::web_search_bridge::{Titles, WEB_SEARCH_SOURCES_INCLUDE};
use serde_json::Value;

fn value(text: &str) -> Value {
    serde_json::from_str(text).expect("JSON text")
}

fn anthropic_to_responses(
    body: Value,
    cache_key: Option<&str>,
    is_codex_oauth: bool,
    codex_fast_mode: bool,
) -> Result<Value, ProxyError> {
    transform_responses::anthropic_to_responses(
        from_value(body),
        cache_key,
        is_codex_oauth,
        codex_fast_mode,
    )
    .map(|result| to_value(&result))
}

fn responses_to_anthropic(body: Value) -> Result<Value, ProxyError> {
    transform_responses::responses_to_anthropic(from_value(body)).map(|result| to_value(&result))
}

fn responses_to_anthropic_web_search(body: Value) -> Result<Value, ProxyError> {
    transform_responses::responses_to_anthropic_web_search(from_value(body))
        .map(|result| to_value(&result))
}

fn build_anthropic_usage_from_responses(usage: Option<&Value>) -> Value {
    let usage = usage.map(|usage| from_value(usage.clone()));
    to_value(&transform_responses::build_anthropic_usage_from_responses(
        usage.as_ref(),
    ))
}

fn responses_annotations_from_anthropic_text(block: &Value, text: &str) -> Vec<Value> {
    citations::responses_annotations_from_anthropic_text(&from_value(block.clone()), text)
        .iter()
        .map(to_value)
        .collect()
}

fn citation_titles_by_exact_url(output: &[Value]) -> Titles {
    let items: Vec<Json> = output.iter().cloned().map(from_value).collect();
    web_search_bridge::citation_titles_by_exact_url(&items)
}

fn render_anthropic_web_search_blocks(
    item: &Value,
    titles: &Titles,
) -> Result<(Value, Value), ProxyError> {
    web_search_bridge::render_anthropic_web_search_blocks(&from_value(item.clone()), titles)
        .map(|(server, result)| (to_value(&server), to_value(&result)))
}

/// A search that completed.
fn completed_search(id: &str, action: &Value) -> Value {
    let mut item = value(r#"{"type": "web_search_call", "status": "completed"}"#);
    item["id"] = Value::String(id.to_string());
    item["action"] = action.clone();
    item
}

/// A request with a hosted search in which the assistant has said `content`.
fn replayed(content: &Value) -> Value {
    let mut request = value(
        r#"{
            "model": "gpt-5.6-sol",
            "messages": [{"role": "assistant"}],
            "tools": [{"type": "web_search_20250305", "name": "web_search"}]
        }"#,
    );
    request["messages"][0]["content"] = content.clone();
    request
}

#[test]
fn anthropic_to_responses_removes_billing_header_from_system_string() {
    let input = value(
        r#"{
            "model": "gpt-5",
            "system": "x-anthropic-billing-header: cc_version=2.1.120.cf9; cc_entrypoint=cli; cch=543cf;\nYou are helpful.",
            "messages": [{"role": "user", "content": "Hello"}]
        }"#,
    );

    let result =
        anthropic_to_responses(input, None, false, false).expect("transform responses");

    assert_eq!(result["instructions"], value(r#""You are helpful.""#));
}

#[test]
fn anthropic_to_responses_removes_billing_header_from_system_array() {
    let input = value(
        r#"{
            "model": "gpt-5",
            "system": [{
                "type": "text",
                "text": "x-anthropic-billing-header: cc_version=2.1.120.cf9; cc_entrypoint=cli; cch=543cf;\nProject instructions"
            }],
            "messages": [{"role": "user", "content": "Hello"}]
        }"#,
    );

    let result =
        anthropic_to_responses(input, None, false, false).expect("transform responses");

    assert_eq!(result["instructions"], value(r#""Project instructions""#));
}

#[test]
fn anthropic_to_responses_omits_empty_billing_header_system_block() {
    let input = value(
        r#"{
            "model": "gpt-5",
            "system": [{
                "type": "text",
                "text": "x-anthropic-billing-header: cc_version=2.1.120.cf9; cc_entrypoint=cli; cch=543cf;"
            }],
            "messages": [{"role": "user", "content": "Hello"}]
        }"#,
    );

    let result =
        anthropic_to_responses(input, None, false, false).expect("transform responses");

    assert!(result.get("instructions").is_none());
}

#[test]
fn anthropic_to_responses_keeps_non_leading_billing_header_text() {
    let input = value(
        r#"{
            "model": "gpt-5",
            "system": "Keep this literal:\nx-anthropic-billing-header: example",
            "messages": [{"role": "user", "content": "Hello"}]
        }"#,
    );

    let result =
        anthropic_to_responses(input, None, false, false).expect("transform responses");

    assert_eq!(
        result["instructions"],
        value(r#""Keep this literal:\nx-anthropic-billing-header: example""#)
    );
}

#[test]
fn anthropic_to_responses_codex_oauth_sets_required_contract_fields() {
    let input = value(
        r#"{
            "model": "gpt-5-codex",
            "max_tokens": 1024,
            "messages": [{"role": "user", "content": "Hello"}]
        }"#,
    );

    let result = anthropic_to_responses(input, None, true, true).expect("transform responses");

    assert_eq!(result["store"], value(r#"false"#));
    assert_eq!(result["service_tier"], value(r#""priority""#));
    assert_eq!(result["include"], value(r#"["reasoning.encrypted_content"]"#));
    assert_eq!(result["instructions"], value(r#""""#));
    assert_eq!(result["tools"], value(r#"[]"#));
    assert_eq!(result["parallel_tool_calls"], value(r#"false"#));
    assert_eq!(result["stream"], value(r#"true"#));
}

#[test]
fn anthropic_to_responses_codex_oauth_strips_unsupported_fields() {
    let input = value(
        r#"{
            "model": "gpt-5-codex",
            "max_tokens": 1024,
            "temperature": 0.7,
            "top_p": 0.9,
            "messages": [{"role": "user", "content": "Hello"}]
        }"#,
    );

    let result = anthropic_to_responses(input, None, true, true).expect("transform responses");

    assert!(result.get("max_output_tokens").is_none());
    assert!(result.get("temperature").is_none());
    assert!(result.get("top_p").is_none());
}

#[test]
fn anthropic_to_responses_non_codex_keeps_openai_fields() {
    let input = value(
        r#"{
            "model": "gpt-5-codex",
            "max_tokens": 1024,
            "temperature": 0.7,
            "top_p": 0.9,
            "messages": [{"role": "user", "content": "Hello"}]
        }"#,
    );

    let result =
        anthropic_to_responses(input, None, false, false).expect("transform responses");

    assert_eq!(result["max_output_tokens"], value(r#"1024"#));
    assert_eq!(result["temperature"], value(r#"0.7"#));
    assert_eq!(result["top_p"], value(r#"0.9"#));
    assert_eq!(result["stream"], value(r#"true"#));
    assert!(result.get("store").is_none());
    assert!(result.get("service_tier").is_none());
}

#[test]
fn anthropic_to_responses_tool_result_preserves_blocks_and_error() {
    let input = value(
        r#"{
            "model":"gpt-5",
            "messages":[{"role":"user","content":[{
                "type":"tool_result",
                "tool_use_id":"call_1",
                "is_error":true,
                "content":[
                    {"type":"text","text":"command failed"},
                    {"type":"image","source":{"type":"url","url":"https://example.com/error.png"}},
                    {"type":"document","title":"trace.pdf","source":{"type":"base64","media_type":"application/pdf","data":"JVBERi0="}}
                ]
            }]}]
        }"#,
    );

    let result = anthropic_to_responses(input.clone(), None, false, false).unwrap();
    let output = result["input"][0]["output"].as_array().unwrap();

    assert_eq!(output[0]["text"], TOOL_RESULT_ERROR_MARKER);
    assert_eq!(
        output[1],
        value(r#"{"type":"input_text","text":"command failed"}"#)
    );
    assert_eq!(output[2]["image_url"], "https://example.com/error.png");
    assert_eq!(output[3]["type"], "input_file");
    assert_eq!(output[3]["filename"], "trace.pdf");
}

#[test]
fn anthropic_to_responses_url_image_and_document() {
    let input = value(
        r#"{
            "model":"gpt-5",
            "messages":[{"role":"user","content":[
                {"type":"image","source":{"type":"url","url":"https://example.com/a.png"}},
                {"type":"document","title":"manual.pdf","source":{"type":"url","url":"https://example.com/manual.pdf"}}
            ]}]
        }"#,
    );

    let result = anthropic_to_responses(input.clone(), None, false, false).unwrap();
    let content = result["input"][0]["content"].as_array().unwrap();

    assert_eq!(content[0]["type"], "input_image");
    assert_eq!(content[0]["image_url"], "https://example.com/a.png");
    assert_eq!(content[1]["type"], "input_file");
    assert_eq!(content[1]["file_url"], "https://example.com/manual.pdf");
    assert_eq!(content[1]["filename"], "manual.pdf");
}

#[test]
fn anthropic_to_responses_converts_mcp_tool_image() {
    let input = value(
        r#"{
            "model":"gpt-5",
            "messages":[{"role":"user","content":[{
                "type":"tool_result",
                "tool_use_id":"call_1",
                "content":[{
                    "type":"image",
                    "mimeType":"image/webp",
                    "data":"MCP_RESPONSES_IMAGE_SENTINEL"
                }]
            }]}]
        }"#,
    );

    let result = anthropic_to_responses(input, None, false, false).unwrap();
    let output = result["input"][0]["output"].as_array().unwrap();

    assert_eq!(output[0]["type"], "input_text");
    assert!(!output[0]["text"]
        .as_str()
        .unwrap()
        .contains("MCP_RESPONSES_IMAGE_SENTINEL"));
    assert_eq!(output[1]["type"], "input_image");
    assert_eq!(
        output[1]["image_url"],
        "data:image/webp;base64,MCP_RESPONSES_IMAGE_SENTINEL"
    );
}

#[test]
fn anthropic_to_responses_converts_json_string_tool_image() {
    let residual_base64 = "A".repeat(20_000);
    let encoded = format!(
        "{{\"content\":[{{\"type\":\"image_url\",\"image_url\":{{\"url\":\"data:image/png;base64,STRING_RESPONSES_SENTINEL\"}}}},{{\"type\":\"video\",\"data\":\"{residual_base64}\"}}]}}"
    );
    let mut input = value(
        r#"{
            "model":"gpt-5",
            "messages":[{"role":"user","content":[{
                "type":"tool_result",
                "tool_use_id":"call_1"
            }]}]
        }"#,
    );
    input["messages"][0]["content"][0]["content"] = Value::String(encoded);

    let result = anthropic_to_responses(input, None, false, false).unwrap();
    let output = result["input"][0]["output"].as_array().unwrap();
    let image = output
        .iter()
        .find(|part| part["type"] == "input_image")
        .expect("stringified image must stay a Responses image");

    assert_eq!(
        image["image_url"],
        "data:image/png;base64,STRING_RESPONSES_SENTINEL"
    );
    assert!(output
        .iter()
        .filter_map(|part| part.get("text").and_then(Value::as_str))
        .all(|text| !text.contains("STRING_RESPONSES_SENTINEL")));
    let serialized = result.to_string();
    assert!(serialized.contains("[cc-switch: omitted 20000 bytes]"));
    assert!(!serialized.contains(&"A".repeat(64)));
}

#[test]
fn anthropic_to_responses_maps_reasoning_effort_for_gpt5_models() {
    let input = value(
        r#"{
            "model": "gpt-5.4",
            "max_tokens": 1024,
            "thinking": {"type": "adaptive"},
            "messages": [{"role": "user", "content": "Hello"}]
        }"#,
    );

    let result =
        anthropic_to_responses(input, None, false, false).expect("transform responses");

    assert_eq!(result["reasoning"]["effort"], value(r#""xhigh""#));
    assert!(result.get("include").is_none());
}

#[test]
fn anthropic_to_responses_codex_oauth_fast_mode_can_be_disabled() {
    let input = value(
        r#"{
            "model": "gpt-5-codex",
            "max_tokens": 1024,
            "messages": [{"role": "user", "content": "Hello"}]
        }"#,
    );

    let result = anthropic_to_responses(input, None, true, false).expect("transform responses");

    assert_eq!(result["store"], value(r#"false"#));
    assert_eq!(result["include"], value(r#"["reasoning.encrypted_content"]"#));
    assert!(result.get("service_tier").is_none());
}

#[test]
fn responses_to_anthropic_read_tool_drops_empty_pages() {
    let input = value(
        r#"{
            "id": "resp_read",
            "status": "completed",
            "model": "gpt-5.4",
            "output": [{
                "type": "function_call",
                "call_id": "call_read",
                "name": "Read",
                "arguments": "{\"file_path\":\"/tmp/demo.py\",\"limit\":2000,\"offset\":0,\"pages\":\"\"}"
            }]
        }"#,
    );

    let result = responses_to_anthropic(input).expect("transform responses");

    assert_eq!(result["content"][0]["type"], "tool_use");
    assert_eq!(result["content"][0]["name"], "Read");
    assert!(result["content"][0]["input"].get("pages").is_none());
}

#[test]
fn responses_to_anthropic_read_tool_preserves_whitespace_pages() {
    let input = value(
        r#"{
            "id": "resp_read",
            "status": "completed",
            "model": "gpt-5.4",
            "output": [{
                "type": "function_call",
                "call_id": "call_read",
                "name": "Read",
                "arguments": "{\"file_path\":\"/tmp/demo.py\",\"pages\":\" \"}"
            }]
        }"#,
    );

    let result = responses_to_anthropic(input).expect("transform responses");

    assert_eq!(
        result["content"][0]["input"],
        value(r#"{"file_path": "/tmp/demo.py", "pages": " "}"#)
    );
}

#[test]
fn responses_to_anthropic_read_tool_preserves_non_empty_pages() {
    let input = value(
        r#"{
            "id": "resp_read",
            "status": "completed",
            "model": "gpt-5.4",
            "output": [{
                "type": "function_call",
                "call_id": "call_read",
                "name": "Read",
                "arguments": "{\"file_path\":\"/tmp/example.pdf\",\"pages\":\"1-3\"}"
            }]
        }"#,
    );

    let result = responses_to_anthropic(input).expect("transform responses");

    assert_eq!(
        result["content"][0]["input"],
        value(r#"{"file_path": "/tmp/example.pdf", "pages": "1-3"}"#)
    );
}

#[test]
fn responses_to_anthropic_does_not_sanitize_non_read_tool_pages() {
    let input = value(
        r#"{
            "id": "resp_1",
            "status": "completed",
            "model": "gpt-5.4",
            "output": [{
                "type": "function_call",
                "call_id": "call_other",
                "name": "OtherTool",
                "arguments": "{\"pages\":\"\"}"
            }]
        }"#,
    );

    let result = responses_to_anthropic(input).expect("transform responses");

    assert_eq!(result["content"][0]["input"], value(r#"{"pages": ""}"#));
}

#[test]
fn responses_usage_uses_openai_field_name_fallbacks() {
    let result = build_anthropic_usage_from_responses(Some(&value(
        r#"{
            "prompt_tokens": 120,
            "completion_tokens": 45
        }"#,
    )));

    assert_eq!(result["input_tokens"], value(r#"120"#));
    assert_eq!(result["output_tokens"], value(r#"45"#));
}

#[test]
fn responses_usage_prefers_anthropic_field_names() {
    let result = build_anthropic_usage_from_responses(Some(&value(
        r#"{
            "input_tokens": 100,
            "prompt_tokens": 120,
            "output_tokens": 50,
            "completion_tokens": 45
        }"#,
    )));

    assert_eq!(result["input_tokens"], value(r#"100"#));
    assert_eq!(result["output_tokens"], value(r#"50"#));
}

#[test]
fn responses_usage_subtracts_cache_from_input() {
    // input_tokens is cache-inclusive on the wire; Anthropic input_tokens must be
    // fresh input (this path is billed by the Messages API, which does not subtract cache again).
    let result = build_anthropic_usage_from_responses(Some(&value(
        r#"{
            "input_tokens": 100,
            "output_tokens": 50,
            "input_tokens_details": {"cached_tokens": 80}
        }"#,
    )));

    assert_eq!(result["input_tokens"], value(r#"20"#));
    assert_eq!(result["output_tokens"], value(r#"50"#));
    assert_eq!(result["cache_read_input_tokens"], value(r#"80"#));
}

#[test]
fn responses_usage_maps_nested_cache_write_tokens() {
    let result = build_anthropic_usage_from_responses(Some(&value(
        r#"{
            "input_tokens": 100,
            "output_tokens": 10,
            "input_tokens_details": {
                "cached_tokens": 30,
                "cache_write_tokens": 20
            }
        }"#,
    )));

    assert_eq!(result["input_tokens"], value(r#"50"#));
    assert_eq!(result["cache_read_input_tokens"], value(r#"30"#));
    assert_eq!(result["cache_creation_input_tokens"], value(r#"20"#));
}

#[test]
fn anthropic_to_responses_defaults_missing_tool_schema_type() {
    let input = value(
        r#"{
            "model": "gpt-4o",
            "max_tokens": 1024,
            "messages": [{"role": "user", "content": "Weather?"}],
            "tools": [{
                "name": "get_weather",
                "description": "Get weather info",
                "input_schema": {"properties": {"location": {"type": "string"}}}
            }]
        }"#,
    );

    let result = anthropic_to_responses(input, None, false, false).unwrap();
    let parameters = &result["tools"][0]["parameters"];

    assert_eq!(parameters["type"], value(r#""object""#));
    assert_eq!(
        parameters["properties"]["location"]["type"],
        value(r#""string""#)
    );
}

#[test]
fn anthropic_to_responses_defaults_empty_tool_schema() {
    let input = value(
        r#"{
            "model": "gpt-4o",
            "max_tokens": 1024,
            "messages": [{"role": "user", "content": "Do work"}],
            "tools": [{"name": "do_work", "input_schema": {}}]
        }"#,
    );

    let result = anthropic_to_responses(input, None, false, false).unwrap();
    let parameters = &result["tools"][0]["parameters"];

    assert_eq!(parameters, &value(r#"{"type": "object", "properties": {}}"#));
}

#[test]
fn anthropic_to_responses_tool_arguments_are_canonical() {
    let input = value(
        r#"{
            "model": "gpt-5.4",
            "messages": [{
                "role": "assistant",
                "content": [{
                    "type": "tool_use",
                    "id": "call_1",
                    "name": "tool",
                    "input": {"b": 2, "a": 1}
                }]
            }]
        }"#,
    );

    let result =
        anthropic_to_responses(input, None, false, false).expect("transform responses");

    assert_eq!(result["input"][0]["arguments"], "{\"a\":1,\"b\":2}");
}

#[test]
fn anthropic_to_responses_maps_hosted_web_search_and_preserves_function_tools() {
    let input = value(
        r#"{
            "model": "gpt-5.6-luna",
            "messages": [{"role": "user", "content": "Find the repository"}],
            "tools": [
                {
                    "type": "web_search_20250305",
                    "name": "web_search",
                    "max_uses": 8,
                    "allowed_domains": ["github.com"],
                    "blocked_domains": [],
                    "user_location": {"type": "approximate", "country": "CN"}
                },
                {
                    "name": "Read",
                    "description": "Read a file",
                    "input_schema": {
                        "type": "object",
                        "properties": {"file_path": {"type": "string"}}
                    }
                }
            ],
            "tool_choice": {"type": "auto"}
        }"#,
    );

    let result = anthropic_to_responses(input.clone(), None, false, false).unwrap();

    assert_eq!(
        result["tools"][0],
        value(
            r#"{
                "type": "web_search",
                "filters": {
                    "allowed_domains": ["github.com"]
                },
                "user_location": {"type": "approximate", "country": "CN"}
            }"#,
        )
    );
    assert_eq!(result["tools"][1]["type"], "function");
    assert_eq!(result["tools"][1]["name"], "Read");
    let includes = result["include"].as_array().unwrap();
    assert!(includes.contains(&Value::String(WEB_SEARCH_SOURCES_INCLUDE.to_string())));
    assert!(includes.contains(&value(r#""reasoning.encrypted_content""#)));
    assert_eq!(result["tool_choice"], "auto");
    assert!(result.get("max_tool_calls").is_none());

    let official = anthropic_to_responses(input, None, true, false).unwrap();
    assert!(official.get("max_tool_calls").is_none());
}

#[test]
fn anthropic_to_responses_forces_hosted_web_search_choice() {
    let input = value(
        r#"{
            "model": "gpt-5.6-luna",
            "messages": [{"role": "user", "content": "Search"}],
            "tools": [{"type": "web_search_20250305", "name": "web_search"}],
            "tool_choice": {"type": "tool", "name": "web_search"}
        }"#,
    );

    let result = anthropic_to_responses(input, None, false, false).unwrap();

    assert_eq!(result["tool_choice"], value(r#"{"type": "web_search"}"#));
}

#[test]
fn anthropic_to_responses_merges_web_search_and_codex_includes() {
    let input = value(
        r#"{
            "model": "gpt-5.6-luna",
            "messages": [{"role": "user", "content": "Search"}],
            "tools": [{"type": "web_search_20250305", "name": "web_search"}]
        }"#,
    );

    let result = anthropic_to_responses(input, None, true, false).unwrap();
    let includes = result["include"].as_array().unwrap();

    assert!(includes.contains(&Value::String(WEB_SEARCH_SOURCES_INCLUDE.to_string())));
    assert!(includes.contains(&value(r#""reasoning.encrypted_content""#)));
}

#[test]
fn responses_to_anthropic_maps_web_search_results_and_citations() {
    let input = value(
        r#"{
            "id": "resp_search",
            "status": "completed",
            "model": "gpt-5.6-luna",
            "output": [
                {
                    "id": "ws_1",
                    "type": "web_search_call",
                    "status": "completed",
                    "action": {
                        "type": "search",
                        "query": "SaladDay cc-switch-cli",
                        "sources": [{"type": "url", "url": "https://github.com/SaladDay/cc-switch-cli"}]
                    }
                },
                {
                    "type": "message",
                    "content": [{
                        "type": "output_text",
                        "text": "GitHub result",
                        "annotations": [{
                            "type": "url_citation",
                            "start_index": 0,
                            "end_index": 6,
                            "title": "SaladDay cc-switch-cli",
                            "url": "https://github.com/SaladDay/cc-switch-cli?utm_source=openai"
                        }]
                    }]
                }
            ]
        }"#,
    );

    let result = responses_to_anthropic_web_search(input).unwrap();

    assert_eq!(result["content"][0]["type"], "server_tool_use");
    assert_eq!(result["content"][0]["id"], "ws_1");
    assert_eq!(
        result["content"][0]["input"],
        value(r#"{"query": "SaladDay cc-switch-cli"}"#)
    );
    assert_eq!(result["content"][1]["type"], "web_search_tool_result");
    assert_eq!(
        result["content"][1]["content"][0]["title"],
        "https://github.com/SaladDay/cc-switch-cli"
    );
    assert_eq!(
        result["content"][1]["content"][0]["url"],
        "https://github.com/SaladDay/cc-switch-cli"
    );
    assert_eq!(
        result["content"][2]["citations"][0]["type"],
        "web_search_result_location"
    );
    assert_eq!(result["content"][2]["citations"][0]["cited_text"], "GitHub");
    assert_eq!(
        result["content"][2]["citations"][0]["encrypted_index"],
        "ccs-cit1:0:6"
    );
    assert_eq!(result["usage"]["server_tool_use"]["web_search_requests"], 1);
    assert_eq!(result["stop_reason"], "end_turn");
}

#[test]
fn anthropic_to_responses_preserves_hosted_search_history() {
    let input = value(
        r#"{
            "model": "gpt-5.6-luna",
            "tools": [{"type": "web_search_20250305", "name": "web_search"}],
            "messages": [
                {"role": "user", "content": "Find the repo"},
                {"role": "assistant", "content": [
                    {
                        "type": "server_tool_use",
                        "id": "ws_1",
                        "name": "web_search",
                        "input": {"query": "SaladDay cc-switch-cli"}
                    },
                    {
                        "type": "web_search_tool_result",
                        "tool_use_id": "ws_1",
                        "content": [{
                            "type": "web_search_result",
                            "url": "https://github.com/SaladDay/cc-switch-cli",
                            "title": "SaladDay cc-switch-cli",
                            "encrypted_content": "ccs-ws1:9caa7767eea9deb1b062b630e6c79a2d2f2c3b5c9ad236bc6a1ff8b77b978b78"
                        }]
                    },
                    {
                        "type": "text",
                        "text": "GitHub result",
                        "citations": []
                    }
                ]},
                {"role": "user", "content": "Which organization owns it?"}
            ]
        }"#,
    );

    let result = anthropic_to_responses(input, None, false, false).unwrap();
    let items = result["input"].as_array().unwrap();
    let search_call = items
        .iter()
        .find(|item| item["type"] == "web_search_call")
        .expect("preserved web search call");
    assert_eq!(search_call["id"], "ws_1");
    assert_eq!(search_call["action"]["query"], "SaladDay cc-switch-cli");
    assert_eq!(
        search_call["action"]["sources"][0]["url"],
        "https://github.com/SaladDay/cc-switch-cli"
    );
    assert!(items
        .iter()
        .all(|item| item.pointer("/content/0/annotations").is_none()));
}

#[test]
fn anthropic_citation_with_opaque_index_uses_cited_text_span() {
    let text = "The project released v5.10.1.";
    let annotations = responses_annotations_from_anthropic_text(
        &value(
            r#"{
                "citations": [{
                    "type": "web_search_result_location",
                    "url": "https://example.com/release",
                    "title": "Release",
                    "encrypted_index": "anthropic-opaque-index",
                    "cited_text": "released v5.10.1"
                }]
            }"#,
        ),
        text,
    );
    assert_eq!(annotations[0]["start_index"], 12);
    assert_eq!(annotations[0]["end_index"], 28);
}

#[test]
fn repeated_opaque_citations_consume_successive_text_spans() {
    let annotations = responses_annotations_from_anthropic_text(
        &value(
            r#"{
                "citations": [
                    {
                        "type": "web_search_result_location",
                        "url": "https://example.com/first",
                        "encrypted_index": "opaque-1",
                        "cited_text": "foo"
                    },
                    {
                        "type": "web_search_result_location",
                        "url": "https://example.com/second",
                        "encrypted_index": "opaque-2",
                        "cited_text": "foo"
                    }
                ]
            }"#,
        ),
        "foo then foo",
    );
    assert_eq!(annotations[0]["start_index"], 0);
    assert_eq!(annotations[0]["end_index"], 3);
    assert_eq!(annotations[1]["start_index"], 9);
    assert_eq!(annotations[1]["end_index"], 12);
}

#[test]
fn hosted_search_round_trip_preserves_actions_and_counts_only_search() {
    let response = value(
        r#"{
            "id": "resp_actions",
            "status": "completed",
            "model": "gpt-5.6-sol",
            "output": [
                {
                    "id": "ws_search",
                    "type": "web_search_call",
                    "status": "completed",
                    "action": {
                        "type": "search",
                        "query": "release",
                        "sources": [{
                            "type": "url",
                            "url": "https://example.com/releases",
                            "title": "Releases"
                        }]
                    }
                },
                {
                    "id": "ws_open",
                    "type": "web_search_call",
                    "status": "completed",
                    "action": {
                        "type": "open_page",
                        "url": "https://example.com/releases"
                    }
                },
                {
                    "id": "ws_find",
                    "type": "web_search_call",
                    "status": "completed",
                    "action": {
                        "type": "find_in_page",
                        "url": "https://example.com/releases",
                        "pattern": "v5.10.1"
                    }
                }
            ]
        }"#,
    );

    let anthropic = responses_to_anthropic_web_search(response).unwrap();
    assert_eq!(
        anthropic["usage"]["server_tool_use"]["web_search_requests"],
        1
    );
    assert_eq!(anthropic["content"][1]["content"][0]["title"], "Releases");

    let history = anthropic_to_responses(
        replayed(&anthropic["content"]),
        None,
        false,
        false,
    )
    .unwrap();
    let actions: Vec<&Value> = history["input"]
        .as_array()
        .unwrap()
        .iter()
        .filter(|item| item["type"] == "web_search_call")
        .map(|item| &item["action"])
        .collect();

    assert_eq!(actions.len(), 3);
    assert_eq!(actions[0]["type"], "search");
    assert_eq!(actions[1]["type"], "open_page");
    assert_eq!(actions[1]["url"], "https://example.com/releases");
    assert_eq!(actions[2]["type"], "find_in_page");
    assert_eq!(actions[2]["pattern"], "v5.10.1");
}

#[test]
fn hosted_search_results_use_stable_non_payload_digests() {
    let item = value(
        r#"{
            "id": "ws_many",
            "type": "web_search_call",
            "action": {
                "type": "search",
                "query": "many sources",
                "sources": [
                    {"type": "url", "url": "https://example.com/1"},
                    {"type": "url", "url": "https://example.com/2"},
                    {"type": "url", "url": "https://example.com/3"}
                ]
            }
        }"#,
    );

    let (_, result) = render_anthropic_web_search_blocks(
        &completed_search("ws_many", &item["action"]),
        &Titles::new(),
    )
    .unwrap();
    let digests = result["content"].as_array().unwrap();
    assert_eq!(digests.len(), 3);
    assert!(digests.iter().all(|result| result["encrypted_content"]
        .as_str()
        .is_some_and(|value| value.starts_with("ccs-ws1:") && value.len() == 72)));
    assert_ne!(
        digests[0]["encrypted_content"],
        digests[1]["encrypted_content"]
    );
}

#[test]
fn hosted_search_indexes_many_citation_titles_by_url() {
    let sources: Vec<Value> = (0..128)
        .map(|index| {
            value(&format!(
                "{{\"type\":\"url\",\"url\":\"https://example.com/page?id={index}\"}}"
            ))
        })
        .collect();
    let annotations: Vec<Value> = (0..128)
        .rev()
        .map(|index| {
            value(&format!(
                "{{\"type\":\"url_citation\",\"url\":\"https://example.com/page?id={index}\",\"title\":\"Page {index}\"}}"
            ))
        })
        .collect();
    let item = {
        let mut item = value(
            r#"{"type": "web_search_call", "action": {"type": "search", "query": "pages"}}"#,
        );
        item["action"]["sources"] = Value::Array(sources);
        item
    };
    let mut message = value(
        r#"{"type": "message", "content": [{"type": "output_text", "text": "pages"}]}"#,
    );
    message["content"][0]["annotations"] = Value::Array(annotations);
    let output = vec![message];

    let titles = citation_titles_by_exact_url(&output);
    let (_, result) = render_anthropic_web_search_blocks(
        &completed_search("ws_many_titles", &item["action"]),
        &titles,
    )
    .unwrap();
    let results = result["content"].as_array().unwrap();

    assert_eq!(results.len(), 128);
    for (index, result) in results.iter().enumerate() {
        assert_eq!(result["title"], format!("Page {index}"));
    }
}

#[test]
fn encrypted_reasoning_round_trips_through_redacted_thinking() {
    let response = value(
        r#"{
            "id": "resp_reasoning",
            "status": "completed",
            "output": [{
                "id": "rs_1",
                "type": "reasoning",
                "summary": [{"type": "summary_text", "text": "Need a tool."}],
                "encrypted_content": "opaque-encrypted-reasoning"
            }]
        }"#,
    );

    let anthropic = responses_to_anthropic_web_search(response).unwrap();
    assert_eq!(anthropic["content"][0]["type"], "thinking");
    assert_eq!(
        anthropic["content"][0]["signature"],
        RESPONSES_PROXY_THINKING_SIGNATURE
    );
    assert_eq!(anthropic["content"][1]["type"], "redacted_thinking");

    let replay = anthropic_to_responses(
        replayed(&anthropic["content"]),
        None,
        false,
        false,
    )
    .unwrap();
    let reasoning = replay["input"]
        .as_array()
        .unwrap()
        .iter()
        .find(|item| item["type"] == "reasoning")
        .expect("replayed reasoning item");
    assert_eq!(reasoning["id"], "rs_1");
    assert_eq!(reasoning["encrypted_content"], "opaque-encrypted-reasoning");
    assert_eq!(reasoning["summary"], value(r#"[]"#));
}

#[test]
fn responses_reasoning_content_maps_to_anthropic_thinking() {
    let response = value(
        r#"{
            "id": "resp_reasoning_text",
            "status": "completed",
            "output": [{
                "id": "rs_text",
                "type": "reasoning",
                "summary": [],
                "content": [{"type": "reasoning_text", "text": "Raw reasoning."}]
            }]
        }"#,
    );

    let anthropic = responses_to_anthropic_web_search(response).unwrap();
    assert_eq!(anthropic["content"][0]["type"], "thinking");
    assert_eq!(anthropic["content"][0]["thinking"], "Raw reasoning.");
    assert_eq!(
        anthropic["content"][0]["signature"],
        RESPONSES_PROXY_THINKING_SIGNATURE
    );
}

#[test]
fn ordinary_reasoning_response_keeps_baseline_summary_only_shape() {
    let response = value(
        r#"{
            "id": "resp_ordinary_reasoning",
            "status": "completed",
            "output": [{
                "id": "rs_ordinary",
                "type": "reasoning",
                "summary": [{"type": "summary_text", "text": "Visible summary."}],
                "content": [{"type": "reasoning_text", "text": "Raw reasoning."}],
                "encrypted_content": "opaque-encrypted-reasoning"
            }]
        }"#,
    );

    let anthropic = responses_to_anthropic(response).unwrap();
    assert_eq!(anthropic["content"].as_array().unwrap().len(), 1);
    assert_eq!(anthropic["content"][0]["type"], "thinking");
    assert_eq!(anthropic["content"][0]["thinking"], "Visible summary.");
    assert!(anthropic["content"][0].get("signature").is_none());
}

#[test]
fn ordinary_disable_parallel_tool_use_keeps_baseline_wire_contract() {
    let transformed = anthropic_to_responses(
        value(
            r#"{
                "model": "gpt-5.6-sol",
                "messages": [{"role": "user", "content": "use a tool"}],
                "tools": [{"name": "Bash", "input_schema": {"type": "object"}}],
                "tool_choice": {"type": "auto", "disable_parallel_tool_use": true}
            }"#,
        ),
        None,
        false,
        false,
    )
    .unwrap();

    assert_eq!(transformed["tool_choice"], "auto");
    assert!(transformed.get("parallel_tool_calls").is_none());
}

#[test]
fn ordinary_request_ignores_unrelated_server_tool_history() {
    let transformed = anthropic_to_responses(
        value(
            r#"{
                "model": "gpt-5.6-sol",
                "messages": [{
                    "role": "assistant",
                    "content": [
                        {
                            "type": "server_tool_use",
                            "id": "fetch_1",
                            "name": "web_fetch",
                            "input": {"url": "https://example.com"}
                        },
                        {"type": "text", "text": "kept"}
                    ]
                }]
            }"#,
        ),
        None,
        false,
        false,
    )
    .unwrap();

    assert_eq!(transformed["input"][0]["content"][0]["text"], "kept");
}

#[test]
fn hosted_web_search_request_ignores_unrelated_server_tool_history() {
    let transformed = anthropic_to_responses(
        value(
            r#"{
                "model": "gpt-5.6-sol",
                "tools": [{"type": "web_search_20250305", "name": "web_search"}],
                "messages": [{
                    "role": "assistant",
                    "content": [
                        {
                            "type": "server_tool_use",
                            "id": "fetch_1",
                            "name": "web_fetch",
                            "input": {"url": "https://example.com"}
                        },
                        {"type": "text", "text": "kept"}
                    ]
                }]
            }"#,
        ),
        None,
        false,
        false,
    )
    .unwrap();

    assert_eq!(transformed["input"][0]["content"][0]["text"], "kept");
}

#[test]
fn ordinary_response_does_not_enable_web_search_citations() {
    let transformed = responses_to_anthropic(value(
        r#"{
            "id": "resp_ordinary",
            "status": "completed",
            "output": [{
                "type": "message",
                "content": [{
                    "type": "output_text",
                    "text": "plain",
                    "annotations": [{
                        "type": "url_citation",
                        "url": "https://example.com",
                        "title": "Example",
                        "start_index": 99,
                        "end_index": 100
                    }]
                }]
            }]
        }"#,
    ))
    .unwrap();

    assert_eq!(
        transformed["content"][0],
        value(r#"{"type": "text", "text": "plain"}"#)
    );
    assert!(transformed["usage"].get("server_tool_use").is_none());
}

#[test]
fn ordinary_request_does_not_replay_assistant_citations() {
    let transformed = anthropic_to_responses(
        value(
            r#"{
                "model": "gpt-5.6-sol",
                "messages": [{
                    "role": "assistant",
                    "content": [{
                        "type": "text",
                        "text": "plain",
                        "citations": [{
                            "type": "web_search_result_location",
                            "url": "https://example.com",
                            "title": "Example",
                            "cited_text": "plain",
                            "encrypted_index": "opaque"
                        }]
                    }]
                }]
            }"#,
        ),
        None,
        false,
        false,
    )
    .unwrap();

    assert!(transformed["input"][0]["content"][0]
        .get("annotations")
        .is_none());
}

#[test]
fn hosted_web_search_disable_parallel_tool_use_maps_to_responses() {
    let transformed = anthropic_to_responses(
        value(
            r#"{
                "model": "gpt-5.6-sol",
                "messages": [{"role": "user", "content": "search"}],
                "tools": [{
                    "type": "web_search_20250305",
                    "name": "web_search"
                }],
                "tool_choice": {"type": "auto", "disable_parallel_tool_use": true}
            }"#,
        ),
        None,
        false,
        false,
    )
    .unwrap();

    assert_eq!(transformed["tool_choice"], "auto");
    assert_eq!(transformed["parallel_tool_calls"], false);
}

#[test]
fn hosted_search_without_sources_round_trips_supported_action_fields() {
    let response = value(
        r#"{
            "id": "resp_empty_search",
            "status": "completed",
            "output": [{
                "id": "ws_empty",
                "type": "web_search_call",
                "status": "completed",
                "action": {
                    "type": "search",
                    "query": "a OR b",
                    "queries": ["a", "b"],
                    "sources": []
                }
            }]
        }"#,
    );

    let anthropic = responses_to_anthropic_web_search(response).unwrap();
    assert_eq!(anthropic["content"][1]["content"], value(r#"[]"#));
    let replay = anthropic_to_responses(
        replayed(&anthropic["content"]),
        None,
        false,
        false,
    )
    .unwrap();
    let action = &replay["input"][0]["action"];
    assert_eq!(action["type"], "search");
    assert!(action.get("queries").is_none());
    assert_eq!(action["query"], "a OR b");
    assert_eq!(action["sources"], value(r#"[]"#));
}

#[test]
fn failed_hosted_search_fails_the_response_conversion() {
    let result = responses_to_anthropic_web_search(value(
        r#"{
            "id": "resp_failed_search",
            "status": "completed",
            "output": [{
                "id": "ws_failed",
                "type": "web_search_call",
                "status": "failed",
                "error": {"code": "too_many_requests"},
                "action": {"type": "search", "query": "q"}
            }]
        }"#,
    ));
    assert!(matches!(result, Err(ProxyError::TransformError(_))));
}
