//! Which protocol a provider answers in.
use crate::forwarder::attempt::{AttemptMode, AttemptRules};
use crate::forwarder::errors::AppType;
use crate::forwarder::retry;
use crate::forwarder::{ForwardOptions, Provider, ProviderView};
use crate::json;
use crate::json::{Json, JsonView};
use crate::text;
use vstd::prelude::*;
use vstd::string::*;

verus! {

/// Whether an endpoint is one of the Responses protocol.
pub open spec fn is_responses_path(endpoint: Seq<char>) -> bool {
    let path = text::before_first(endpoint, '?');
    path == "/responses"@ || path == "/v1/responses"@ || path == "/responses/compact"@ || path
        == "/v1/responses/compact"@
}

/// Whether a provider answers in the Responses protocol: to a Messages client by
/// the format in which it serves such clients, to another by the endpoint,
/// unless the request, to that endpoint, is converted for it.
pub open spec fn speaks_responses(
    app_type: AppType,
    provider: ProviderView,
    endpoint: Seq<char>,
) -> bool {
    if app_type == AppType::Claude {
        provider.claude_api_format == "openai_responses"@
    } else {
        is_responses_path(endpoint) && !provider.converts_to_chat && !provider.converts_to_anthropic
    }
}

pub fn uses_responses_protocol(app_type: AppType, provider: &Provider, endpoint: &str) -> (r: bool)
    ensures
        r == speaks_responses(app_type, provider@, endpoint@),
{
    if app_type == AppType::Claude {
        return text::same_text(provider.claude_api_format.as_str(), "openai_responses");
    }
    let path = text::take_before(endpoint, '?');
    (text::same_text(path.as_str(), "/responses") || text::same_text(
        path.as_str(),
        "/v1/responses",
    ) || text::same_text(path.as_str(), "/responses/compact") || text::same_text(
        path.as_str(),
        "/v1/responses/compact",
    )) && !provider.converts_to_chat && !provider.converts_to_anthropic
}

/// Whether a provider answers a Codex client in the Messages protocol. The
/// endpoint of the request counts through the provider's fields, which hold for
/// it.
pub open spec fn speaks_messages(app_type: AppType, provider: ProviderView) -> bool {
    app_type == AppType::Codex && provider.converts_to_anthropic
}

pub fn uses_codex_anthropic_protocol(app_type: AppType, provider: &Provider) -> (r: bool)
    ensures
        r == speaks_messages(app_type, provider@),
{
    app_type == AppType::Codex && provider.converts_to_anthropic
}

/// Whether a tool is one for web search, of whatever version.
pub open spec fn is_search_tool_type(tool: JsonView) -> bool {
    tool.get_str("type"@) matches Some(t) && text::has_prefix(t, "web_search_"@)
}

/// Whether a request of a Messages client uses web search.
pub open spec fn searches_web(app_type: AppType, body: JsonView) -> bool {
    app_type == AppType::Claude && body.get_array("tools"@) is Some && exists|i: int|
        0 <= i < body.get_array("tools"@)->0.len() && is_search_tool_type(
            #[trigger] body.get_array("tools"@)->0[i],
        )
}

pub fn anthropic_request_uses_web_search(app_type: AppType, body: &Json) -> (r: bool)
    ensures
        r == searches_web(app_type, body@),
{
    if app_type != AppType::Claude {
        return false;
    }
    let tools = match body.get_array("tools") {
        Some(tools) => tools,
        None => {
            return false;
        },
    };
    let ghost views = json::items_view(tools@);
    let mut i: usize = 0;
    while i < tools.len()
        invariant
            app_type == AppType::Claude,
            body@.get_array("tools"@) == Some(views),
            views == json::items_view(tools@),
            i <= tools@.len(),
            forall|k: int| 0 <= k < i ==> !is_search_tool_type(#[trigger] views[k]),
        decreases tools@.len() - i,
    {
        assert(views[i as int] == tools@[i as int]@);
        if let Some(t) = tools[i].get_str("type") {
            if text::starts_with(t, "web_search_") {
                assert(is_search_tool_type(body@.get_array("tools"@)->0[i as int]));
                return true;
            }
        }
        i = i + 1;
    }
    false
}

/// What an attempt with a provider goes by. A request that did not get through
/// is not sent again by an attempt: there the next provider is asked.
pub open spec fn attempt_rules(
    mode: AttemptMode,
    app_type: AppType,
    provider: ProviderView,
    endpoint: Seq<char>,
    body: JsonView,
    limit: Option<u128>,
    now: u128,
) -> AttemptRules {
    AttemptRules {
        mode,
        app_type,
        is_codex_official: provider.is_codex_official,
        responses: speaks_responses(app_type, provider, endpoint),
        codex_anthropic: speaks_messages(app_type, provider),
        web_search: searches_web(app_type, body),
        limit,
        max_retries: 0,
        started_at: now,
    }
}

pub fn rules_for_attempt(
    mode: AttemptMode,
    app_type: AppType,
    provider: &Provider,
    endpoint: &str,
    body: &Json,
    options: &ForwardOptions,
    now: u128,
) -> (r: AttemptRules)
    ensures
        r == attempt_rules(
            mode,
            app_type,
            provider@,
            endpoint@,
            body@,
            retry::opt_nanos(options.request_timeout),
            now,
        ),
{
    AttemptRules {
        mode,
        app_type,
        is_codex_official: provider.is_codex_official,
        responses: uses_responses_protocol(app_type, provider, endpoint),
        codex_anthropic: uses_codex_anthropic_protocol(app_type, provider),
        web_search: anthropic_request_uses_web_search(app_type, body),
        limit: retry::limit_nanos(options.request_timeout),
        max_retries: 0,
        started_at: now,
    }
}

/// No provider answers in both protocols.
pub proof fn protocols_exclude_each_other(
    app_type: AppType,
    provider: ProviderView,
    endpoint: Seq<char>,
)
    ensures
        !(speaks_responses(app_type, provider, endpoint) && speaks_messages(app_type, provider)),
{
}

} // verus!
