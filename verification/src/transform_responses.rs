//! Requests of the Messages protocol as requests of the Responses protocol, and
//! responses the other way round.
use crate::error::{ErrorView, ProxyError};
use crate::history_laws;
use crate::json;
use crate::json::{Json, JsonView};
use crate::json_codec;
use crate::reasoning;
use crate::reasoning::RESPONSES_PROXY_THINKING_SIGNATURE;
use crate::responses_input;
use crate::seqs;
use crate::text;
use crate::transform;
use crate::web_search_bridge;
use crate::web_search_bridge::{Titles, WebSearchRequestPolicy, WEB_SEARCH_SOURCES_INCLUDE};
use vstd::prelude::*;
use vstd::string::*;

verus! {

/// Asks for the encrypted content of reasoning.
pub const REASONING_INCLUDE: &'static str = "reasoning.encrypted_content";

// ---------------------------------------------------------------------------
// Requests
// ---------------------------------------------------------------------------

/// The texts of system blocks, without billing data; none that is empty.
pub open spec fn system_text() -> spec_fn(JsonView) -> Seq<Seq<char>> {
    |block: JsonView|
        match block.get_str("text"@) {
            Some(s) => if transform::without_billing_header(s).len() > 0 {
                seq![transform::without_billing_header(s)]
            } else {
                Seq::empty()
            },
            None => Seq::empty(),
        }
}

/// The instructions of a request: its system text.
pub open spec fn instructions(body: JsonView) -> Seq<char> {
    match body.get("system"@) {
        Some(JsonView::Str(s)) => transform::without_billing_header(s),
        Some(JsonView::Array(blocks)) => text::joined(
            seqs::gathered(blocks, system_text(), blocks.len()),
            "\n\n"@,
        ),
        _ => Seq::empty(),
    }
}

fn get_instructions(body: &Json) -> (r: String)
    ensures
        r@ == instructions(body@),
{
    match body.get("system") {
        Some(Json::Str(s)) => transform::strip_leading_anthropic_billing_header(s.as_str()),
        Some(Json::Array(blocks)) => {
            let ghost views = json::items_view(blocks@);
            let mut texts: Vec<String> = Vec::new();
            let mut i: usize = 0;
            assert(text::texts(texts@) =~= Seq::<Seq<char>>::empty());
            while i < blocks.len()
                invariant
                    i <= blocks@.len(),
                    views == json::items_view(blocks@),
                    text::texts(texts@) == seqs::gathered(views, system_text(), i as nat),
                decreases blocks@.len() - i,
            {
                assert(views[i as int] == blocks@[i as int]@);
                let ghost before = text::texts(texts@);
                assert(before + Seq::<Seq<char>>::empty() =~= before);
                if let Some(s) = blocks[i].get_str("text") {
                    let stripped = transform::strip_leading_anthropic_billing_header(s);
                    if !stripped.as_str().is_empty() {
                        proof {
                            text::texts_push(texts@, stripped);
                            assert(before.push(stripped@) =~= before + seq![stripped@]);
                        }
                        texts.push(stripped);
                    }
                }
                i = i + 1;
            }
            text::join(&texts, "\n\n")
        },
        _ => {
            let none = String::new();
            assert(none@ =~= Seq::<char>::empty());
            none
        },
    }
}

/// A value with a member more, where there is one to add.
pub open spec fn with_some(v: JsonView, key: Seq<char>, member: Option<JsonView>) -> JsonView {
    match member {
        Some(m) => v.with(key, m),
        None => v,
    }
}

fn set_some(v: &mut Json, key: &str, member: Option<&Json>)
    ensures
        final(v)@ == with_some(old(v)@, key@, json::opt_view(member)),
{
    if let Some(m) = member {
        v.set(key, m.copy());
    }
}

/// A tool of the client.
pub open spec fn function_tool(tool: JsonView) -> JsonView {
    let schema = match tool.get("input_schema"@) {
        Some(v) => v,
        None => JsonView::object(),
    };
    JsonView::object().with("type"@, JsonView::Str("function"@)).with(
        "name"@,
        JsonView::Str(tool.str_or("name"@, ""@)),
    ).with("description"@, JsonView::or_null(tool.get("description"@))).with(
        "parameters"@,
        transform::completed_schema(schema),
    )
}

/// The tools with one more: the hosted search or a tool of the client. The
/// batch tool is left out.
pub open spec fn with_tool() -> spec_fn(Seq<JsonView>, JsonView) -> Result<
    Seq<JsonView>,
    ErrorView,
> {
    |tools: Seq<JsonView>, tool: JsonView|
        if tool.says("type"@, "BatchTool"@) {
            Ok(tools)
        } else if web_search_bridge::looks_like_search(tool) {
            match web_search_bridge::mapped_tool(tool) {
                Err(e) => Err(e),
                Ok(mapped) => Ok(tools.push(mapped)),
            }
        } else {
            Ok(tools.push(function_tool(tool)))
        }
}

/// The tools of a request.
pub open spec fn request_tools(body: JsonView) -> Result<Seq<JsonView>, ErrorView> {
    let tools = body.items_at("tools"@);
    seqs::folded(tools, with_tool(), Seq::empty(), tools.len())
}

fn make_function_tool(tool: &Json) -> (r: Json)
    ensures
        r@ == function_tool(tool@),
{
    let schema = match tool.get("input_schema") {
        Some(v) => v.copy(),
        None => Json::object(),
    };
    Json::object().with("type", Json::string("function")).with(
        "name",
        Json::string(tool.str_or("name", "")),
    ).with("description", Json::copy_or_null(tool.get("description"))).with(
        "parameters",
        transform::clean_schema(schema),
    )
}

fn get_request_tools(body: &Json) -> (r: Result<Vec<Json>, ProxyError>)
    ensures
        responses_input::items_result(r) == request_tools(body@),
{
    let mut out: Vec<Json> = Vec::new();
    assert(json::items_view(out@) =~= Seq::<JsonView>::empty());
    let tools = match body.get_array("tools") {
        Some(v) => v,
        None => {
            return Ok(out);
        },
    };
    let ghost views = json::items_view(tools@);
    let ghost f = with_tool();
    let mut i: usize = 0;
    while i < tools.len()
        invariant
            i <= tools@.len(),
            views == json::items_view(tools@),
            body@.items_at("tools"@) == views,
            f == with_tool(),
            seqs::folded(views, f, Seq::empty(), i as nat) == Ok::<Seq<JsonView>, ErrorView>(
                json::items_view(out@),
            ),
        decreases tools@.len() - i,
    {
        let tool = &tools[i];
        assert(views[i as int] == tool@);
        proof {
            if seqs::folded(views, f, Seq::empty(), (i + 1) as nat) is Err {
                seqs::folded_stops(views, f, Seq::empty(), (i + 1) as nat, views.len());
            }
        }
        if !tool.says("type", "BatchTool") {
            let mapped = if web_search_bridge::is_search_tool(tool) {
                match web_search_bridge::map_anthropic_web_search_tool(tool) {
                    Ok(mapped) => mapped,
                    Err(e) => {
                        return Err(e);
                    },
                }
            } else {
                make_function_tool(tool)
            };
            proof {
                json::items_push(out@, mapped);
            }
            out.push(mapped);
        }
        i = i + 1;
    }
    Ok(out)
}

/// Whether a string is among values.
pub open spec fn has_string(v: Seq<JsonView>, s: Seq<char>) -> bool {
    v.contains(JsonView::Str(s))
}

/// The values with a string among them.
pub open spec fn with_string(v: Seq<JsonView>, s: Seq<char>) -> Seq<JsonView> {
    if has_string(v, s) {
        v
    } else {
        v.push(JsonView::Str(s))
    }
}

fn add_string(v: &mut Vec<Json>, s: &str)
    ensures
        json::items_view(final(v)@) == with_string(json::items_view(old(v)@), s@),
{
    let ghost views = json::items_view(v@);
    let mut i: usize = 0;
    while i < v.len()
        invariant
            i <= v@.len(),
            v@ == old(v)@,
            views == json::items_view(v@),
            forall|k: int| 0 <= k < i ==> #[trigger] views[k] != JsonView::Str(s@),
        decreases v@.len() - i,
    {
        assert(views[i as int] == v@[i as int]@);
        if text::is_text(v[i].as_str(), s) {
            assert(views[i as int] == JsonView::Str(s@));
            return ;
        }
        i = i + 1;
    }
    let item = Json::string(s);
    proof {
        json::items_push(v@, item);
    }
    v.push(item);
}

/// What a request asks to be told besides: what it asks itself, the sources of
/// a hosted search, encrypted reasoning.
pub open spec fn includes(body: JsonView, hosted_search: bool, with_reasoning: bool) -> Option<
    Seq<JsonView>,
> {
    let asked = body.items_at("include"@);
    if hosted_search {
        let sources = with_string(asked, WEB_SEARCH_SOURCES_INCLUDE@);
        if with_reasoning {
            Some(with_string(sources, REASONING_INCLUDE@))
        } else {
            Some(sources)
        }
    } else if with_reasoning {
        Some(with_string(asked, REASONING_INCLUDE@))
    } else {
        None
    }
}

fn get_includes(body: &Json, hosted_search: bool, with_reasoning: bool) -> (r: Option<Vec<Json>>)
    ensures
        (match r {
            Some(v) => Some(json::items_view(v@)),
            None => None,
        }) == includes(body@, hosted_search, with_reasoning),
{
    if !hosted_search && !with_reasoning {
        return None;
    }
    let mut out: Vec<Json> = match body.get_array("include") {
        Some(v) => json::copy_items(v),
        None => Vec::new(),
    };
    assert(json::items_view(out@) =~= body@.items_at("include"@));
    if hosted_search {
        add_string(&mut out, WEB_SEARCH_SOURCES_INCLUDE);
    }
    if with_reasoning {
        add_string(&mut out, REASONING_INCLUDE);
    }
    Some(out)
}

/// The choice of a tool.
pub open spec fn mapped_tool_choice(choice: JsonView, hosted_search: bool) -> JsonView {
    let kind = choice.get_str("type"@);
    if kind == Some("any"@) {
        JsonView::Str("required"@)
    } else if kind == Some("auto"@) {
        JsonView::Str("auto"@)
    } else if kind == Some("none"@) {
        JsonView::Str("none"@)
    } else if kind == Some("tool"@) {
        let name = choice.str_or("name"@, ""@);
        if hosted_search && name == "web_search"@ {
            JsonView::object().with("type"@, JsonView::Str("web_search"@))
        } else {
            JsonView::object().with("type"@, JsonView::Str("function"@)).with(
                "name"@,
                JsonView::Str(name),
            )
        }
    } else {
        choice
    }
}

pub fn map_tool_choice_to_responses(choice: &Json, hosted_search: bool) -> (r: Json)
    ensures
        r@ == mapped_tool_choice(choice@, hosted_search),
{
    let kind = choice.get_str("type");
    if text::is_text(kind, "any") {
        Json::string("required")
    } else if text::is_text(kind, "auto") {
        Json::string("auto")
    } else if text::is_text(kind, "none") {
        Json::string("none")
    } else if text::is_text(kind, "tool") {
        let name = choice.str_or("name", "");
        if hosted_search && text::same_text(name, "web_search") {
            return Json::object().with("type", Json::string("web_search"));
        }
        Json::object().with("type", Json::string("function")).with("name", Json::string(name))
    } else {
        choice.copy()
    }
}

/// Whether the model of a request takes a reasoning effort.
pub open spec fn is_reasoning_request(body: JsonView) -> bool {
    body.get_str("model"@) matches Some(model) && transform::takes_effort(model)
}

/// The members that a request has of any kind: the model, the instructions, the
/// input, limits, and the effort. It always streams.
pub open spec fn common_members(body: JsonView, input: Option<Seq<JsonView>>) -> JsonView {
    let model = match body.get_str("model"@) {
        Some(model) => Some(JsonView::Str(model)),
        None => None,
    };
    let system = if instructions(body).len() > 0 {
        Some(JsonView::Str(instructions(body)))
    } else {
        None
    };
    let items = match input {
        Some(v) => Some(JsonView::Array(v)),
        None => None,
    };
    let effort = match transform::requested_effort(body) {
        Some(effort) if is_reasoning_request(body) => Some(
            JsonView::object().with("effort"@, JsonView::Str(effort)),
        ),
        _ => None,
    };
    let r0 = with_some(JsonView::object(), "model"@, model);
    let r1 = with_some(r0, "instructions"@, system);
    let r2 = with_some(r1, "input"@, items);
    let r3 = with_some(r2, "max_output_tokens"@, body.get("max_tokens"@));
    let r4 = with_some(r3, "temperature"@, body.get("temperature"@));
    let r5 = with_some(r4, "top_p"@, body.get("top_p"@));
    let r6 = r5.with("stream"@, JsonView::Bool(true));
    with_some(r6, "reasoning"@, effort)
}

/// The members that tools and searches bring.
pub open spec fn tool_members(
    base: JsonView,
    body: JsonView,
    tools: Seq<JsonView>,
    hosted_search: bool,
    with_reasoning: bool,
) -> JsonView {
    let r0 = if tools.len() > 0 {
        base.with("tools"@, JsonView::Array(tools))
    } else {
        base
    };
    let r1 = match includes(body, hosted_search, with_reasoning) {
        Some(v) => r0.with("include"@, JsonView::Array(v)),
        None => r0,
    };
    match body.get("tool_choice"@) {
        None => r1,
        Some(choice) => {
            let r2 = r1.with("tool_choice"@, mapped_tool_choice(choice, hosted_search));
            if hosted_search && choice.get_bool("disable_parallel_tool_use"@) == Some(true) {
                r2.with("parallel_tool_calls"@, JsonView::Bool(false))
            } else {
                r2
            }
        },
    }
}

/// A value with a member, where it has none of that name.
pub open spec fn with_default(v: JsonView, key: Seq<char>, member: JsonView) -> JsonView {
    if v.get(key) is None {
        v.with(key, member)
    } else {
        v
    }
}

/// What the Codex service wants of a request: nothing is stored, limits are
/// left out, and some members are always there.
pub open spec fn codex_members(base: JsonView, fast_mode: bool) -> JsonView {
    let r0 = base.with("store"@, JsonView::Bool(false));
    let r1 = if fast_mode {
        r0.with("service_tier"@, JsonView::Str("priority"@))
    } else {
        r0
    };
    let r2 = r1.without("max_output_tokens"@).without("temperature"@).without("top_p"@);
    let r3 = with_default(r2, "instructions"@, JsonView::Str(""@));
    let r4 = with_default(r3, "tools"@, JsonView::Array(Seq::empty()));
    with_default(r4, "parallel_tool_calls"@, JsonView::Bool(false))
}

/// The input of a request, where it has messages.
pub open spec fn request_input(body: JsonView, keep_history: bool) -> Result<
    Option<Seq<JsonView>>,
    ErrorView,
> {
    match body.get_array("messages"@) {
        None => Ok(None),
        Some(messages) => match responses_input::messages_input(messages, keep_history) {
            Err(e) => Err(e),
            Ok(v) => Ok(Some(v)),
        },
    }
}

/// A request of the Messages protocol as a request of the Responses protocol.
pub open spec fn bridged_request(
    body: JsonView,
    cache_key: Option<Seq<char>>,
    is_codex_oauth: bool,
    codex_fast_mode: bool,
) -> Result<JsonView, ErrorView> {
    match web_search_bridge::request_policy(body) {
        Err(e) => Err(e),
        Ok(policy) => {
            let hosted = policy is Some;
            let with_reasoning = is_codex_oauth || (hosted && is_reasoning_request(body));
            match request_input(body, hosted) {
                Err(e) => Err(e),
                Ok(input) => match request_tools(body) {
                    Err(e) => Err(e),
                    Ok(tools) => {
                        let r0 = common_members(body, input);
                        let r1 = tool_members(r0, body, tools, hosted, with_reasoning);
                        let r2 = match cache_key {
                            Some(key) => r1.with("prompt_cache_key"@, JsonView::Str(key)),
                            None => r1,
                        };
                        Ok(
                            if is_codex_oauth {
                                codex_members(r2, codex_fast_mode)
                            } else {
                                r2
                            },
                        )
                    },
                },
            }
        },
    }
}

fn supports_effort(body: &Json) -> (r: bool)
    ensures
        r == is_reasoning_request(body@),
{
    match body.get_str("model") {
        Some(model) => transform::supports_reasoning_effort(model),
        None => false,
    }
}

fn make_common_members(body: &Json, input: Option<Vec<Json>>) -> (r: Json)
    ensures
        r@ == common_members(
            body@,
            match input {
                Some(v) => Some(json::items_view(v@)),
                None => None,
            },
        ),
{
    let mut result = Json::object();
    if let Some(model) = body.get_str("model") {
        result.set("model", Json::string(model));
    }
    let system = get_instructions(body);
    if !system.as_str().is_empty() {
        result.set("instructions", Json::Str(system));
    }
    if let Some(items) = input {
        result.set("input", Json::Array(items));
    }
    set_some(&mut result, "max_output_tokens", body.get("max_tokens"));
    set_some(&mut result, "temperature", body.get("temperature"));
    set_some(&mut result, "top_p", body.get("top_p"));
    result.set("stream", Json::Bool(true));
    if supports_effort(body) {
        if let Some(effort) = transform::resolve_reasoning_effort(body) {
            result.set("reasoning", Json::object().with("effort", Json::string(effort)));
        }
    }
    result
}

fn add_tool_members(
    result: &mut Json,
    body: &Json,
    tools: Vec<Json>,
    hosted_search: bool,
    with_reasoning: bool,
)
    ensures
        final(result)@ == tool_members(
            old(result)@,
            body@,
            json::items_view(tools@),
            hosted_search,
            with_reasoning,
        ),
{
    assert(json::items_view(tools@).len() == tools@.len());
    if tools.len() > 0 {
        result.set("tools", Json::Array(tools));
    }
    if let Some(v) = get_includes(body, hosted_search, with_reasoning) {
        result.set("include", Json::Array(v));
    }
    if let Some(choice) = body.get("tool_choice") {
        result.set("tool_choice", map_tool_choice_to_responses(choice, hosted_search));
        if hosted_search {
            if let Some(b) = choice.get_bool("disable_parallel_tool_use") {
                if b {
                    result.set("parallel_tool_calls", Json::Bool(false));
                }
            }
        }
    }
}

fn set_default(v: &mut Json, key: &str, member: Json)
    ensures
        final(v)@ == with_default(old(v)@, key@, member@),
{
    if v.get(key).is_none() {
        v.set(key, member);
    }
}

fn add_codex_members(result: &mut Json, fast_mode: bool)
    ensures
        final(result)@ == codex_members(old(result)@, fast_mode),
{
    result.set("store", Json::Bool(false));
    if fast_mode {
        result.set("service_tier", Json::string("priority"));
    }
    result.unset("max_output_tokens");
    result.unset("temperature");
    result.unset("top_p");
    set_default(result, "instructions", Json::string(""));
    let none: Vec<Json> = Vec::new();
    assert(json::items_view(none@) =~= Seq::<JsonView>::empty());
    set_default(result, "tools", Json::Array(none));
    set_default(result, "parallel_tool_calls", Json::Bool(false));
}

pub fn anthropic_to_responses(
    body: Json,
    cache_key: Option<&str>,
    is_codex_oauth: bool,
    codex_fast_mode: bool,
) -> (r: Result<Json, ProxyError>)
    ensures
        web_search_bridge::json_result(r) == bridged_request(
            body@,
            text::opt_text(cache_key),
            is_codex_oauth,
            codex_fast_mode,
        ),
{
    let policy = match WebSearchRequestPolicy::from_anthropic_request(&body) {
        Ok(policy) => policy,
        Err(e) => {
            return Err(e);
        },
    };
    let hosted = policy.is_some();
    let with_reasoning = is_codex_oauth || (hosted && supports_effort(&body));
    let input: Option<Vec<Json>> = match body.get_array("messages") {
        Some(messages) => match responses_input::convert_messages_to_input(messages, hosted) {
            Ok(v) => Some(v),
            Err(e) => {
                return Err(e);
            },
        },
        None => None,
    };
    let tools = match get_request_tools(&body) {
        Ok(v) => v,
        Err(e) => {
            return Err(e);
        },
    };
    let mut result = make_common_members(&body, input);
    add_tool_members(&mut result, &body, tools, hosted, with_reasoning);
    if let Some(key) = cache_key {
        result.set("prompt_cache_key", Json::string(key));
    }
    if is_codex_oauth {
        add_codex_members(&mut result, codex_fast_mode);
    }
    Ok(result)
}

// ---------------------------------------------------------------------------
// Tool input
// ---------------------------------------------------------------------------

/// The input of a tool call: that of `Read` without pages where they are empty.
pub open spec fn sanitized_input(name: Seq<char>, input: JsonView) -> JsonView {
    if name == "Read"@ && input.says("pages"@, ""@) {
        input.without("pages"@)
    } else {
        input
    }
}

pub fn sanitize_anthropic_tool_use_input(name: &str, input: Json) -> (r: Json)
    ensures
        r@ == sanitized_input(name@, input@),
{
    let mut input = input;
    if text::same_text(name, "Read") && input.says("pages", "") {
        input.unset("pages");
    }
    input
}

/// The same of the text of an input; a text that is no JSON stays as it is.
pub open spec fn sanitized_input_json(name: Seq<char>, raw: Seq<char>) -> Seq<char> {
    if name != "Read"@ || raw.len() == 0 {
        raw
    } else {
        match json_codec::parsed(raw) {
            Ok(input) => json_codec::written(sanitized_input(name, input)),
            Err(_) => raw,
        }
    }
}

pub fn sanitize_anthropic_tool_use_input_json(name: &str, raw: &str) -> (r: String)
    ensures
        r@ == sanitized_input_json(name@, raw@),
{
    if !text::same_text(name, "Read") || raw.is_empty() {
        return raw.to_owned();
    }
    match json_codec::parse(raw) {
        Ok(input) => json_codec::write(&sanitize_anthropic_tool_use_input(name, input)),
        Err(_) => raw.to_owned(),
    }
}

// ---------------------------------------------------------------------------
// Usage and stop reason
// ---------------------------------------------------------------------------

/// Why a response stopped.
pub open spec fn stop_reason(
    status: Option<Seq<char>>,
    has_tool_use: bool,
    incomplete_reason: Option<Seq<char>>,
) -> Option<Seq<char>> {
    match status {
        None => None,
        Some(s) => if s == "completed"@ {
            Some(
                if has_tool_use {
                    "tool_use"@
                } else {
                    "end_turn"@
                },
            )
        } else if s == "incomplete"@ && (incomplete_reason is None || incomplete_reason == Some(
            "max_output_tokens"@,
        ) || incomplete_reason == Some("max_tokens"@)) {
            Some("max_tokens"@)
        } else {
            Some("end_turn"@)
        },
    }
}

pub fn map_responses_stop_reason(
    status: Option<&str>,
    has_tool_use: bool,
    incomplete_reason: Option<&str>,
) -> (r: Option<&'static str>)
    ensures
        text::opt_text(r) == stop_reason(
            text::opt_text(status),
            has_tool_use,
            text::opt_text(incomplete_reason),
        ),
{
    match status {
        None => None,
        Some(s) => {
            if text::same_text(s, "completed") {
                if has_tool_use {
                    Some("tool_use")
                } else {
                    Some("end_turn")
                }
            } else if text::same_text(s, "incomplete") && (incomplete_reason.is_none()
                || text::is_text(incomplete_reason, "max_output_tokens") || text::is_text(
                incomplete_reason,
                "max_tokens",
            )) {
                Some("max_tokens")
            } else {
                Some("end_turn")
            }
        },
    }
}

/// A count under one name, else under another, else zero.
pub open spec fn count_of(usage: JsonView, name: Seq<char>, other: Seq<char>) -> u64 {
    match usage.get_u64(name) {
        Some(n) => n,
        None => match usage.get_u64(other) {
            Some(n) => n,
            None => 0,
        },
    }
}

fn get_count(usage: &Json, name: &str, other: &str) -> (r: u64)
    ensures
        r == count_of(usage@, name@, other@),
{
    match usage.get_u64(name) {
        Some(n) => n,
        None => match usage.get_u64(other) {
            Some(n) => n,
            None => 0,
        },
    }
}

/// A count among the details of the input, under either of their names.
pub open spec fn detail_of(usage: JsonView, name: Seq<char>) -> Option<u64> {
    let first = match usage.get_in("input_tokens_details"@, name) {
        Some(v) => v.as_u64(),
        None => None,
    };
    match first {
        Some(n) => Some(n),
        None => match usage.get_in("prompt_tokens_details"@, name) {
            Some(v) => v.as_u64(),
            None => None,
        },
    }
}

fn get_detail(usage: &Json, name: &str) -> (r: Option<u64>)
    ensures
        r == detail_of(usage@, name@),
{
    let first: Option<u64> = match usage.get_in("input_tokens_details", name) {
        Some(v) => v.as_u64(),
        None => None,
    };
    match first {
        Some(n) => Some(n),
        None => match usage.get_in("prompt_tokens_details", name) {
            Some(v) => v.as_u64(),
            None => None,
        },
    }
}

/// What a usage says of a cache: what stands under its own name, else the count
/// among the details.
pub open spec fn cache_member(usage: JsonView, name: Seq<char>, detail: Seq<char>) -> Option<
    JsonView,
> {
    match usage.get(name) {
        Some(v) => Some(v),
        None => match detail_of(usage, detail) {
            Some(n) => Some(JsonView::number(n)),
            None => None,
        },
    }
}

fn get_cache_member(usage: &Json, name: &str, detail: &str) -> (r: Option<Json>)
    ensures
        (match r {
            Some(j) => Some(j@),
            None => None,
        }) == cache_member(usage@, name@, detail@),
{
    match usage.get(name) {
        Some(v) => Some(v.copy()),
        None => match get_detail(usage, detail) {
            Some(n) => Some(Json::number(n)),
            None => None,
        },
    }
}

/// The count that a member stands for.
pub open spec fn member_count(v: Option<JsonView>) -> u64 {
    match v {
        Some(v) => match v.as_u64() {
            Some(n) => n,
            None => 0,
        },
        None => 0,
    }
}

/// The tokens of the input that came from no cache and went into none.
pub open spec fn fresh_input(input: u64, cache_read: u64, cache_creation: u64) -> u64 {
    if input <= cache_read + cache_creation {
        0
    } else {
        (input - cache_read - cache_creation) as u64
    }
}

/// A usage in terms of the Messages protocol, in which the input does not count
/// what the caches account for.
pub open spec fn anthropic_usage(usage: Option<JsonView>) -> JsonView {
    match usage {
        Some(u) if !(u is Null) => {
            let input = count_of(u, "input_tokens"@, "prompt_tokens"@);
            let output = count_of(u, "output_tokens"@, "completion_tokens"@);
            let read = cache_member(u, "cache_read_input_tokens"@, "cached_tokens"@);
            let creation = cache_member(u, "cache_creation_input_tokens"@, "cache_write_tokens"@);
            let fresh = fresh_input(input, member_count(read), member_count(creation));
            let counts = JsonView::object().with("input_tokens"@, JsonView::number(fresh)).with(
                "output_tokens"@,
                JsonView::number(output),
            );
            with_some(
                with_some(counts, "cache_read_input_tokens"@, read),
                "cache_creation_input_tokens"@,
                creation,
            )
        },
        _ => JsonView::object().with("input_tokens"@, JsonView::number(0)).with(
            "output_tokens"@,
            JsonView::number(0),
        ),
    }
}

fn count_member(v: &Option<Json>) -> (r: u64)
    ensures
        r == member_count(
            match *v {
                Some(j) => Some(j@),
                None => None,
            },
        ),
{
    match v {
        Some(j) => match j.as_u64() {
            Some(n) => n,
            None => 0,
        },
        None => 0,
    }
}

pub fn build_anthropic_usage_from_responses(usage: Option<&Json>) -> (r: Json)
    ensures
        r@ == anthropic_usage(json::opt_view(usage)),
{
    if let Some(u) = usage {
        if !u.is_null() {
            let input: u64 = get_count(u, "input_tokens", "prompt_tokens");
            let output: u64 = get_count(u, "output_tokens", "completion_tokens");
            let read = get_cache_member(u, "cache_read_input_tokens", "cached_tokens");
            let creation = get_cache_member(
                u,
                "cache_creation_input_tokens",
                "cache_write_tokens",
            );
            let fresh: u64 = input.saturating_sub(count_member(&read)).saturating_sub(
                count_member(&creation),
            );
            let mut result = Json::object().with("input_tokens", Json::number(fresh)).with(
                "output_tokens",
                Json::number(output),
            );
            if let Some(v) = read {
                result.set("cache_read_input_tokens", v);
            }
            if let Some(v) = creation {
                result.set("cache_creation_input_tokens", v);
            }
            return result;
        }
    }
    Json::object().with("input_tokens", Json::number(0)).with("output_tokens", Json::number(0))
}

/// A usage with the number of searches, where there were any.
pub open spec fn with_searches(usage: JsonView, searches: u64) -> JsonView {
    if searches > 0 {
        usage.with(
            "server_tool_use"@,
            JsonView::object().with("web_search_requests"@, JsonView::number(searches)),
        )
    } else {
        usage
    }
}

pub fn add_web_search_usage(usage: Json, web_search_requests: u64) -> (r: Json)
    ensures
        r@ == with_searches(usage@, web_search_requests),
{
    let mut usage = usage;
    if web_search_requests > 0 {
        usage.set(
            "server_tool_use",
            Json::object().with("web_search_requests", Json::number(web_search_requests)),
        );
    }
    usage
}

// ---------------------------------------------------------------------------
// Responses
// ---------------------------------------------------------------------------

/// A text of the assistant.
pub open spec fn text_block(s: Seq<char>) -> JsonView {
    JsonView::object().with("type"@, JsonView::Str("text"@)).with("text"@, JsonView::Str(s))
}

fn make_text_block(s: &str) -> (r: Json)
    ensures
        r@ == text_block(s@),
{
    Json::object().with("type", Json::string("text")).with("text", Json::string(s))
}

/// The citations with that of one annotation, where it is shown.
pub open spec fn with_citation(scalars: Seq<char>) -> spec_fn(Seq<JsonView>, JsonView) -> Result<
    Seq<JsonView>,
    ErrorView,
> {
    |citations: Seq<JsonView>, annotation: JsonView|
        match web_search_bridge::shown_citation(annotation, scalars) {
            Err(e) => Err(e),
            Ok(Some(citation)) => Ok(citations.push(citation)),
            Ok(None) => Ok(citations),
        }
}

/// The citations of a text.
pub open spec fn shown_citations(block: JsonView, s: Seq<char>) -> Result<
    Seq<JsonView>,
    ErrorView,
> {
    let annotations = block.items_at("annotations"@);
    seqs::folded(annotations, with_citation(s), Seq::empty(), annotations.len())
}

fn render_citations(block: &Json, s: &str) -> (r: Result<Vec<Json>, ProxyError>)
    ensures
        responses_input::items_result(r) == shown_citations(block@, s@),
{
    let mut out: Vec<Json> = Vec::new();
    assert(json::items_view(out@) =~= Seq::<JsonView>::empty());
    let annotations = match block.get_array("annotations") {
        Some(v) => v,
        None => {
            return Ok(out);
        },
    };
    let ghost views = json::items_view(annotations@);
    let scalars = text::chars_of(s);
    let ghost f = with_citation(s@);
    let mut i: usize = 0;
    while i < annotations.len()
        invariant
            i <= annotations@.len(),
            views == json::items_view(annotations@),
            block@.items_at("annotations"@) == views,
            scalars@ == s@,
            f == with_citation(s@),
            seqs::folded(views, f, Seq::empty(), i as nat) == Ok::<Seq<JsonView>, ErrorView>(
                json::items_view(out@),
            ),
        decreases annotations@.len() - i,
    {
        assert(views[i as int] == annotations@[i as int]@);
        proof {
            if seqs::folded(views, f, Seq::empty(), (i + 1) as nat) is Err {
                seqs::folded_stops(views, f, Seq::empty(), (i + 1) as nat, views.len());
            }
        }
        match web_search_bridge::render_anthropic_citation(&annotations[i], &scalars) {
            Err(e) => {
                return Err(e);
            },
            Ok(Some(citation)) => {
                proof {
                    json::items_push(out@, citation);
                }
                out.push(citation);
            },
            Ok(None) => {},
        }
        i = i + 1;
    }
    Ok(out)
}

/// What one part of a message shows: its text, with its citations where the
/// search is shown, or its refusal.
pub open spec fn shown_part(block: JsonView, with_search: bool) -> Result<
    Seq<JsonView>,
    ErrorView,
> {
    let kind = block.str_or("type"@, ""@);
    if kind == "output_text"@ {
        match reasoning::filled(block, "text"@) {
            None => Ok(Seq::empty()),
            Some(s) => if !with_search {
                Ok(seq![text_block(s)])
            } else {
                match shown_citations(block, s) {
                    Err(e) => Err(e),
                    Ok(citations) => Ok(
                        seq![
                            if citations.len() > 0 {
                                text_block(s).with("citations"@, JsonView::Array(citations))
                            } else {
                                text_block(s)
                            },
                        ],
                    ),
                }
            },
        }
    } else if kind == "refusal"@ {
        match reasoning::filled(block, "refusal"@) {
            None => Ok(Seq::empty()),
            Some(s) => Ok(seq![text_block(s)]),
        }
    } else {
        Ok(Seq::empty())
    }
}

/// The content so far with what one part of a message shows.
pub open spec fn with_shown_part(with_search: bool) -> spec_fn(Seq<JsonView>, JsonView) -> Result<
    Seq<JsonView>,
    ErrorView,
> {
    |content: Seq<JsonView>, block: JsonView|
        match shown_part(block, with_search) {
            Err(e) => Err(e),
            Ok(blocks) => Ok(content + blocks),
        }
}

fn push_block(content: &mut Vec<Json>, block: Json)
    ensures
        json::items_view(final(content)@) == json::items_view(old(content)@) + seq![block@],
{
    proof {
        json::items_push(content@, block);
        assert(json::items_view(content@).push(block@) =~= json::items_view(content@) + seq![block@]);
    }
    content.push(block);
}

fn add_part(content: &mut Vec<Json>, block: &Json, with_search: bool) -> (r: Result<(), ProxyError>)
    ensures
        match r {
            Ok(_) => with_shown_part(with_search)(json::items_view(old(content)@), block@) == Ok::<
                Seq<JsonView>,
                ErrorView,
            >(json::items_view(final(content)@)),
            Err(e) => with_shown_part(with_search)(json::items_view(old(content)@), block@)
                == Err::<Seq<JsonView>, ErrorView>(e@),
        },
{
    let ghost before = json::items_view(content@);
    assert(before + Seq::<JsonView>::empty() =~= before);
    let kind = block.str_or("type", "");
    if text::same_text(kind, "output_text") {
        if let Some(s) = reasoning::get_filled(block, "text") {
            let mut shown = make_text_block(s);
            if with_search {
                match render_citations(block, s) {
                    Err(e) => {
                        return Err(e);
                    },
                    Ok(citations) => {
                        assert(json::items_view(citations@).len() == citations@.len());
                        if citations.len() > 0 {
                            shown.set("citations", Json::Array(citations));
                        }
                    },
                }
            }
            push_block(content, shown);
        }
    } else if text::same_text(kind, "refusal") {
        if let Some(s) = reasoning::get_filled(block, "refusal") {
            push_block(content, make_text_block(s));
        }
    }
    Ok(())
}

/// What a tool call shows.
pub open spec fn tool_use_block(item: JsonView) -> JsonView {
    let name = item.str_or("name"@, ""@);
    let input = match json_codec::parsed(item.str_or("arguments"@, "{}"@)) {
        Ok(v) => v,
        Err(_) => JsonView::object(),
    };
    JsonView::object().with("type"@, JsonView::Str("tool_use"@)).with(
        "id"@,
        JsonView::Str(item.str_or("call_id"@, ""@)),
    ).with("name"@, JsonView::Str(name)).with("input"@, sanitized_input(name, input))
}

fn make_tool_use_block(item: &Json) -> (r: Json)
    ensures
        r@ == tool_use_block(item@),
{
    let name = item.str_or("name", "");
    let input = match json_codec::parse(item.str_or("arguments", "{}")) {
        Ok(v) => v,
        Err(_) => Json::object(),
    };
    Json::object().with("type", Json::string("tool_use")).with(
        "id",
        Json::string(item.str_or("call_id", "")),
    ).with("name", Json::string(name)).with(
        "input",
        sanitize_anthropic_tool_use_input(name, input),
    )
}

/// The text so far with that of one part, where it is of the kind.
pub open spec fn with_part_text(kind: Seq<char>) -> spec_fn(Seq<char>, JsonView) -> Seq<char> {
    |so_far: Seq<char>, part: JsonView|
        if part.says("type"@, kind) {
            so_far + part.str_or("text"@, Seq::empty())
        } else {
            so_far
        }
}

/// The texts of the parts of a kind, in a row.
pub open spec fn part_texts(parts: Seq<JsonView>, kind: Seq<char>) -> Seq<char> {
    seqs::walked(parts, with_part_text(kind), Seq::empty(), parts.len())
}

fn add_part_texts(out: &mut String, parts: Option<&Vec<Json>>, kind: &str)
    ensures
        final(out)@ == old(out)@ + (match json::opt_items(parts) {
            Some(v) => part_texts(v, kind@),
            None => Seq::empty(),
        }),
{
    let ghost before = out@;
    if let Some(parts) = parts {
        let ghost views = json::items_view(parts@);
        let ghost f = with_part_text(kind@);
        let mut i: usize = 0;
        assert(before + Seq::<char>::empty() =~= before);
        while i < parts.len()
            invariant
                i <= parts@.len(),
                views == json::items_view(parts@),
                f == with_part_text(kind@),
                out@ == before + seqs::walked(views, f, Seq::empty(), i as nat),
            decreases parts@.len() - i,
        {
            assert(views[i as int] == parts@[i as int]@);
            let ghost w = seqs::walked(views, f, Seq::empty(), i as nat);
            if parts[i].says("type", kind) {
                if let Some(s) = parts[i].get_str("text") {
                    out.append(s);
                    assert(before + w + s@ =~= before + (w + s@));
                } else {
                    assert(w + Seq::<char>::empty() =~= w);
                }
            }
            i = i + 1;
        }
    } else {
        assert(before + Seq::<char>::empty() =~= before);
    }
}

/// What a reasoning item shows: its summary, and where the search is shown also
/// its text, with a signature, and a redacted block that carries the item.
pub open spec fn shown_reasoning(item: JsonView, with_search: bool) -> Seq<JsonView> {
    let summary = part_texts(item.items_at("summary"@), "summary_text"@);
    let thought = if with_search {
        summary + part_texts(item.items_at("content"@), "reasoning_text"@)
    } else {
        summary
    };
    let thinking = JsonView::object().with("type"@, JsonView::Str("thinking"@)).with(
        "thinking"@,
        JsonView::Str(thought),
    );
    let shown = if thought.len() == 0 {
        Seq::empty()
    } else if with_search {
        seq![thinking.with("signature"@, JsonView::Str(RESPONSES_PROXY_THINKING_SIGNATURE@))]
    } else {
        seq![thinking]
    };
    match reasoning::redacted_block(item) {
        Some(redacted) if with_search => shown + seq![redacted],
        _ => shown,
    }
}

fn add_reasoning(content: &mut Vec<Json>, item: &Json, with_search: bool)
    ensures
        json::items_view(final(content)@) == json::items_view(old(content)@) + shown_reasoning(
            item@,
            with_search,
        ),
        with_search ==> reasoning::reads_back(item@),
{
    let ghost before = json::items_view(content@);
    assert(before + Seq::<JsonView>::empty() =~= before);
    let mut thought = String::new();
    let ghost none = thought@;
    assert(none =~= Seq::<char>::empty());
    add_part_texts(&mut thought, item.get_array("summary"), "summary_text");
    let ghost summary = part_texts(item@.items_at("summary"@), "summary_text"@);
    proof {
        assert(none + summary =~= summary);
    }
    assert(thought@ =~= summary);
    if with_search {
        add_part_texts(&mut thought, item.get_array("content"), "reasoning_text");
        assert(thought@ =~= summary + part_texts(item@.items_at("content"@), "reasoning_text"@));
    }
    if !thought.as_str().is_empty() {
        let mut thinking = Json::object().with("type", Json::string("thinking")).with(
            "thinking",
            Json::Str(thought),
        );
        if with_search {
            thinking.set("signature", Json::string(RESPONSES_PROXY_THINKING_SIGNATURE));
        }
        push_block(content, thinking);
    }
    if with_search {
        if let Some(redacted) = reasoning::responses_reasoning_redacted_block(item) {
            push_block(content, redacted);
        }
    }
    assert(json::items_view(content@) =~= before + shown_reasoning(item@, with_search));
}

/// The content so far with what one output item shows.
pub open spec fn with_shown_item(
    titles: Map<Seq<char>, Seq<char>>,
    with_search: bool,
) -> spec_fn(Seq<JsonView>, JsonView) -> Result<Seq<JsonView>, ErrorView> {
    |content: Seq<JsonView>, item: JsonView|
        {
            let kind = item.str_or("type"@, ""@);
            if kind == "message"@ {
                let parts = item.items_at("content"@);
                seqs::folded(parts, with_shown_part(with_search), content, parts.len())
            } else if kind == "function_call"@ {
                Ok(content + seq![tool_use_block(item)])
            } else if kind == "web_search_call"@ && with_search {
                match web_search_bridge::shown_search(item, titles) {
                    Err(e) => Err(e),
                    Ok((server, result)) => Ok(content + seq![server] + seq![result]),
                }
            } else if kind == "reasoning"@ {
                Ok(content + shown_reasoning(item, with_search))
            } else {
                Ok(content)
            }
        }
}

fn add_parts(content: &mut Vec<Json>, item: &Json, with_search: bool) -> (r: Result<(), ProxyError>)
    ensures
        ({
            let parts = item@.items_at("content"@);
            let all = seqs::folded(
                parts,
                with_shown_part(with_search),
                json::items_view(old(content)@),
                parts.len(),
            );
            match r {
                Ok(_) => all == Ok::<Seq<JsonView>, ErrorView>(json::items_view(final(content)@)),
                Err(e) => all == Err::<Seq<JsonView>, ErrorView>(e@),
            }
        }),
{
    if let Some(parts) = item.get_array("content") {
        let ghost views = json::items_view(parts@);
        let ghost f = with_shown_part(with_search);
        let ghost start = json::items_view(content@);
        let mut i: usize = 0;
        while i < parts.len()
            invariant
                i <= parts@.len(),
                views == json::items_view(parts@),
                item@.items_at("content"@) == views,
                f == with_shown_part(with_search),
                start == json::items_view(old(content)@),
                seqs::folded(views, f, start, i as nat) == Ok::<Seq<JsonView>, ErrorView>(
                    json::items_view(content@),
                ),
            decreases parts@.len() - i,
        {
            assert(views[i as int] == parts@[i as int]@);
            proof {
                if seqs::folded(views, f, start, (i + 1) as nat) is Err {
                    seqs::folded_stops(views, f, start, (i + 1) as nat, views.len());
                }
            }
            if let Err(e) = add_part(content, &parts[i], with_search) {
                return Err(e);
            }
            i = i + 1;
        }
    }
    Ok(())
}

fn add_item(content: &mut Vec<Json>, item: &Json, titles: &Titles, with_search: bool) -> (r: Result<
    (),
    ProxyError,
>)
    ensures
        ({
            let all = with_shown_item(titles@, with_search)(
                json::items_view(old(content)@),
                item@,
            );
            match r {
                Ok(_) => all == Ok::<Seq<JsonView>, ErrorView>(json::items_view(final(content)@)),
                Err(e) => all == Err::<Seq<JsonView>, ErrorView>(e@),
            }
        }),
        with_search && item@.says("type"@, "reasoning"@) ==> reasoning::reads_back(item@),
{
    proof {
        reveal_strlit("reasoning");
        reveal_strlit("message");
        reveal_strlit("function_call");
        reveal_strlit("web_search_call");
        assert("reasoning"@.len() == 9 && "message"@.len() == 7);
        assert("function_call"@.len() == 13 && "web_search_call"@.len() == 15);
    }
    let kind = item.str_or("type", "");
    if text::same_text(kind, "message") {
        return add_parts(content, item, with_search);
    }
    if text::same_text(kind, "function_call") {
        push_block(content, make_tool_use_block(item));
    } else if text::same_text(kind, "web_search_call") && with_search {
        match web_search_bridge::render_anthropic_web_search_blocks(item, titles) {
            Err(e) => {
                return Err(e);
            },
            Ok((server, result)) => {
                push_block(content, server);
                push_block(content, result);
            },
        }
    } else if text::same_text(kind, "reasoning") {
        add_reasoning(content, item, with_search);
    }
    Ok(())
}

/// The content that output items show.
pub open spec fn shown_content(output: Seq<JsonView>, with_search: bool) -> Result<
    Seq<JsonView>,
    ErrorView,
> {
    let titles = if with_search {
        web_search_bridge::cited_titles(output)
    } else {
        Map::empty()
    };
    seqs::folded(output, with_shown_item(titles, with_search), Seq::empty(), output.len())
}

/// Whether a tool is called.
pub open spec fn calls_tool(output: Seq<JsonView>) -> bool {
    exists|i: int|
        0 <= i < output.len() && (#[trigger] output[i]).str_or("type"@, ""@) == "function_call"@
}

fn render_content(output: &Vec<Json>, with_search: bool) -> (r: Result<Vec<Json>, ProxyError>)
    ensures
        responses_input::items_result(r) == shown_content(json::items_view(output@), with_search),
        with_search && r is Ok ==> history_laws::reasoning_reads_back(json::items_view(output@)),
{
    let ghost views = json::items_view(output@);
    let titles = if with_search {
        web_search_bridge::citation_titles_by_exact_url(output)
    } else {
        Titles::new()
    };
    let ghost f = with_shown_item(titles@, with_search);
    let mut content: Vec<Json> = Vec::new();
    let mut i: usize = 0;
    assert(json::items_view(content@) =~= Seq::<JsonView>::empty());
    while i < output.len()
        invariant
            i <= output@.len(),
            views == json::items_view(output@),
            f == with_shown_item(titles@, with_search),
            shown_content(views, with_search) == seqs::folded(views, f, Seq::empty(), views.len()),
            seqs::folded(views, f, Seq::empty(), i as nat) == Ok::<Seq<JsonView>, ErrorView>(
                json::items_view(content@),
            ),
            with_search ==> forall|k: int|
                0 <= k < i && (#[trigger] views[k]).says("type"@, "reasoning"@)
                    ==> reasoning::reads_back(views[k]),
        decreases output@.len() - i,
    {
        assert(views[i as int] == output@[i as int]@);
        proof {
            if seqs::folded(views, f, Seq::empty(), (i + 1) as nat) is Err {
                seqs::folded_stops(views, f, Seq::empty(), (i + 1) as nat, views.len());
            }
        }
        if let Err(e) = add_item(&mut content, &output[i], &titles, with_search) {
            return Err(e);
        }
        i = i + 1;
    }
    Ok(content)
}

fn has_tool_call(output: &Vec<Json>) -> (r: bool)
    ensures
        r == calls_tool(json::items_view(output@)),
{
    let ghost views = json::items_view(output@);
    let mut i: usize = 0;
    while i < output.len()
        invariant
            i <= output@.len(),
            views == json::items_view(output@),
            forall|k: int|
                0 <= k < i ==> (#[trigger] views[k]).str_or("type"@, ""@) != "function_call"@,
        decreases output@.len() - i,
    {
        assert(views[i as int] == output@[i as int]@);
        if text::same_text(output[i].str_or("type", ""), "function_call") {
            return true;
        }
        i = i + 1;
    }
    false
}

pub open spec fn text_or_null(s: Option<Seq<char>>) -> JsonView {
    match s {
        Some(s) => JsonView::Str(s),
        None => JsonView::Null,
    }
}

/// A response of the Responses protocol as a message. With `with_search`, the
/// searches, their citations and encrypted reasoning are shown too.
pub open spec fn bridged_response(body: JsonView, with_search: bool) -> Result<
    JsonView,
    ErrorView,
> {
    match body.get_array("output"@) {
        None => Err(ErrorView::TransformError("No output in response"@)),
        Some(output) => match shown_content(output, with_search) {
            Err(e) => Err(e),
            Ok(content) => {
                let searches = if with_search {
                    web_search_bridge::search_count(output) as u64
                } else {
                    0
                };
                let reason = stop_reason(
                    body.get_str("status"@),
                    calls_tool(output),
                    body.get_str_in("incomplete_details"@, "reason"@),
                );
                Ok(
                    JsonView::object().with("id"@, JsonView::Str(body.str_or("id"@, ""@))).with(
                        "type"@,
                        JsonView::Str("message"@),
                    ).with("role"@, JsonView::Str("assistant"@)).with(
                        "content"@,
                        JsonView::Array(content),
                    ).with("model"@, JsonView::Str(body.str_or("model"@, ""@))).with(
                        "stop_reason"@,
                        text_or_null(reason),
                    ).with("stop_sequence"@, JsonView::Null).with(
                        "usage"@,
                        with_searches(anthropic_usage(body.get("usage"@)), searches),
                    ),
                )
            },
        },
    }
}

/// A response as a message, with or without its searches.
pub fn responses_to_anthropic_impl(body: Json, with_search: bool) -> (r: Result<Json, ProxyError>)
    ensures
        web_search_bridge::json_result(r) == bridged_response(body@, with_search),
        with_search && r is Ok ==> history_laws::reasoning_reads_back(body@.items_at("output"@)),
{
    let output = match body.get_array("output") {
        Some(v) => v,
        None => {
            return Err(ProxyError::TransformError("No output in response".to_owned()));
        },
    };
    let content = match render_content(output, with_search) {
        Ok(v) => v,
        Err(e) => {
            return Err(e);
        },
    };
    let searches: u64 = if with_search {
        web_search_bridge::count_searches(output)
    } else {
        0
    };
    let reason = match map_responses_stop_reason(
        body.get_str("status"),
        has_tool_call(output),
        body.get_str_in("incomplete_details", "reason"),
    ) {
        Some(s) => Json::string(s),
        None => Json::Null,
    };
    let usage = add_web_search_usage(
        build_anthropic_usage_from_responses(body.get("usage")),
        searches,
    );
    Ok(
        Json::object().with("id", Json::string(body.str_or("id", ""))).with(
            "type",
            Json::string("message"),
        ).with("role", Json::string("assistant")).with("content", Json::Array(content)).with(
            "model",
            Json::string(body.str_or("model", "")),
        ).with("stop_reason", reason).with("stop_sequence", Json::Null).with("usage", usage),
    )
}

/// A response as a message.
pub fn responses_to_anthropic(body: Json) -> (r: Result<Json, ProxyError>)
    ensures
        web_search_bridge::json_result(r) == bridged_response(body@, false),
{
    responses_to_anthropic_impl(body, false)
}

/// A response to a request with a hosted search as a message. When the message
/// is sent back, the searches and the reasoning of the response come back.
pub fn responses_to_anthropic_web_search(body: Json) -> (r: Result<Json, ProxyError>)
    ensures
        web_search_bridge::json_result(r) == bridged_response(body@, true),
        r matches Ok(message) ==> history_laws::comes_back(body@, message@),
{
    let ghost response = body@;
    let r = responses_to_anthropic_impl(body, true);
    proof {
        if r is Ok {
            let message = r->Ok_0@;
            assert forall|request: JsonView, cache_key: Option<Seq<char>>, codex: bool, fast: bool|
                history_laws::sends_back(request, message) implies history_laws::lists_history(
                #[trigger] bridged_request(request, cache_key, codex, fast),
                response.items_at("output"@),
            ) by {
                history_laws::search_responses_come_back(response, request, cache_key, codex, fast);
            }
        }
    }
    r
}

} // verus!
