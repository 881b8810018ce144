//! What a client asks for is what the provider is asked for.
use crate::conversation_laws;
use crate::error::ErrorView;
use crate::json::JsonView;
use crate::json_codec;
use crate::responses_input;
use crate::seqs;
use crate::text;
use crate::transform;
use crate::transform_responses;
use crate::web_search_bridge;
use vstd::prelude::*;

verus! {

// ---------------------------------------------------------------------------
// Names
// ---------------------------------------------------------------------------

/// The names of the members of a request differ from one another.
proof fn names_differ()
    ensures
        "model"@.len() == 5,
        "model"@[0] == 'm',
        "input"@.len() == 5,
        "input"@[0] == 'i',
        "top_p"@.len() == 5,
        "top_p"@[0] == 't',
        "top_p"@[2] == 'p',
        "tools"@.len() == 5,
        "tools"@[0] == 't',
        "tools"@[2] == 'o',
        "store"@.len() == 5,
        "store"@[0] == 's',
        "stream"@.len() == 6,
        "include"@.len() == 7,
        "reasoning"@.len() == 9,
        "temperature"@.len() == 11,
        "temperature"@[1] == 'e',
        "tool_choice"@.len() == 11,
        "tool_choice"@[1] == 'o',
        "instructions"@.len() == 12,
        "instructions"@[0] == 'i',
        "service_tier"@.len() == 12,
        "service_tier"@[0] == 's',
        "prompt_cache_key"@.len() == 16,
        "max_output_tokens"@.len() == 17,
        "parallel_tool_calls"@.len() == 19,
{
    reveal_strlit("model");
    reveal_strlit("input");
    reveal_strlit("top_p");
    reveal_strlit("tools");
    reveal_strlit("store");
    reveal_strlit("stream");
    reveal_strlit("include");
    reveal_strlit("reasoning");
    reveal_strlit("temperature");
    reveal_strlit("tool_choice");
    reveal_strlit("instructions");
    reveal_strlit("service_tier");
    reveal_strlit("prompt_cache_key");
    reveal_strlit("max_output_tokens");
    reveal_strlit("parallel_tool_calls");
}

// ---------------------------------------------------------------------------
// Model and limits
// ---------------------------------------------------------------------------

/// A member that neither tools nor the Codex service touch is what it is in
/// every request.
proof fn common_members_stay(
    body: JsonView,
    cache_key: Option<Seq<char>>,
    codex: bool,
    fast: bool,
    key: Seq<char>,
)
    requires
        transform_responses::bridged_request(body, cache_key, codex, fast) is Ok,
        key != "tools"@,
        key != "include"@,
        key != "tool_choice"@,
        key != "parallel_tool_calls"@,
        key != "prompt_cache_key"@,
        codex ==> key != "store"@ && key != "service_tier"@ && key != "instructions"@ && key
            != "max_output_tokens"@ && key != "temperature"@ && key != "top_p"@,
    ensures
        transform_responses::bridged_request(body, cache_key, codex, fast)->Ok_0.get(key)
            == transform_responses::common_members(
            body,
            transform_responses::request_input(
                body,
                web_search_bridge::request_policy(body)->Ok_0 is Some,
            )->Ok_0,
        ).get(key),
{
    broadcast use vstd::map::group_map_axioms;

}

/// The members that every request has.
proof fn common_members_are(body: JsonView, input: Option<Seq<JsonView>>)
    ensures
        ({
            let r = transform_responses::common_members(body, input);
            &&& r.get_str("model"@) == body.get_str("model"@)
            &&& r.get("max_output_tokens"@) == body.get("max_tokens"@)
            &&& r.get("temperature"@) == body.get("temperature"@)
            &&& r.get("top_p"@) == body.get("top_p"@)
        }),
{
    broadcast use vstd::map::group_map_axioms;

    names_differ();
}

/// The effort in a request.
proof fn common_effort_is(body: JsonView, input: Option<Seq<JsonView>>)
    ensures
        transform_responses::common_members(body, input).get("reasoning"@) == (
        match transform::requested_effort(body) {
            Some(effort) if transform_responses::is_reasoning_request(body) => Some(
                JsonView::object().with("effort"@, JsonView::Str(effort)),
            ),
            _ => None,
        }),
{
    broadcast use vstd::map::group_map_axioms;

    names_differ();
}

/// A request goes to the model that the client named, with the client's limits
/// and the key of its cache. The Codex service takes no limits.
pub proof fn requests_keep_model_and_limits(
    body: JsonView,
    cache_key: Option<Seq<char>>,
    codex: bool,
    fast: bool,
)
    ensures
        transform_responses::bridged_request(body, cache_key, codex, fast) matches Ok(r) ==> {
            &&& r.get_str("model"@) == body.get_str("model"@)
            &&& !codex ==> r.get("max_output_tokens"@) == body.get("max_tokens"@)
            &&& !codex ==> r.get("temperature"@) == body.get("temperature"@)
            &&& !codex ==> r.get("top_p"@) == body.get("top_p"@)
            &&& r.get_str("prompt_cache_key"@) == cache_key
        },
{
    names_differ();
    if transform_responses::bridged_request(body, cache_key, codex, fast) is Ok {
        let input = transform_responses::request_input(
            body,
            web_search_bridge::request_policy(body)->Ok_0 is Some,
        )->Ok_0;
        common_members_are(body, input);
        common_members_stay(body, cache_key, codex, fast, "model"@);
        if !codex {
            common_members_stay(body, cache_key, codex, fast, "max_output_tokens"@);
            common_members_stay(body, cache_key, codex, fast, "temperature"@);
            common_members_stay(body, cache_key, codex, fast, "top_p"@);
        }
        cache_keys_are_sent(body, cache_key, codex, fast);
    }
}

/// The key of the cache is sent where there is one.
proof fn cache_keys_are_sent(
    body: JsonView,
    cache_key: Option<Seq<char>>,
    codex: bool,
    fast: bool,
)
    requires
        transform_responses::bridged_request(body, cache_key, codex, fast) is Ok,
    ensures
        transform_responses::bridged_request(body, cache_key, codex, fast)->Ok_0.get_str(
            "prompt_cache_key"@,
        ) == cache_key,
{
    broadcast use vstd::map::group_map_axioms;

    names_differ();
}

// ---------------------------------------------------------------------------
// The conversation
// ---------------------------------------------------------------------------

/// What a provider reads in the input of a request is what the client says in
/// its messages. Where the client sends no messages, there is no input.
pub proof fn requests_carry_the_conversation(
    body: JsonView,
    cache_key: Option<Seq<char>>,
    codex: bool,
    fast: bool,
)
    ensures
        transform_responses::bridged_request(body, cache_key, codex, fast) matches Ok(r) ==> {
            let history = web_search_bridge::request_policy(body)->Ok_0 is Some;
            match body.get_array("messages"@) {
                None => r.get("input"@) is None,
                Some(messages) => r.get_array("input"@) is Some && conversation_laws::input_read(
                    r.items_at("input"@),
                ) == conversation_laws::conversation_says(messages, history),
            }
        },
{
    broadcast use vstd::map::group_map_axioms;

    names_differ();
    if let Ok(r) = transform_responses::bridged_request(body, cache_key, codex, fast) {
        let history = web_search_bridge::request_policy(body)->Ok_0 is Some;
        if let Some(messages) = body.get_array("messages"@) {
            conversation_laws::providers_read_what_clients_say(messages, history);
            assert(r.get("input"@) == Some(
                JsonView::Array(responses_input::messages_input(messages, history)->Ok_0),
            ));
        }
    }
}

/// A request fails only over a search: one without a hosted search is always
/// accepted.
pub proof fn ordinary_requests_are_accepted(
    body: JsonView,
    cache_key: Option<Seq<char>>,
    codex: bool,
    fast: bool,
)
    requires
        forall|i: int|
            0 <= i < body.items_at("tools"@).len() ==> !(#[trigger] body.items_at(
                "tools"@,
            )[i].get_str("type"@) matches Some(t) && (t == "web_search"@ || text::has_prefix(
                t,
                "web_search_"@,
            ))),
    ensures
        transform_responses::bridged_request(body, cache_key, codex, fast) is Ok,
{
    let tools = body.items_at("tools"@);
    no_search_no_policy(tools, tools.len());
    ordinary_tools_are_accepted(tools, tools.len());
    if let Some(messages) = body.get_array("messages"@) {
        ordinary_messages_are_accepted(messages, messages.len());
    }
}

proof fn no_search_no_policy(tools: Seq<JsonView>, n: nat)
    requires
        n <= tools.len(),
        forall|i: int|
            0 <= i < tools.len() ==> !web_search_bridge::looks_like_search(#[trigger] tools[i]),
    ensures
        seqs::folded(tools, web_search_bridge::policy_step(), None, n) == Ok::<
            Option<Option<u64>>,
            ErrorView,
        >(None),
    decreases n,
{
    if n > 0 {
        no_search_no_policy(tools, (n - 1) as nat);
        assert(!web_search_bridge::looks_like_search(tools[n - 1]));
    }
}

proof fn ordinary_tools_are_accepted(tools: Seq<JsonView>, n: nat)
    requires
        n <= tools.len(),
        forall|i: int|
            0 <= i < tools.len() ==> !web_search_bridge::looks_like_search(#[trigger] tools[i]),
    ensures
        seqs::folded(tools, transform_responses::with_tool(), Seq::empty(), n) is Ok,
    decreases n,
{
    if n > 0 {
        ordinary_tools_are_accepted(tools, (n - 1) as nat);
        assert(!web_search_bridge::looks_like_search(tools[n - 1]));
    }
}

proof fn ordinary_blocks_are_accepted(
    role: Seq<char>,
    blocks: Seq<JsonView>,
    state: responses_input::InputState,
)
    ensures
        responses_input::after_blocks(role, blocks, false, state) is Ok,
    decreases blocks.len() - state.next,
{
    if 0 <= state.next < blocks.len() {
        if let Ok(after) = responses_input::after_block(role, blocks, false, state) {
            if after.next > state.next {
                ordinary_blocks_are_accepted(role, blocks, after);
            }
        }
    }
}

proof fn ordinary_messages_are_accepted(messages: Seq<JsonView>, n: nat)
    requires
        n <= messages.len(),
    ensures
        seqs::folded(messages, responses_input::after_message(false), Seq::empty(), n) is Ok,
    decreases n,
{
    if n > 0 {
        ordinary_messages_are_accepted(messages, (n - 1) as nat);
        let items = seqs::folded(
            messages,
            responses_input::after_message(false),
            Seq::empty(),
            (n - 1) as nat,
        )->Ok_0;
        if let Some(JsonView::Array(blocks)) = messages[n - 1].get("content"@) {
            ordinary_blocks_are_accepted(
                messages[n - 1].str_or("role"@, "user"@),
                blocks,
                responses_input::InputState { items, parts: Seq::empty(), next: 0 },
            );
        }
    }
}

// ---------------------------------------------------------------------------
// Instructions
// ---------------------------------------------------------------------------

/// Whether a text is without a line of billing data at its start.
pub open spec fn is_unbilled(s: Seq<char>) -> bool {
    !conversation_laws::begins_with(s, "x-anthropic-billing-header:"@)
}

/// The system text of a client is the instructions: word for word where it is
/// one text, and as its texts with empty lines between them where it is several.
/// A line of billing data at the start is left out, and nothing else.
pub proof fn system_texts_are_instructions(
    body: JsonView,
    cache_key: Option<Seq<char>>,
    fast: bool,
    s: Seq<char>,
)
    requires
        s.len() > 0,
        is_unbilled(s),
    ensures
        body.get("system"@) == Some(JsonView::Str(s)) ==> (
        transform_responses::bridged_request(body, cache_key, false, fast) matches Ok(r) ==> r.get(
            "instructions"@,
        ) == Some(JsonView::Str(s))),
        body.get("system"@) == Some(JsonView::Str(s)) ==> (
        transform_responses::bridged_request(body, cache_key, true, fast) matches Ok(r) ==> r.get(
            "instructions"@,
        ) == Some(JsonView::Str(s))),
        transform::without_billing_header(s) == s,
        body.get("system"@) is None ==> (transform_responses::bridged_request(
            body,
            cache_key,
            false,
            fast,
        ) matches Ok(r) ==> r.get("instructions"@) is None),
{
    broadcast use vstd::map::group_map_axioms;

    names_differ();
    assert(transform::BILLING_HEADER@ == "x-anthropic-billing-header:"@);
    assert(!text::has_prefix(s, transform::BILLING_HEADER@));
}

/// The texts of blocks.
pub open spec fn block_texts(blocks: Seq<JsonView>) -> Seq<Seq<char>> {
    Seq::new(blocks.len(), |i: int| blocks[i].str_or("text"@, ""@))
}

proof fn system_blocks_are_read(blocks: Seq<JsonView>, n: nat)
    requires
        n <= blocks.len(),
        forall|i: int|
            0 <= i < blocks.len() ==> (#[trigger] blocks[i]).get_str("text"@) is Some
                && blocks[i].get_str("text"@)->0.len() > 0 && is_unbilled(
                blocks[i].get_str("text"@)->0,
            ),
    ensures
        seqs::gathered(blocks, transform_responses::system_text(), n) == block_texts(blocks).take(
            n as int,
        ),
    decreases n,
{
    let all = block_texts(blocks);
    if n > 0 {
        system_blocks_are_read(blocks, (n - 1) as nat);
        let s = blocks[n - 1].get_str("text"@)->0;
        assert(is_unbilled(s));
        assert(!text::has_prefix(s, transform::BILLING_HEADER@));
        assert(all.take(n as int) =~= all.take(n - 1) + seq![s]);
    } else {
        assert(all.take(0) =~= Seq::<Seq<char>>::empty());
    }
}

/// The texts of a system prompt in blocks are all among the instructions, in
/// their order, with an empty line between them.
pub proof fn system_blocks_are_instructions(
    body: JsonView,
    cache_key: Option<Seq<char>>,
    codex: bool,
    fast: bool,
    blocks: Seq<JsonView>,
)
    requires
        body.get("system"@) == Some(JsonView::Array(blocks)),
        blocks.len() > 0,
        forall|i: int|
            0 <= i < blocks.len() ==> (#[trigger] blocks[i]).get_str("text"@) is Some
                && blocks[i].get_str("text"@)->0.len() > 0 && is_unbilled(
                blocks[i].get_str("text"@)->0,
            ),
    ensures
        transform_responses::bridged_request(body, cache_key, codex, fast) matches Ok(r) ==> r.get(
            "instructions"@,
        ) == Some(JsonView::Str(text::joined(block_texts(blocks), "\n\n"@))),
{
    broadcast use vstd::map::group_map_axioms;

    names_differ();
    system_blocks_are_read(blocks, blocks.len());
    let all = block_texts(blocks);
    assert(all.take(all.len() as int) =~= all);
    assert(all.last() == blocks[blocks.len() - 1].get_str("text"@)->0);
    assert(text::joined(all, "\n\n"@).len() > 0);
}

/// Of a text with a line of billing data, what follows that line is kept.
pub proof fn billing_lines_are_left_out(line: Seq<char>, rest: Seq<char>)
    requires
        !is_unbilled(line),
        forall|i: int| 0 <= i < line.len() ==> #[trigger] line[i] != '\n',
    ensures
        transform::without_billing_header(line + seq!['\n'] + rest) == rest,
        transform::without_billing_header(line) == Seq::<char>::empty(),
{
    let s = line + seq!['\n'] + rest;
    let p = "x-anthropic-billing-header:"@;
    assert(s.take(p.len() as int) =~= line.take(p.len() as int));
    text::position_from_is_first(s, '\n', 0);
    assert(s[line.len() as int] == '\n');
    let at = text::position(s, '\n');
    assert forall|i: int| 0 <= i < line.len() implies #[trigger] s[i] != '\n' by {
        assert(s[i] == line[i]);
    }
    assert(at == line.len());
    assert(s.skip(at + 1) =~= rest);
    text::position_from_is_first(line, '\n', 0);
}

// ---------------------------------------------------------------------------
// Tools
// ---------------------------------------------------------------------------

/// A tool that a provider is offered: one of the client by its name, with its
/// description and its parameters, or the search.
#[verifier::ext_equal]
pub enum Offered {
    Tool { name: Seq<char>, description: JsonView, parameters: JsonView },
    Search { domains: Seq<JsonView>, location: Option<JsonView> },
}

/// How a provider reads its tools.
pub open spec fn tool_read() -> spec_fn(JsonView) -> Seq<Offered> {
    |tool: JsonView|
        if tool.says("type"@, "function"@) {
            seq![
                Offered::Tool {
                    name: tool.str_or("name"@, ""@),
                    description: JsonView::or_null(tool.get("description"@)),
                    parameters: JsonView::or_null(tool.get("parameters"@)),
                },
            ]
        } else if tool.says("type"@, "web_search"@) {
            seq![
                Offered::Search {
                    domains: JsonView::or_null(tool.get("filters"@)).items_at("allowed_domains"@),
                    location: tool.get("user_location"@),
                },
            ]
        } else {
            Seq::empty()
        }
}

/// What a client offers. The batch tool is left out.
pub open spec fn tool_offered() -> spec_fn(JsonView) -> Seq<Offered> {
    |tool: JsonView|
        if tool.says("type"@, "BatchTool"@) {
            Seq::empty()
        } else if tool.get_str("type"@) is Some && (tool.says("type"@, "web_search"@)
            || conversation_laws::begins_with(tool.get_str("type"@)->0, "web_search_"@)) {
            seq![
                Offered::Search {
                    domains: tool.items_at("allowed_domains"@),
                    location: tool.get("user_location"@),
                },
            ]
        } else {
            seq![
                Offered::Tool {
                    name: tool.str_or("name"@, ""@),
                    description: JsonView::or_null(tool.get("description"@)),
                    parameters: transform::completed_schema(
                        match tool.get("input_schema"@) {
                            Some(v) => v,
                            None => JsonView::Object(Map::empty()),
                        },
                    ),
                },
            ]
        }
}

proof fn tool_names_differ()
    ensures
        "type"@ != "name"@,
        "type"@ != "description"@,
        "type"@ != "parameters"@,
        "name"@ != "description"@,
        "name"@ != "parameters"@,
        "description"@ != "parameters"@,
        "type"@ != "filters"@,
        "type"@ != "user_location"@,
        "filters"@ != "user_location"@,
        "function"@ != "web_search"@,
{
    reveal_strlit("type");
    reveal_strlit("name");
    reveal_strlit("description");
    reveal_strlit("parameters");
    reveal_strlit("filters");
    reveal_strlit("user_location");
    reveal_strlit("function");
    reveal_strlit("web_search");
    assert("type"@.len() == 4 && "name"@.len() == 4 && "type"@[0] == 't' && "name"@[0] == 'n');
    assert("description"@.len() == 11 && "parameters"@.len() == 10 && "filters"@.len() == 7);
    assert("user_location"@.len() == 13 && "function"@.len() == 8 && "web_search"@.len() == 10);
}

proof fn tool_is_read(tools: Seq<JsonView>, tool: JsonView)
    requires
        transform_responses::with_tool()(tools, tool) is Ok,
    ensures
        ({
            let after = transform_responses::with_tool()(tools, tool)->Ok_0;
            seqs::gathered(after, tool_read(), after.len()) == seqs::gathered(
                tools,
                tool_read(),
                tools.len(),
            ) + tool_offered()(tool)
        }),
{
    tool_names_differ();
    let before = seqs::gathered(tools, tool_read(), tools.len());
    if tool.says("type"@, "BatchTool"@) {
        assert(before + Seq::<Offered>::empty() =~= before);
    } else if web_search_bridge::looks_like_search(tool) {
        let mapped = web_search_bridge::mapped_tool(tool)->Ok_0;
        seqs::gathered_push(tools, mapped, tool_read());
        assert(mapped.says("type"@, "web_search"@));
        assert(JsonView::or_null(mapped.get("filters"@)).items_at("allowed_domains"@)
            =~= tool.items_at("allowed_domains"@));
        assert(mapped.get("user_location"@) == tool.get("user_location"@));
        assert(tool_read()(mapped) =~= tool_offered()(tool));
    } else {
        let mapped = transform_responses::function_tool(tool);
        seqs::gathered_push(tools, mapped, tool_read());
        assert(mapped.says("type"@, "function"@));
        assert(tool_read()(mapped) =~= tool_offered()(tool));
    }
}

proof fn tools_are_read(tools: Seq<JsonView>, n: nat)
    requires
        n <= tools.len(),
        seqs::folded(tools, transform_responses::with_tool(), Seq::empty(), n) is Ok,
    ensures
        ({
            let after = seqs::folded(
                tools,
                transform_responses::with_tool(),
                Seq::empty(),
                n,
            )->Ok_0;
            seqs::gathered(after, tool_read(), after.len()) == seqs::gathered(
                tools,
                tool_offered(),
                n,
            )
        }),
    decreases n,
{
    if n > 0 {
        tools_are_read(tools, (n - 1) as nat);
        let before = seqs::folded(
            tools,
            transform_responses::with_tool(),
            Seq::empty(),
            (n - 1) as nat,
        )->Ok_0;
        tool_is_read(before, tools[n - 1]);
    }
}

/// A provider is offered the tools that the client offers, in their order: each
/// by its name, with its description and its parameters, and the search with
/// its domains and its location.
pub proof fn requests_offer_the_tools(
    body: JsonView,
    cache_key: Option<Seq<char>>,
    codex: bool,
    fast: bool,
)
    ensures
        transform_responses::bridged_request(body, cache_key, codex, fast) matches Ok(r) ==> {
            let own = body.items_at("tools"@);
            let sent = r.items_at("tools"@);
            seqs::gathered(sent, tool_read(), sent.len()) == seqs::gathered(
                own,
                tool_offered(),
                own.len(),
            )
        },
{
    broadcast use vstd::map::group_map_axioms;

    names_differ();
    if let Ok(r) = transform_responses::bridged_request(body, cache_key, codex, fast) {
        let own = body.items_at("tools"@);
        tools_are_read(own, own.len());
        let tools = transform_responses::request_tools(body)->Ok_0;
        assert(r.items_at("tools"@) =~= tools);
    }
}

/// A schema keeps all it says. Only a missing type is added, and properties
/// where an object has none.
pub proof fn schemas_keep_what_they_say(schema: JsonView, key: Seq<char>)
    requires
        schema is Object,
    ensures
        schema.get(key) is Some ==> transform::completed_schema(schema).get(key) == schema.get(key),
        schema.get(key) is None && key != "type"@ && key != "properties"@
            ==> transform::completed_schema(schema).get(key) is None,
        schema.get("type"@) is None ==> transform::completed_schema(schema).says(
            "type"@,
            "object"@,
        ),
{
    broadcast use vstd::map::group_map_axioms;

    reveal_strlit("type");
    reveal_strlit("properties");
    assert("type"@.len() == 4 && "properties"@.len() == 10);
}

/// How a client and a provider name the same choice of a tool.
pub open spec fn same_choice(asked: JsonView, told: JsonView, hosted: bool) -> bool {
    &&& asked.says("type"@, "any"@) ==> told == JsonView::Str("required"@)
    &&& asked.says("type"@, "auto"@) ==> told == JsonView::Str("auto"@)
    &&& asked.says("type"@, "none"@) ==> told == JsonView::Str("none"@)
    &&& asked.says("type"@, "tool"@) && !(hosted && asked.says("name"@, "web_search"@)) ==> {
        &&& told.says("type"@, "function"@)
        &&& told.get_str("name"@) == Some(asked.str_or("name"@, ""@))
    }
    &&& asked.says("type"@, "tool"@) && hosted && asked.says("name"@, "web_search"@) ==> told.says(
        "type"@,
        "web_search"@,
    ) && told.get("name"@) is None
    &&& !(asked is Object) ==> told == asked
}

/// The client's choice of a tool is the provider's, and only where the client
/// asks that no tools run side by side, they do not.
pub proof fn requests_keep_the_choice_of_tools(
    body: JsonView,
    cache_key: Option<Seq<char>>,
    fast: bool,
)
    ensures
        transform_responses::bridged_request(body, cache_key, false, fast) matches Ok(r) ==> {
            let hosted = web_search_bridge::request_policy(body)->Ok_0 is Some;
            match body.get("tool_choice"@) {
                None => r.get("tool_choice"@) is None && r.get("parallel_tool_calls"@) is None,
                Some(asked) => {
                    &&& r.get("tool_choice"@) is Some
                    &&& same_choice(asked, r.get("tool_choice"@)->0, hosted)
                    &&& r.get("parallel_tool_calls"@) == (if hosted && asked.get(
                        "disable_parallel_tool_use"@,
                    ) == Some(JsonView::Bool(true)) {
                        Some(JsonView::Bool(false))
                    } else {
                        None
                    })
                },
            }
        },
{
    broadcast use vstd::map::group_map_axioms;

    names_differ();
    tool_names_differ();
    reveal_strlit("any");
    reveal_strlit("auto");
    reveal_strlit("none");
    reveal_strlit("tool");
    reveal_strlit("");
    assert("any"@.len() == 3 && "auto"@.len() == 4 && "none"@.len() == 4 && "tool"@.len() == 4);
    assert("auto"@[0] == 'a' && "none"@[0] == 'n' && "tool"@[0] == 't');
    assert(""@.len() == 0);
    reveal_strlit("web_search");
    assert("web_search"@.len() == 10);
}

// ---------------------------------------------------------------------------
// Effort
// ---------------------------------------------------------------------------

/// Which models take an effort: the GPT models from the fifth on, and those of
/// the o-series; earlier GPT models and others do not.
pub proof fn models_that_take_an_effort(version: char, rest: Seq<char>)
    requires
        '0' <= version <= '9',
    ensures
        transform::takes_effort("gpt-"@ + seq![version] + rest) <==> '5' <= version,
        transform::takes_effort("GPT-"@ + seq![version] + rest) <==> '5' <= version,
        transform::takes_effort(seq!['o', version] + rest),
        rest.len() > 0 && rest[0] != 'o' && rest[0] != 'g' && rest[0] != 'G'
            ==> !transform::takes_effort(rest),
{
    reveal_strlit("gpt-");
    reveal_strlit("GPT-");
    let a = "gpt-"@ + seq![version] + rest;
    let b = "GPT-"@ + seq![version] + rest;
    assert(a[0] == 'g' && b[0] == 'G');
    assert(text::lowered(a).take(4) =~= "gpt-"@);
    assert(text::lowered(b).take(4) =~= "gpt-"@);
    assert(text::lowered(a).skip(4)[0] == version);
    assert(text::lowered(b).skip(4)[0] == version);
    let d = text::lowered(rest);
    if rest.len() >= 4 && rest[0] != 'g' && rest[0] != 'G' {
        assert(d[0] == text::lower(rest[0]));
        assert(d.take(4)[0] != "gpt-"@[0]);
    }
    let e = seq!['o', version] + rest;
    assert(e[0] == 'o' && e[1] == version);
}

/// The effort that a client asks for is asked of a model that takes one: what it
/// names, with its highest as the provider calls it; else by its budget of
/// thinking, of which more is never less effort. No other model is asked.
pub proof fn requests_ask_for_the_effort(
    body: JsonView,
    cache_key: Option<Seq<char>>,
    codex: bool,
    fast: bool,
    effort: Seq<char>,
)
    ensures
        transform_responses::bridged_request(body, cache_key, codex, fast) matches Ok(r) ==> {
            let asked = r.get_str_in("reasoning"@, "effort"@);
            &&& !transform_responses::is_reasoning_request(body) ==> r.get("reasoning"@) is None
            &&& transform_responses::is_reasoning_request(body) && body.get_str_in(
                "output_config"@,
                "effort"@,
            ) == Some(effort) ==> {
                &&& (effort == "low"@ || effort == "medium"@ || effort == "high"@) ==> asked
                    == Some(effort)
                &&& effort == "max"@ ==> asked == Some("xhigh"@)
            }
            &&& transform_responses::is_reasoning_request(body) && body.get_str_in(
                "output_config"@,
                "effort"@,
            ) is None && body.get("thinking"@) is Some ==> {
                let thinking = body.get("thinking"@)->0;
                let budget = thinking.get_u64("budget_tokens"@);
                &&& thinking.says("type"@, "adaptive"@) ==> asked == Some("xhigh"@)
                &&& thinking.says("type"@, "disabled"@) ==> r.get("reasoning"@) is None
                &&& thinking.says("type"@, "enabled"@) ==> {
                    &&& budget is None ==> asked == Some("high"@)
                    &&& budget matches Some(n) ==> asked == Some(
                        if n < 4000 {
                            "low"@
                        } else if n < 16000 {
                            "medium"@
                        } else {
                            "high"@
                        },
                    )
                }
            }
        },
{
    names_differ();
    if transform_responses::bridged_request(body, cache_key, codex, fast) is Ok {
        common_effort_is(
            body,
            transform_responses::request_input(
                body,
                web_search_bridge::request_policy(body)->Ok_0 is Some,
            )->Ok_0,
        );
        common_members_stay(body, cache_key, codex, fast, "reasoning"@);
    }
    reveal_strlit("low");
    reveal_strlit("medium");
    reveal_strlit("high");
    reveal_strlit("max");
    reveal_strlit("adaptive");
    reveal_strlit("enabled");
    reveal_strlit("disabled");
    assert("low"@.len() == 3 && "max"@.len() == 3 && "low"@[0] == 'l' && "max"@[0] == 'm');
    assert("medium"@.len() == 6 && "high"@.len() == 4);
    assert("adaptive"@.len() == 8 && "disabled"@.len() == 8 && "enabled"@.len() == 7);
    assert("adaptive"@[0] == 'a' && "disabled"@[0] == 'd');
}

/// What a request asks to be told besides: the sources of its searches where it
/// has any, and sealed reasoning where it goes to the Codex service, or has a
/// search and goes to a model that reasons. What the client itself asked for
/// stays. Else nothing is asked for.
pub proof fn requests_ask_to_be_told(
    body: JsonView,
    cache_key: Option<Seq<char>>,
    codex: bool,
    fast: bool,
    asked: Seq<char>,
)
    ensures
        ({
            let r = transform_responses::bridged_request(body, cache_key, codex, fast);
            let told = r->Ok_0.items_at("include"@);
            let search = web_search_bridge::request_policy(body)->Ok_0 is Some;
            let model = body.get_str("model"@);
            r is Ok ==> {
                &&& search ==> told.contains(JsonView::Str("web_search_call.action.sources"@))
                &&& codex || (search && model is Some && transform::takes_effort(model->0))
                    ==> told.contains(JsonView::Str("reasoning.encrypted_content"@))
                &&& !codex && !search ==> r->Ok_0.get("include"@) is None
                &&& (codex || search) && body.items_at("include"@).contains(JsonView::Str(asked))
                    ==> told.contains(JsonView::Str(asked))
            }
        }),
{
    broadcast use vstd::map::group_map_axioms;

    names_differ();
    if let Ok(policy) = web_search_bridge::request_policy(body) {
        let own = body.items_at("include"@);
        let sources = transform_responses::with_string(own, "web_search_call.action.sources"@);
        string_is_added(own, "web_search_call.action.sources"@, asked);
        string_is_added(sources, "reasoning.encrypted_content"@, asked);
        string_is_added(
            sources,
            "reasoning.encrypted_content"@,
            "web_search_call.action.sources"@,
        );
        string_is_added(own, "reasoning.encrypted_content"@, asked);
    }
}

proof fn string_is_added(v: Seq<JsonView>, s: Seq<char>, other: Seq<char>)
    ensures
        transform_responses::with_string(v, s).contains(JsonView::Str(s)),
        v.contains(JsonView::Str(other)) ==> transform_responses::with_string(v, s).contains(
            JsonView::Str(other),
        ),
{
    let out = transform_responses::with_string(v, s);
    if !v.contains(JsonView::Str(s)) {
        assert(out[v.len() as int] == JsonView::Str(s));
        if v.contains(JsonView::Str(other)) {
            let i = choose|i: int| 0 <= i < v.len() && v[i] == JsonView::Str(other);
            assert(out[i] == JsonView::Str(other));
        }
    }
}

/// The input of a call is kept as it is, but that the `Read` tool is not given
/// empty pages; in text it is the same.
pub proof fn inputs_of_calls_are_kept(name: Seq<char>, input: JsonView, raw: Seq<char>, key: Seq<char>)
    ensures
        name != "Read"@ ==> transform_responses::sanitized_input(name, input) == input,
        !input.says("pages"@, ""@) ==> transform_responses::sanitized_input(name, input) == input,
        key != "pages"@ ==> transform_responses::sanitized_input(name, input).get(key) == input.get(
            key,
        ),
        input.says("pages"@, ""@) ==> transform_responses::sanitized_input("Read"@, input).get(
            "pages"@,
        ) is None,
        name != "Read"@ || json_codec::parsed(raw) is Err
            ==> transform_responses::sanitized_input_json(name, raw) == raw,
        raw.len() > 0 && json_codec::parsed(raw) is Ok ==> transform_responses::sanitized_input_json(
            "Read"@,
            raw,
        ) == json_codec::written(
            transform_responses::sanitized_input("Read"@, json_codec::parsed(raw)->Ok_0),
        ),
{
    broadcast use vstd::map::group_map_axioms;

}

} // verus!
