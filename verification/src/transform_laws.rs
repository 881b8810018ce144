//! What holds of the bridge between the two protocols as a whole.
use crate::json::JsonView;
use crate::seqs;
use crate::transform_responses;
use crate::transform_responses::REASONING_INCLUDE;
use crate::web_search_bridge;
use crate::web_search_bridge::WEB_SEARCH_SOURCES_INCLUDE;
use vstd::prelude::*;

verus! {

// ---------------------------------------------------------------------------
// Requests
// ---------------------------------------------------------------------------

/// The lengths of the names of the members of a request.
proof fn name_lengths()
    ensures
        "model"@.len() == 5,
        "instructions"@.len() == 12,
        "input"@.len() == 5,
        "max_output_tokens"@.len() == 17,
        "temperature"@.len() == 11,
        "top_p"@.len() == 5,
        "stream"@.len() == 6,
        "reasoning"@.len() == 9,
        "tools"@.len() == 5,
        "include"@.len() == 7,
        "tool_choice"@.len() == 11,
        "parallel_tool_calls"@.len() == 19,
        "prompt_cache_key"@.len() == 16,
        "store"@.len() == 5,
        "service_tier"@.len() == 12,
        "max_tool_calls"@.len() == 14,
        "store"@[0] == 's',
        "model"@[0] == 'm',
        "input"@[0] == 'i',
        "top_p"@[0] == 't',
        "tools"@[0] == 't',
        "top_p"@[2] == 'p',
        "tools"@[2] == 'o',
        "temperature"@[1] == 'e',
        "tool_choice"@[1] == 'o',
        "instructions"@[0] == 'i',
        "service_tier"@[0] == 's',
{
    reveal_strlit("model");
    reveal_strlit("instructions");
    reveal_strlit("input");
    reveal_strlit("max_output_tokens");
    reveal_strlit("temperature");
    reveal_strlit("top_p");
    reveal_strlit("stream");
    reveal_strlit("reasoning");
    reveal_strlit("tools");
    reveal_strlit("include");
    reveal_strlit("tool_choice");
    reveal_strlit("parallel_tool_calls");
    reveal_strlit("prompt_cache_key");
    reveal_strlit("store");
    reveal_strlit("service_tier");
    reveal_strlit("max_tool_calls");
}

/// Every request streams, whatever the client asked for, and none limits the
/// number of tool calls: that limit would count more than searches.
pub proof fn every_request_streams(
    body: JsonView,
    cache_key: Option<Seq<char>>,
    is_codex_oauth: bool,
    codex_fast_mode: bool,
)
    ensures
        transform_responses::bridged_request(
            body,
            cache_key,
            is_codex_oauth,
            codex_fast_mode,
        ) matches Ok(r) ==> r.get("stream"@) == Some(JsonView::Bool(true)) && r.get(
            "max_tool_calls"@,
        ) is None,
{
    broadcast use vstd::map::group_map_axioms;

    name_lengths();
}

/// A request for the Codex service stores nothing, has no limits of its own, asks
/// for encrypted reasoning, and has instructions, tools and a word on parallel
/// calls whether or not the client sent any.
pub proof fn codex_requests_keep_the_contract(
    body: JsonView,
    cache_key: Option<Seq<char>>,
    codex_fast_mode: bool,
)
    ensures
        transform_responses::bridged_request(body, cache_key, true, codex_fast_mode) matches Ok(
            r,
        ) ==> {
            &&& r.get("store"@) == Some(JsonView::Bool(false))
            &&& r.get("service_tier"@) == (if codex_fast_mode {
                Some(JsonView::Str("priority"@))
            } else {
                None
            })
            &&& r.get("max_output_tokens"@) is None
            &&& r.get("temperature"@) is None
            &&& r.get("top_p"@) is None
            &&& r.get("instructions"@) is Some
            &&& r.get("tools"@) is Some
            &&& r.get("parallel_tool_calls"@) is Some
            &&& transform_responses::has_string(r.items_at("include"@), REASONING_INCLUDE@)
        },
{
    broadcast use vstd::map::group_map_axioms;

    name_lengths();
    if let Ok(policy) = web_search_bridge::request_policy(body) {
        let asked = body.items_at("include"@);
        strings_are_added(asked, WEB_SEARCH_SOURCES_INCLUDE@, REASONING_INCLUDE@);
        strings_are_added(
            transform_responses::with_string(asked, WEB_SEARCH_SOURCES_INCLUDE@),
            REASONING_INCLUDE@,
            WEB_SEARCH_SOURCES_INCLUDE@,
        );
        strings_are_added(asked, REASONING_INCLUDE@, WEB_SEARCH_SOURCES_INCLUDE@);
    }
}

/// A string that is added is there, and one that was there stays.
proof fn strings_are_added(v: Seq<JsonView>, s: Seq<char>, other: Seq<char>)
    ensures
        transform_responses::has_string(transform_responses::with_string(v, s), s),
        transform_responses::has_string(v, other) ==> transform_responses::has_string(
            transform_responses::with_string(v, s),
            other,
        ),
{
    let out = transform_responses::with_string(v, s);
    if !transform_responses::has_string(v, s) {
        assert(out[v.len() as int] == JsonView::Str(s));
        if transform_responses::has_string(v, other) {
            let i = choose|i: int| 0 <= i < v.len() && v[i] == JsonView::Str(other);
            assert(out[i] == JsonView::Str(other));
        }
    }
}

/// A request with a hosted search asks for the sources of its searches, and keeps
/// all that the client itself asked to be told.
pub proof fn hosted_searches_ask_for_sources(
    body: JsonView,
    cache_key: Option<Seq<char>>,
    is_codex_oauth: bool,
    codex_fast_mode: bool,
    asked: Seq<char>,
)
    requires
        web_search_bridge::request_policy(body) matches Ok(Some(_)),
    ensures
        transform_responses::bridged_request(
            body,
            cache_key,
            is_codex_oauth,
            codex_fast_mode,
        ) matches Ok(r) ==> {
            &&& transform_responses::has_string(
                r.items_at("include"@),
                WEB_SEARCH_SOURCES_INCLUDE@,
            )
            &&& transform_responses::has_string(body.items_at("include"@), asked)
                ==> transform_responses::has_string(r.items_at("include"@), asked)
        },
{
    broadcast use vstd::map::group_map_axioms;

    name_lengths();
    let own = body.items_at("include"@);
    let sources = transform_responses::with_string(own, WEB_SEARCH_SOURCES_INCLUDE@);
    strings_are_added(own, WEB_SEARCH_SOURCES_INCLUDE@, asked);
    strings_are_added(sources, REASONING_INCLUDE@, asked);
    strings_are_added(sources, REASONING_INCLUDE@, WEB_SEARCH_SOURCES_INCLUDE@);
}

// ---------------------------------------------------------------------------
// Responses
// ---------------------------------------------------------------------------

/// The tokens of the input are counted once: those that are fresh, those that
/// came from the cache and those that went into it add up to what the provider
/// counted, where it counts no more in the caches than in all.
pub proof fn usage_buckets_add_up(usage: JsonView)
    requires
        !(usage is Null),
        ({
            let read = transform_responses::cache_member(
                usage,
                "cache_read_input_tokens"@,
                "cached_tokens"@,
            );
            let creation = transform_responses::cache_member(
                usage,
                "cache_creation_input_tokens"@,
                "cache_write_tokens"@,
            );
            transform_responses::member_count(read) + transform_responses::member_count(creation)
                <= transform_responses::count_of(usage, "input_tokens"@, "prompt_tokens"@)
        }),
    ensures
        ({
            let shown = transform_responses::anthropic_usage(Some(usage));
            transform_responses::member_count(shown.get("input_tokens"@))
                + transform_responses::member_count(shown.get("cache_read_input_tokens"@))
                + transform_responses::member_count(shown.get("cache_creation_input_tokens"@))
                == transform_responses::count_of(usage, "input_tokens"@, "prompt_tokens"@)
        }),
{
    broadcast use vstd::map::group_map_axioms;

    reveal_strlit("input_tokens");
    reveal_strlit("output_tokens");
    reveal_strlit("cache_read_input_tokens");
    reveal_strlit("cache_creation_input_tokens");
    assert("input_tokens"@.len() == 12);
    assert("output_tokens"@.len() == 13);
    assert("cache_read_input_tokens"@.len() == 23);
    assert("cache_creation_input_tokens"@.len() == 27);
}

/// Without a hosted search no item and no citation can make a response fail.
proof fn ordinary_parts_are_shown(parts: Seq<JsonView>, content: Seq<JsonView>, n: nat)
    ensures
        seqs::folded(parts, transform_responses::with_shown_part(false), content, n) is Ok,
    decreases n,
{
    if n > 0 {
        ordinary_parts_are_shown(parts, content, (n - 1) as nat);
    }
}

proof fn ordinary_items_are_shown(output: Seq<JsonView>, n: nat)
    ensures
        seqs::folded(
            output,
            transform_responses::with_shown_item(Map::empty(), false),
            Seq::empty(),
            n,
        ) is Ok,
    decreases n,
{
    if n > 0 {
        ordinary_items_are_shown(output, (n - 1) as nat);
        let f = transform_responses::with_shown_item(Map::empty(), false);
        let content = seqs::folded(output, f, Seq::empty(), (n - 1) as nat)->Ok_0;
        let parts = output[n - 1].items_at("content"@);
        ordinary_parts_are_shown(parts, content, parts.len());
    }
}

/// A response to a request without a hosted search becomes a message wherever it
/// has output: no search and no citation in it can make it fail.
pub proof fn ordinary_responses_do_not_fail(body: JsonView)
    ensures
        transform_responses::bridged_response(body, false) is Ok <==> body.get_array("output"@) is Some,
{
    if let Some(output) = body.get_array("output"@) {
        ordinary_items_are_shown(output, output.len());
    }
}

proof fn folded_without<A, S, E>(
    s: Seq<A>,
    f: spec_fn(S, A) -> Result<S, E>,
    start: S,
    i: int,
    n: nat,
)
    requires
        0 <= i < n <= s.len(),
        forall|state: S| #[trigger] f(state, s[i]) == Ok::<S, E>(state),
    ensures
        seqs::folded(s.remove(i), f, start, (n - 1) as nat) == seqs::folded(s, f, start, n),
    decreases n,
{
    let t = s.remove(i);
    if n == i + 1 {
        folded_prefix(s, t, f, start, i as nat);
    } else {
        folded_without(s, f, start, i, (n - 1) as nat);
        assert(t[n - 2] == s[n - 1]);
    }
}

proof fn folded_prefix<A, S, E>(
    s: Seq<A>,
    t: Seq<A>,
    f: spec_fn(S, A) -> Result<S, E>,
    start: S,
    n: nat,
)
    requires
        n <= s.len(),
        n <= t.len(),
        forall|k: int| 0 <= k < n ==> s[k] == t[k],
    ensures
        seqs::folded(s, f, start, n) == seqs::folded(t, f, start, n),
    decreases n,
{
    if n > 0 {
        folded_prefix(s, t, f, start, (n - 1) as nat);
        assert(s[n - 1] == t[n - 1]);
    }
}

/// Without a hosted search a search in the output leaves no trace in the content.
pub proof fn ordinary_content_ignores_searches(output: Seq<JsonView>, i: int)
    requires
        0 <= i < output.len(),
        output[i].str_or("type"@, ""@) == "web_search_call"@,
    ensures
        transform_responses::shown_content(output.remove(i), false)
            == transform_responses::shown_content(output, false),
{
    reveal_strlit("web_search_call");
    reveal_strlit("message");
    reveal_strlit("function_call");
    reveal_strlit("reasoning");
    assert("web_search_call"@.len() == 15);
    assert("message"@.len() == 7);
    assert("function_call"@.len() == 13);
    assert("reasoning"@.len() == 9);
    folded_without(
        output,
        transform_responses::with_shown_item(Map::empty(), false),
        Seq::<JsonView>::empty(),
        i,
        output.len(),
    );
}

/// Every message is one of the assistant, without a stop sequence.
pub proof fn messages_are_of_the_assistant(body: JsonView, with_search: bool)
    ensures
        transform_responses::bridged_response(body, with_search) matches Ok(r) ==> {
            &&& r.get("type"@) == Some(JsonView::Str("message"@))
            &&& r.get("role"@) == Some(JsonView::Str("assistant"@))
            &&& r.get("stop_sequence"@) == Some(JsonView::Null)
        },
{
    broadcast use vstd::map::group_map_axioms;

    reveal_strlit("id");
    reveal_strlit("type");
    reveal_strlit("role");
    reveal_strlit("content");
    reveal_strlit("model");
    reveal_strlit("stop_reason");
    reveal_strlit("stop_sequence");
    reveal_strlit("usage");
    assert("id"@.len() == 2);
    assert("type"@.len() == 4 && "type"@[0] == 't');
    assert("role"@.len() == 4 && "role"@[0] == 'r');
    assert("content"@.len() == 7);
    assert("model"@.len() == 5);
    assert("stop_reason"@.len() == 11);
    assert("stop_sequence"@.len() == 13);
    assert("usage"@.len() == 5);
}

} // verus!
