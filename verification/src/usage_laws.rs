//! Why a response stopped, and what it used.
use crate::json::JsonView;
use crate::seqs;
use crate::transform_responses;
use crate::web_search_bridge;
use vstd::prelude::*;

verus! {

proof fn message_names_differ()
    ensures
        "stop_reason"@ != "stop_sequence"@,
        "stop_reason"@ != "usage"@,
        "stop_sequence"@ != "usage"@,
{
    reveal_strlit("stop_reason");
    reveal_strlit("stop_sequence");
    reveal_strlit("usage");
    assert("stop_reason"@.len() == 11 && "stop_sequence"@.len() == 13 && "usage"@.len() == 5);
}

proof fn usage_names_differ()
    ensures
        "input_tokens"@.len() == 12,
        "output_tokens"@.len() == 13,
        "cache_read_input_tokens"@.len() == 23,
        "cache_creation_input_tokens"@.len() == 27,
        "server_tool_use"@.len() == 15,
{
    reveal_strlit("input_tokens");
    reveal_strlit("output_tokens");
    reveal_strlit("cache_read_input_tokens");
    reveal_strlit("cache_creation_input_tokens");
    reveal_strlit("server_tool_use");
}

// ---------------------------------------------------------------------------
// Why a response stopped
// ---------------------------------------------------------------------------

/// Whether an output has a call.
pub open spec fn has_call(output: Seq<JsonView>) -> bool {
    exists|i: int| 0 <= i < output.len() && (#[trigger] output[i]).says("type"@, "function_call"@)
}

/// A message says why the response stopped: for a call where there is one, at
/// its end, or at the limit of its length. Where the response does not say how
/// it is, the message does not say why it stopped.
pub proof fn messages_say_why_they_stopped(response: JsonView, searches: bool)
    ensures
        transform_responses::bridged_response(response, searches) matches Ok(r) ==> {
            let reason = response.get_str_in("incomplete_details"@, "reason"@);
            let too_long = reason is None || reason == Some("max_output_tokens"@) || reason == Some(
                "max_tokens"@,
            );
            r.get("stop_reason"@) == Some(
                if response.get_str("status"@) is None {
                    JsonView::Null
                } else if response.says("status"@, "completed"@) && has_call(
                    response.items_at("output"@),
                ) {
                    JsonView::Str("tool_use"@)
                } else if response.says("status"@, "incomplete"@) && too_long {
                    JsonView::Str("max_tokens"@)
                } else {
                    JsonView::Str("end_turn"@)
                },
            )
        },
{
    broadcast use vstd::map::group_map_axioms;

    message_names_differ();
    reveal_strlit("completed");
    reveal_strlit("incomplete");
    reveal_strlit("function_call");
    reveal_strlit("");
    assert("completed"@.len() == 9 && "incomplete"@.len() == 10);
    assert("function_call"@.len() == 13 && ""@.len() == 0);
    let output = response.items_at("output"@);
    assert(transform_responses::calls_tool(output) == has_call(output)) by {
        if transform_responses::calls_tool(output) {
            let i = choose|i: int|
                0 <= i < output.len() && (#[trigger] output[i]).str_or("type"@, ""@)
                    == "function_call"@;
            assert(output[i].says("type"@, "function_call"@));
        }
        if has_call(output) {
            let i = choose|i: int|
                0 <= i < output.len() && (#[trigger] output[i]).says("type"@, "function_call"@);
            assert(output[i].str_or("type"@, ""@) == "function_call"@);
        }
    }
}

// ---------------------------------------------------------------------------
// What a response used
// ---------------------------------------------------------------------------

/// How many of the first `n` items are searches that were completed.
pub open spec fn completed_searches(output: Seq<JsonView>, n: nat) -> nat
    decreases n,
{
    if n == 0 {
        0
    } else {
        let item = output[n - 1];
        completed_searches(output, (n - 1) as nat) + (if item.says("type"@, "web_search_call"@)
            && item.says("status"@, "completed"@) && item.get("action"@) is Some
            && item.get("action"@)->0.says("type"@, "search"@) {
            1nat
        } else {
            0nat
        })
    }
}

proof fn searches_are_counted(output: Seq<JsonView>, n: nat)
    ensures
        seqs::counted(
            output,
            |item: JsonView| web_search_bridge::is_completed_search(item),
            n,
        ) == completed_searches(output, n),
    decreases n,
{
    if n > 0 {
        searches_are_counted(output, (n - 1) as nat);
    }
}

/// The number that a usage gives under one of two names, the first before the
/// second.
pub open spec fn number_in(usage: JsonView, name: Seq<char>, other: Seq<char>) -> u64 {
    if usage.get_u64(name) is Some {
        usage.get_u64(name)->0
    } else if usage.get_u64(other) is Some {
        usage.get_u64(other)->0
    } else {
        0
    }
}

/// The number that a usage gives among the details of its input.
pub open spec fn number_among_details(usage: JsonView, name: Seq<char>) -> Option<u64> {
    let first = JsonView::or_null(usage.get("input_tokens_details"@)).get_u64(name);
    let second = JsonView::or_null(usage.get("prompt_tokens_details"@)).get_u64(name);
    if first is Some {
        first
    } else {
        second
    }
}

/// A message tells what the response used: the tokens that were put out as they
/// are, those of the caches as the provider tells them, under its own names or
/// among its details, and of the input those that no cache accounts for; and how
/// many searches were completed, where there were any.
pub proof fn messages_tell_what_was_used(response: JsonView, searches: bool)
    requires
        response.get("usage"@) is Some,
        !(response.get("usage"@)->0 is Null),
        response.items_at("output"@).len() <= u64::MAX,
    ensures
        transform_responses::bridged_response(response, searches) matches Ok(r) ==> {
            let used = response.get("usage"@)->0;
            let told = r.get("usage"@)->0;
            let output = response.items_at("output"@);
            let input = number_in(used, "input_tokens"@, "prompt_tokens"@);
            let read = told.get_u64("cache_read_input_tokens"@);
            let written = told.get_u64("cache_creation_input_tokens"@);
            let cached = (if read is Some {
                read->0 as int
            } else {
                0
            }) + (if written is Some {
                written->0 as int
            } else {
                0
            });
            &&& r.get("usage"@) is Some
            &&& told.get_u64("output_tokens"@) == Some(
                number_in(used, "output_tokens"@, "completion_tokens"@),
            )
            &&& told.get_u64("input_tokens"@) is Some
            &&& told.get_u64("input_tokens"@)->0 == (if input <= cached {
                0
            } else {
                input - cached
            })
            &&& used.get("cache_read_input_tokens"@) is Some ==> told.get(
                "cache_read_input_tokens"@,
            ) == used.get("cache_read_input_tokens"@)
            &&& used.get("cache_read_input_tokens"@) is None ==> read == number_among_details(
                used,
                "cached_tokens"@,
            )
            &&& used.get("cache_creation_input_tokens"@) is Some ==> told.get(
                "cache_creation_input_tokens"@,
            ) == used.get("cache_creation_input_tokens"@)
            &&& used.get("cache_creation_input_tokens"@) is None ==> written
                == number_among_details(used, "cache_write_tokens"@)
            &&& JsonView::or_null(told.get("server_tool_use"@)).get_u64("web_search_requests"@)
                == (if searches && completed_searches(output, output.len()) > 0 {
                Some(completed_searches(output, output.len()) as u64)
            } else {
                None
            })
        },
{
    broadcast use vstd::map::group_map_axioms;

    message_names_differ();
    usage_names_differ();
    let output = response.items_at("output"@);
    searches_are_counted(output, output.len());
    few_searches(output, output.len());
}

proof fn few_searches(output: Seq<JsonView>, n: nat)
    ensures
        completed_searches(output, n) <= n,
    decreases n,
{
    if n > 0 {
        few_searches(output, (n - 1) as nat);
    }
}

} // verus!
