//! Which responses are accepted.
use crate::cited_laws;
use crate::json::JsonView;
use crate::seqs;
use crate::text;
use crate::transform_responses;
use crate::web_search_bridge;
use vstd::prelude::*;

verus! {

/// Whether a member is a text that is more than white space.
pub open spec fn is_filled(v: JsonView, key: Seq<char>) -> bool {
    v.get_str(key) is Some && !text::blank(v.get_str(key)->0)
}

/// Whether a source of a search is a page with a URL.
pub open spec fn is_page(source: JsonView) -> bool {
    source.says("type"@, "url"@) && is_filled(source, "url"@)
}

/// Whether what a search did can be shown: it searched for something and came
/// upon pages, opened a page, or looked for something in one.
pub open spec fn is_known_action(action: JsonView) -> bool {
    ||| {
        &&& action.says("type"@, "search"@)
        &&& is_filled(action, "query"@)
        &&& action.get("sources"@) is Some ==> action.get("sources"@)->0 is Array && forall|i: int|
            0 <= i < action.items_at("sources"@).len() ==> is_page(
                #[trigger] action.items_at("sources"@)[i],
            )
    }
    ||| action.says("type"@, "open_page"@) && is_filled(action, "url"@)
    ||| action.says("type"@, "find_in_page"@) && is_filled(action, "url"@) && is_filled(
        action,
        "pattern"@,
    )
}

/// Whether a search can be shown: it was completed, has an id, and did something
/// that can be shown.
pub open spec fn is_shown_search(item: JsonView) -> bool {
    &&& item.says("status"@, "completed"@)
    &&& is_filled(item, "id"@)
    &&& item.get("action"@) is Some
    &&& item.get("action"@)->0 is Object
    &&& is_known_action(item.get("action"@)->0)
}

/// Whether a part of a message can be shown: each thing that its text cites can be
/// told.
pub open spec fn is_shown_part(part: JsonView) -> bool {
    part.says("type"@, "output_text"@) && part.get_str("text"@) is Some && part.get_str(
        "text"@,
    )->0.len() > 0 ==> forall|i: int|
        0 <= i < part.items_at("annotations"@).len() ==> cited_laws::can_be_told(
            #[trigger] part.items_at("annotations"@)[i],
            part.get_str("text"@)->0,
        )
}

/// Whether an item can be shown to a client that asked for searches.
pub open spec fn is_shown_item(item: JsonView) -> bool {
    &&& item.says("type"@, "message"@) ==> forall|i: int|
        0 <= i < item.items_at("content"@).len() ==> is_shown_part(
            #[trigger] item.items_at("content"@)[i],
        )
    &&& item.says("type"@, "web_search_call"@) ==> is_shown_search(item)
}

proof fn kinds_differ()
    ensures
        "message"@ != "web_search_call"@,
        "message"@ != "function_call"@,
        "message"@ != "reasoning"@,
        "message"@ != ""@,
        "web_search_call"@ != ""@,
        "web_search_call"@ != "function_call"@,
        "output_text"@ != ""@,
        "search"@ != "open_page"@,
        "search"@ != "find_in_page"@,
        "open_page"@ != "find_in_page"@,
{
    reveal_strlit("message");
    reveal_strlit("web_search_call");
    reveal_strlit("function_call");
    reveal_strlit("reasoning");
    reveal_strlit("");
    reveal_strlit("output_text");
    reveal_strlit("search");
    reveal_strlit("open_page");
    reveal_strlit("find_in_page");
    assert("message"@.len() == 7 && "web_search_call"@.len() == 15 && "function_call"@.len() == 13);
    assert("reasoning"@.len() == 9 && ""@.len() == 0 && "output_text"@.len() == 11);
    assert("search"@.len() == 6 && "open_page"@.len() == 9 && "find_in_page"@.len() == 12);
}

/// Sources are read exactly where each is a page.
proof fn sources_are_read(sources: Seq<JsonView>, n: nat)
    requires
        n <= sources.len(),
    ensures
        seqs::collected(sources, web_search_bridge::source_reader(), n) is Ok <==> forall|i: int|
            0 <= i < n ==> is_page(#[trigger] sources[i]),
    decreases n,
{
    if n > 0 {
        sources_are_read(sources, (n - 1) as nat);
    }
}

/// A search is shown exactly where it can be.
pub proof fn searches_are_shown(item: JsonView, titles: Map<Seq<char>, Seq<char>>)
    ensures
        web_search_bridge::shown_search(item, titles) is Ok <==> is_shown_search(item),
{
    kinds_differ();
    if item.get("action"@) is Some {
        let action = item.get("action"@)->0;
        if action.get("sources"@) is Some {
            if let JsonView::Array(sources) = action.get("sources"@)->0 {
                sources_are_read(sources, sources.len());
                assert(action.items_at("sources"@) == sources);
            }
        }
        assert(web_search_bridge::shown_action(action) is Ok <==> is_known_action(action));
    }
}

proof fn parts_are_shown(parts: Seq<JsonView>, start: Seq<JsonView>, n: nat)
    requires
        n <= parts.len(),
    ensures
        seqs::folded(parts, transform_responses::with_shown_part(true), start, n) is Ok
            <==> forall|i: int| 0 <= i < n ==> is_shown_part(#[trigger] parts[i]),
    decreases n,
{
    if n > 0 {
        parts_are_shown(parts, start, (n - 1) as nat);
        kinds_differ();
        let part = parts[n - 1];
        if part.get_str("text"@) is Some {
            cited_laws::clients_are_told_what_is_cited(part, part.get_str("text"@)->0);
        }
        assert(transform_responses::shown_part(part, true) is Ok <==> is_shown_part(part));
    }
}

proof fn items_are_shown(
    output: Seq<JsonView>,
    titles: Map<Seq<char>, Seq<char>>,
    n: nat,
)
    requires
        n <= output.len(),
    ensures
        seqs::folded(
            output,
            transform_responses::with_shown_item(titles, true),
            Seq::empty(),
            n,
        ) is Ok <==> forall|i: int| 0 <= i < n ==> is_shown_item(#[trigger] output[i]),
    decreases n,
{
    if n > 0 {
        items_are_shown(output, titles, (n - 1) as nat);
        kinds_differ();
        let item = output[n - 1];
        let before = seqs::folded(
            output,
            transform_responses::with_shown_item(titles, true),
            Seq::empty(),
            (n - 1) as nat,
        );
        if before is Ok {
            let parts = item.items_at("content"@);
            parts_are_shown(parts, before->Ok_0, parts.len());
            searches_are_shown(item, titles);
        }
    }
}

/// A response to a request with a hosted search becomes a message exactly where it
/// has output and each item of it can be shown.
pub proof fn search_responses_are_accepted(response: JsonView)
    ensures
        transform_responses::bridged_response(response, true) is Ok <==> response.get("output"@)
            is Some && response.get("output"@)->0 is Array && forall|i: int|
            0 <= i < response.items_at("output"@).len() ==> is_shown_item(
                #[trigger] response.items_at("output"@)[i],
            ),
{
    let output = response.items_at("output"@);
    items_are_shown(output, web_search_bridge::cited_titles(output), output.len());
}

/// An output is within the policy exactly where it has no more completed searches
/// than allowed and no search in it is unfinished.
pub proof fn outputs_are_held_to_the_policy(output: Seq<JsonView>, limit: Option<u64>)
    ensures
        web_search_bridge::checked_output(output, limit) is Ok <==> {
            &&& limit is Some ==> web_search_bridge::search_count(output) <= limit->0
            &&& forall|i: int|
                0 <= i < output.len() && (#[trigger] output[i]).says("type"@, "web_search_call"@)
                    ==> output[i].says("status"@, "completed"@)
        },
{
}

} // verus!
