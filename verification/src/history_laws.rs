//! What comes back of a response to a request with a hosted search when the
//! client sends the message that it was shown as a part of the next request.
use crate::error::ErrorView;
use crate::json::JsonView;
use crate::reasoning;
use crate::responses_input;
use crate::responses_input::InputState;
use crate::search_laws;
use crate::seqs;
use crate::transform_responses;
use crate::web_search_bridge;
use vstd::prelude::*;

verus! {

// ---------------------------------------------------------------------------
// What is kept
// ---------------------------------------------------------------------------

/// Whether an item is a web search or reasoning.
pub open spec fn is_history(item: JsonView) -> bool {
    item.says("type"@, "web_search_call"@) || item.says("type"@, "reasoning"@)
}

/// The item, where it is a web search or reasoning.
pub open spec fn history_item() -> spec_fn(JsonView) -> Seq<JsonView> {
    |item: JsonView|
        if is_history(item) {
            seq![item]
        } else {
            Seq::empty()
        }
}

/// The web searches and the reasoning among items, in their order.
pub open spec fn history_of(items: Seq<JsonView>) -> Seq<JsonView> {
    seqs::gathered(items, history_item(), items.len())
}

/// What is kept of an output item: of a web search its id, its action and the
/// URLs of its sources; of reasoning its id and its encrypted content, where it
/// has any.
pub open spec fn kept() -> spec_fn(JsonView) -> Seq<JsonView> {
    |item: JsonView|
        if item.says("type"@, "web_search_call"@) {
            seq![search_laws::kept_item(item)]
        } else if item.says("type"@, "reasoning"@) {
            match reasoning::filled(item, "encrypted_content"@) {
                Some(encrypted) => seq![
                    reasoning::bare_reasoning(encrypted, reasoning::filled(item, "id"@)),
                ],
                None => Seq::empty(),
            }
        } else {
            Seq::empty()
        }
}

/// What is kept of an output, in its order.
pub open spec fn kept_history(output: Seq<JsonView>) -> Seq<JsonView> {
    seqs::gathered(output, kept(), output.len())
}

/// Whether an output is made of web searches and reasoning alone.
pub open spec fn is_history_alone(output: Seq<JsonView>) -> bool {
    forall|i: int| 0 <= i < output.len() ==> is_history(#[trigger] output[i])
}

/// Whether the blocks that carry the reasoning of an output read back as it.
pub open spec fn reasoning_reads_back(output: Seq<JsonView>) -> bool {
    forall|i: int|
        0 <= i < output.len() && (#[trigger] output[i]).says("type"@, "reasoning"@)
            ==> reasoning::reads_back(output[i])
}

// ---------------------------------------------------------------------------
// Names
// ---------------------------------------------------------------------------

/// The kinds of blocks and of items differ from one another.
proof fn kinds_differ()
    ensures
        "text"@.len() == 4,
        "image"@.len() == 5,
        "document"@.len() == 8,
        "tool_use"@.len() == 8,
        "thinking"@.len() == 8,
        "tool_result"@.len() == 11,
        "server_tool_use"@.len() == 15,
        "web_search_tool_result"@.len() == 22,
        "redacted_thinking"@.len() == 17,
        "web_search_call"@.len() == 15,
        "reasoning"@.len() == 9,
        "function_call"@.len() == 13,
        "message"@.len() == 7,
        "web_search"@.len() == 10,
        ""@.len() == 0,
        "tool_use"@ != "document"@,
        "thinking"@ != "document"@,
        "thinking"@ != "tool_use"@,
{
    reveal_strlit("text");
    reveal_strlit("image");
    reveal_strlit("document");
    reveal_strlit("tool_use");
    reveal_strlit("thinking");
    reveal_strlit("tool_result");
    reveal_strlit("server_tool_use");
    reveal_strlit("web_search_tool_result");
    reveal_strlit("redacted_thinking");
    reveal_strlit("web_search_call");
    reveal_strlit("reasoning");
    reveal_strlit("function_call");
    reveal_strlit("message");
    reveal_strlit("web_search");
    reveal_strlit("");
    assert("tool_use"@[1] == 'o' && "document"@[0] == 'd' && "thinking"@[1] == 'h');
    assert("tool_use"@[0] == 't' && "thinking"@[0] == 't');
}

/// The names of members differ from `type`.
proof fn names_differ()
    ensures
        "type"@ != "role"@,
        "type"@ != "content"@,
        "type"@ != "text"@,
        "type"@ != "citations"@,
        "type"@ != "thinking"@,
        "type"@ != "signature"@,
        "type"@ != "data"@,
        "type"@ != "id"@,
        "type"@ != "name"@,
        "type"@ != "input"@,
        "type"@ != "call_id"@,
        "type"@ != "arguments"@,
        "type"@ != "tool_use_id"@,
        "type"@ != "status"@,
        "type"@ != "action"@,
        "type"@ != "summary"@,
        "type"@ != "encrypted_content"@,
        "name"@ != "input"@,
{
    reveal_strlit("type");
    reveal_strlit("role");
    reveal_strlit("content");
    reveal_strlit("text");
    reveal_strlit("citations");
    reveal_strlit("thinking");
    reveal_strlit("signature");
    reveal_strlit("data");
    reveal_strlit("id");
    reveal_strlit("name");
    reveal_strlit("input");
    reveal_strlit("call_id");
    reveal_strlit("arguments");
    reveal_strlit("tool_use_id");
    reveal_strlit("status");
    reveal_strlit("action");
    reveal_strlit("summary");
    reveal_strlit("encrypted_content");
    assert("type"@.len() == 4 && "role"@.len() == 4 && "text"@.len() == 4 && "data"@.len() == 4
        && "name"@.len() == 4);
    assert("type"@[0] == 't' && "type"@[1] == 'y');
    assert("role"@[0] == 'r' && "text"@[1] == 'e' && "data"@[0] == 'd' && "name"@[0] == 'n');
    assert("content"@.len() == 7 && "citations"@.len() == 9 && "thinking"@.len() == 8);
    assert("signature"@.len() == 9 && "id"@.len() == 2 && "input"@.len() == 5);
    assert("call_id"@.len() == 7 && "arguments"@.len() == 9 && "tool_use_id"@.len() == 11);
    assert("status"@.len() == 6 && "action"@.len() == 6 && "summary"@.len() == 7);
    assert("encrypted_content"@.len() == 17);
}

// ---------------------------------------------------------------------------
// Reading the blocks
// ---------------------------------------------------------------------------

/// One item more adds itself to the history, where it belongs there.
proof fn history_push(items: Seq<JsonView>, item: JsonView)
    ensures
        history_of(items.push(item)) == history_of(items) + history_item()(item),
{
    seqs::gathered_push(items, item, history_item());
}

/// The message so far is no part of the history.
proof fn flushing_keeps_history(state: InputState, role: Seq<char>)
    ensures
        history_of(state.flushed(role).items) == history_of(state.items),
        state.flushed(role).parts.len() == 0,
        state.flushed(role).next == state.next,
        state.parts.len() == 0 ==> state.flushed(role).items == state.items,
{
    names_differ();
    if state.parts.len() > 0 {
        let m = responses_input::message(role, state.parts);
        assert(m.get("type"@) is None);
        history_push(state.items, m);
        assert(history_of(state.items) + Seq::<JsonView>::empty() =~= history_of(state.items));
    }
}

/// Whether reading the blocks from one state comes to the same as from another.
spec fn leads_to(
    role: Seq<char>,
    blocks: Seq<JsonView>,
    from: InputState,
    to: InputState,
) -> bool {
    responses_input::after_blocks(role, blocks, true, from) == responses_input::after_blocks(
        role,
        blocks,
        true,
        to,
    )
}

/// Texts add no items.
proof fn read_texts(role: Seq<char>, blocks: Seq<JsonView>, state: InputState, end: int) -> (after:
    InputState)
    requires
        0 <= state.next <= end <= blocks.len(),
        forall|i: int| state.next <= i < end ==> (#[trigger] blocks[i]).says("type"@, "text"@),
    ensures
        after.next == end,
        after.items == state.items,
        leads_to(role, blocks, state, after),
    decreases end - state.next,
{
    if state.next == end {
        state
    } else {
        assert(blocks[state.next].says("type"@, "text"@));
        let next = responses_input::after_block(role, blocks, true, state)->Ok_0;
        assert(next.next == state.next + 1 && next.items == state.items);
        read_texts(role, blocks, next, end)
    }
}

/// The call of a tool is an item, but no part of the history.
proof fn read_tool_use(
    role: Seq<char>,
    blocks: Seq<JsonView>,
    item: JsonView,
    state: InputState,
) -> (after: InputState)
    requires
        0 <= state.next < blocks.len(),
        blocks[state.next] == transform_responses::tool_use_block(item),
    ensures
        after.next == state.next + 1,
        history_of(after.items) == history_of(state.items),
        leads_to(role, blocks, state, after),
{
    kinds_differ();
    names_differ();
    let block = blocks[state.next];
    let call = responses_input::function_call(block);
    let skipped = state.at(state.next + 1);
    let flushed = skipped.flushed(role);
    assert(block.says("type"@, "tool_use"@));
    assert(call.says("type"@, "function_call"@));
    flushing_keeps_history(skipped, role);
    history_push(flushed.items, call);
    assert(history_of(flushed.items) + Seq::<JsonView>::empty() =~= history_of(flushed.items));
    flushed.with_item(call)
}

/// The two blocks of a web search are its item.
proof fn read_search(
    role: Seq<char>,
    blocks: Seq<JsonView>,
    item: JsonView,
    titles: Map<Seq<char>, Seq<char>>,
    state: InputState,
) -> (after: InputState)
    requires
        search_laws::titles_shown(titles),
        web_search_bridge::shown_search(item, titles) is Ok,
        0 <= state.next,
        state.next + 1 < blocks.len(),
        blocks[state.next] == web_search_bridge::shown_search(item, titles)->Ok_0.0,
        blocks[state.next + 1] == web_search_bridge::shown_search(item, titles)->Ok_0.1,
    ensures
        after.next == state.next + 2,
        after.parts.len() == 0,
        history_of(after.items) == history_of(state.items) + seq![search_laws::kept_item(item)],
        state.parts.len() == 0 ==> after.items == state.items + seq![search_laws::kept_item(item)],
        leads_to(role, blocks, state, after),
{
    kinds_differ();
    names_differ();
    let block = blocks[state.next];
    let back = search_laws::kept_item(item);
    let flushed = state.flushed(role);
    assert(block.says("type"@, "server_tool_use"@));
    assert(block.says("name"@, web_search_bridge::WEB_SEARCH_TOOL_NAME@));
    assert(back.says("type"@, "web_search_call"@));
    search_laws::shown_search_folds_back(item, titles, blocks, state.next);
    flushing_keeps_history(state, role);
    history_push(flushed.items, back);
    assert(flushed.items.push(back) =~= flushed.items + seq![back]);
    flushed.with_item(back).at(state.next + 2)
}

/// The blocks of reasoning are its item, where it has encrypted content.
proof fn read_reasoning(
    role: Seq<char>,
    blocks: Seq<JsonView>,
    item: JsonView,
    state: InputState,
) -> (after: InputState)
    requires
        item.says("type"@, "reasoning"@),
        reasoning::reads_back(item),
        0 <= state.next,
        state.next + transform_responses::shown_reasoning(item, true).len() <= blocks.len(),
        forall|i: int|
            0 <= i < transform_responses::shown_reasoning(item, true).len()
                ==> #[trigger] transform_responses::shown_reasoning(item, true)[i]
                == blocks[state.next + i],
    ensures
        after.next == state.next + transform_responses::shown_reasoning(item, true).len(),
        history_of(after.items) == history_of(state.items) + kept()(item),
        state.parts.len() == 0 ==> after.parts.len() == 0 && after.items == state.items
            + kept()(item),
        leads_to(role, blocks, state, after),
{
    kinds_differ();
    names_differ();
    let shown = transform_responses::shown_reasoning(item, true);
    let redacted = reasoning::redacted_block(item);
    let thoughts = if redacted is Some {
        shown.len() - 1
    } else {
        shown.len() as int
    };
    assert(thoughts == 0 || thoughts == 1);
    let mid = if thoughts == 1 {
        assert(shown[0] == blocks[state.next]);
        assert(blocks[state.next].says("type"@, "thinking"@));
        state.at(state.next + 1)
    } else {
        state
    };
    assert(leads_to(role, blocks, state, mid));
    assert(history_of(state.items) + Seq::<JsonView>::empty() =~= history_of(state.items));
    assert(state.items + Seq::<JsonView>::empty() =~= state.items);
    if redacted is Some {
        let block = redacted->0;
        assert(shown[thoughts] == block);
        assert(blocks[mid.next] == block);
        assert(block.says("type"@, "redacted_thinking"@));
        let back = reasoning::bare_reasoning(
            item.get_str("encrypted_content"@)->0,
            reasoning::filled(item, "id"@),
        );
        assert(back.says("type"@, "reasoning"@));
        let skipped = mid.at(mid.next + 1);
        let flushed = skipped.flushed(role);
        flushing_keeps_history(skipped, role);
        history_push(flushed.items, back);
        assert(flushed.items.push(back) =~= flushed.items + seq![back]);
        assert(kept()(item) =~= seq![back]);
        flushed.with_item(back)
    } else {
        mid
    }
}

// ---------------------------------------------------------------------------
// Items and what they show
// ---------------------------------------------------------------------------

/// Whether `b` goes on where `a` ends.
spec fn goes_on(a: Seq<JsonView>, b: Seq<JsonView>) -> bool {
    a.len() <= b.len() && b.take(a.len() as int) == a
}

/// The parts of a message show texts, after what is shown before.
proof fn parts_show_texts(parts: Seq<JsonView>, content: Seq<JsonView>, n: nat)
    requires
        n <= parts.len(),
        seqs::folded(parts, transform_responses::with_shown_part(true), content, n) is Ok,
    ensures
        ({
            let all = seqs::folded(
                parts,
                transform_responses::with_shown_part(true),
                content,
                n,
            )->Ok_0;
            &&& goes_on(content, all)
            &&& forall|i: int|
                content.len() <= i < all.len() ==> (#[trigger] all[i]).says("type"@, "text"@)
        }),
    decreases n,
{
    let f = transform_responses::with_shown_part(true);
    let all = seqs::folded(parts, f, content, n)->Ok_0;
    if n == 0 {
        assert(all.take(content.len() as int) =~= content);
    } else {
        names_differ();
        parts_show_texts(parts, content, (n - 1) as nat);
        let before = seqs::folded(parts, f, content, (n - 1) as nat)->Ok_0;
        let blocks = transform_responses::shown_part(parts[n - 1], true)->Ok_0;
        assert(all == before + blocks);
        assert(forall|i: int| 0 <= i < blocks.len() ==> (#[trigger] blocks[i]).says("type"@, "text"@));
        assert(all.take(content.len() as int) =~= before.take(content.len() as int));
        assert forall|i: int| content.len() <= i < all.len() implies (#[trigger] all[i]).says(
            "type"@,
            "text"@,
        ) by {
            if i < before.len() {
                assert(all[i] == before[i]);
            } else {
                assert(all[i] == blocks[i - before.len()]);
            }
        }
    }
}

/// An item is shown after what is shown before it.
proof fn items_go_on(titles: Map<Seq<char>, Seq<char>>, content: Seq<JsonView>, item: JsonView)
    requires
        transform_responses::with_shown_item(titles, true)(content, item) is Ok,
    ensures
        goes_on(content, transform_responses::with_shown_item(titles, true)(content, item)->Ok_0),
{
    let all = transform_responses::with_shown_item(titles, true)(content, item)->Ok_0;
    if item.str_or("type"@, ""@) == "message"@ {
        let parts = item.items_at("content"@);
        parts_show_texts(parts, content, parts.len());
    } else {
        assert(all.take(content.len() as int) =~= content);
    }
}

/// What an item shows reads back as what is kept of it.
proof fn read_item(
    role: Seq<char>,
    blocks: Seq<JsonView>,
    item: JsonView,
    titles: Map<Seq<char>, Seq<char>>,
    before: Seq<JsonView>,
    state: InputState,
) -> (after: InputState)
    requires
        search_laws::titles_shown(titles),
        item.says("type"@, "reasoning"@) ==> reasoning::reads_back(item),
        transform_responses::with_shown_item(titles, true)(before, item) is Ok,
        goes_on(
            transform_responses::with_shown_item(titles, true)(before, item)->Ok_0,
            blocks,
        ),
        state.next == before.len(),
    ensures
        after.next == transform_responses::with_shown_item(titles, true)(
            before,
            item,
        )->Ok_0.len(),
        history_of(after.items) == history_of(state.items) + kept()(item),
        is_history(item) && state.parts.len() == 0 ==> after.parts.len() == 0 && after.items
            == state.items + kept()(item),
        leads_to(role, blocks, state, after),
{
    kinds_differ();
    let all = transform_responses::with_shown_item(titles, true)(before, item)->Ok_0;
    items_go_on(titles, before, item);
    assert(forall|i: int| 0 <= i < all.len() ==> all[i] == blocks.take(all.len() as int)[i]);
    assert(forall|i: int| 0 <= i < all.len() ==> #[trigger] all[i] == blocks[i]);
    assert(history_of(state.items) + Seq::<JsonView>::empty() =~= history_of(state.items));
    let kind = item.str_or("type"@, ""@);
    if kind == "message"@ {
        let parts = item.items_at("content"@);
        parts_show_texts(parts, before, parts.len());
        assert forall|i: int| state.next <= i < all.len() implies (#[trigger] blocks[i]).says(
            "type"@,
            "text"@,
        ) by {
            assert(all[i] == blocks[i]);
        }
        read_texts(role, blocks, state, all.len() as int)
    } else if kind == "function_call"@ {
        let block = transform_responses::tool_use_block(item);
        assert(all[before.len() as int] == block);
        read_tool_use(role, blocks, item, state)
    } else if kind == "web_search_call"@ {
        let n = before.len() as int;
        let pair = web_search_bridge::shown_search(item, titles)->Ok_0;
        assert(all[n] == pair.0 && all[n + 1] == pair.1);
        read_search(role, blocks, item, titles, state)
    } else if kind == "reasoning"@ {
        let shown = transform_responses::shown_reasoning(item, true);
        assert forall|i: int| 0 <= i < shown.len() implies #[trigger] shown[i] == blocks[state.next
            + i] by {
            assert(all[before.len() + i] == shown[i]);
        }
        read_reasoning(role, blocks, item, state)
    } else {
        state
    }
}

/// What the first `n` items show reads back as what is kept of them.
proof fn read_items(
    role: Seq<char>,
    blocks: Seq<JsonView>,
    output: Seq<JsonView>,
    titles: Map<Seq<char>, Seq<char>>,
    start: InputState,
    n: nat,
) -> (after: InputState)
    requires
        n <= output.len(),
        search_laws::titles_shown(titles),
        reasoning_reads_back(output),
        seqs::folded(
            output,
            transform_responses::with_shown_item(titles, true),
            Seq::empty(),
            n,
        ) is Ok,
        goes_on(
            seqs::folded(
                output,
                transform_responses::with_shown_item(titles, true),
                Seq::empty(),
                n,
            )->Ok_0,
            blocks,
        ),
        start.next == 0,
        start.parts.len() == 0,
    ensures
        after.next == seqs::folded(
            output,
            transform_responses::with_shown_item(titles, true),
            Seq::empty(),
            n,
        )->Ok_0.len(),
        history_of(after.items) == history_of(start.items) + seqs::gathered(output, kept(), n),
        is_history_alone(output) ==> after.parts.len() == 0 && after.items == start.items
            + seqs::gathered(output, kept(), n),
        leads_to(role, blocks, start, after),
    decreases n,
{
    let f = transform_responses::with_shown_item(titles, true);
    if n == 0 {
        assert(history_of(start.items) + Seq::<JsonView>::empty() =~= history_of(start.items));
        assert(start.items + Seq::<JsonView>::empty() =~= start.items);
        start
    } else {
        let item = output[n - 1];
        let before = seqs::folded(output, f, Seq::empty(), (n - 1) as nat)->Ok_0;
        let all = seqs::folded(output, f, Seq::empty(), n)->Ok_0;
        items_go_on(titles, before, item);
        assert(blocks.take(before.len() as int) =~= all.take(before.len() as int));
        let mid = read_items(role, blocks, output, titles, start, (n - 1) as nat);
        let after = read_item(role, blocks, item, titles, before, mid);
        let k = seqs::gathered(output, kept(), (n - 1) as nat);
        assert(history_of(start.items) + k + kept()(item) =~= history_of(start.items) + (k
            + kept()(item)));
        assert(start.items + k + kept()(item) =~= start.items + (k + kept()(item)));
        after
    }
}

// ---------------------------------------------------------------------------
// The laws
// ---------------------------------------------------------------------------

/// A message that was shown of a response, sent back among others, is accepted.
/// It adds to the input the web searches and the reasoning of the response, each
/// as it is kept, in the order of the output; and nothing else where the
/// response had nothing else.
pub proof fn shown_history_comes_back(
    output: Seq<JsonView>,
    message: JsonView,
    items: Seq<JsonView>,
)
    requires
        transform_responses::shown_content(output, true) is Ok,
        reasoning_reads_back(output),
        message.get_array("content"@) == Some(
            transform_responses::shown_content(output, true)->Ok_0,
        ),
    ensures
        ({
            let after = responses_input::after_message(true)(items, message);
            &&& after is Ok
            &&& history_of(after->Ok_0) == history_of(items) + kept_history(output)
            &&& is_history_alone(output) ==> after->Ok_0 == items + kept_history(output)
        }),
{
    let titles = web_search_bridge::cited_titles(output);
    let role = message.str_or("role"@, "user"@);
    let blocks = transform_responses::shown_content(output, true)->Ok_0;
    let start = InputState { items, parts: Seq::empty(), next: 0 };
    search_laws::cited_titles_are_shown(output);
    assert(blocks.take(blocks.len() as int) =~= blocks);
    assert(message.get("content"@) == Some(JsonView::Array(blocks)));
    let end = read_items(role, blocks, output, titles, start, output.len());
    flushing_keeps_history(end, role);
    assert(responses_input::after_blocks(role, blocks, true, end) == Ok::<
        Seq<JsonView>,
        ErrorView,
    >(end.flushed(role).items));
}

/// Whether a request has a hosted search, and one message with the content of
/// `message`.
pub open spec fn sends_back(request: JsonView, message: JsonView) -> bool {
    &&& web_search_bridge::request_policy(request) is Ok
    &&& web_search_bridge::request_policy(request)->Ok_0 is Some
    &&& request.items_at("messages"@).len() == 1
    &&& request.items_at("messages"@)[0].get("content"@) == message.get("content"@)
}

/// Whether a request was accepted, and its input lists what is kept of an
/// output, in the order of the output; and nothing else where the output had
/// nothing else.
pub open spec fn lists_history(bridged: Result<JsonView, ErrorView>, output: Seq<JsonView>) -> bool {
    &&& bridged is Ok
    &&& bridged->Ok_0.get_array("input"@) is Some
    &&& history_of(bridged->Ok_0.items_at("input"@)) == kept_history(output)
    &&& is_history_alone(output) ==> bridged->Ok_0.items_at("input"@) == kept_history(output)
}

/// Whether every request that sends a message back lists what is kept of the
/// response that the message was shown of.
pub open spec fn comes_back(response: JsonView, message: JsonView) -> bool {
    forall|request: JsonView, cache_key: Option<Seq<char>>, codex: bool, fast: bool|
        sends_back(request, message) ==> lists_history(
            #[trigger] transform_responses::bridged_request(request, cache_key, codex, fast),
            response.items_at("output"@),
        )
}

/// Tools that a policy was made of are accepted.
proof fn tools_are_accepted(tools: Seq<JsonView>, n: nat)
    requires
        n <= tools.len(),
        seqs::folded(tools, web_search_bridge::policy_step(), None, n) is Ok,
    ensures
        seqs::folded(tools, transform_responses::with_tool(), Seq::empty(), n) is Ok,
    decreases n,
{
    if n > 0 {
        tools_are_accepted(tools, (n - 1) as nat);
    }
}

/// The names of the members of a request that follow the input differ from it.
proof fn input_is_named_alone()
    ensures
        "input"@ != "max_output_tokens"@,
        "input"@ != "temperature"@,
        "input"@ != "top_p"@,
        "input"@ != "stream"@,
        "input"@ != "reasoning"@,
        "input"@ != "tools"@,
        "input"@ != "include"@,
        "input"@ != "tool_choice"@,
        "input"@ != "parallel_tool_calls"@,
        "input"@ != "prompt_cache_key"@,
        "input"@ != "store"@,
        "input"@ != "service_tier"@,
        "input"@ != "instructions"@,
{
    reveal_strlit("input");
    reveal_strlit("max_output_tokens");
    reveal_strlit("temperature");
    reveal_strlit("top_p");
    reveal_strlit("stream");
    reveal_strlit("reasoning");
    reveal_strlit("tools");
    reveal_strlit("include");
    reveal_strlit("tool_choice");
    reveal_strlit("parallel_tool_calls");
    reveal_strlit("prompt_cache_key");
    reveal_strlit("store");
    reveal_strlit("service_tier");
    reveal_strlit("instructions");
    assert("input"@.len() == 5 && "input"@[0] == 'i');
    assert("top_p"@[0] == 't' && "tools"@[0] == 't' && "store"@[0] == 's');
    assert("max_output_tokens"@.len() == 17 && "temperature"@.len() == 11 && "stream"@.len() == 6);
    assert("reasoning"@.len() == 9 && "include"@.len() == 7 && "tool_choice"@.len() == 11);
    assert("parallel_tool_calls"@.len() == 19 && "prompt_cache_key"@.len() == 16);
    assert("service_tier"@.len() == 12 && "instructions"@.len() == 12);
}

/// The input of a request is that of its messages.
proof fn request_has_its_input(
    request: JsonView,
    cache_key: Option<Seq<char>>,
    codex: bool,
    fast: bool,
    items: Seq<JsonView>,
)
    requires
        web_search_bridge::request_policy(request) is Ok,
        transform_responses::request_input(
            request,
            web_search_bridge::request_policy(request)->Ok_0 is Some,
        ) == Ok::<Option<Seq<JsonView>>, ErrorView>(Some(items)),
    ensures
        transform_responses::bridged_request(request, cache_key, codex, fast) is Ok,
        transform_responses::bridged_request(request, cache_key, codex, fast)->Ok_0.get("input"@)
            == Some(JsonView::Array(items)),
{
    broadcast use vstd::map::group_map_axioms;

    input_is_named_alone();
    let tools = request.items_at("tools"@);
    tools_are_accepted(tools, tools.len());
}

/// The content of a response to a request with a hosted search, sent back as a
/// message of the next such request, is accepted, and gives the web searches and
/// the reasoning of the response in the order of its output.
pub proof fn search_responses_come_back(
    response: JsonView,
    request: JsonView,
    cache_key: Option<Seq<char>>,
    codex: bool,
    fast: bool,
)
    requires
        transform_responses::bridged_response(response, true) is Ok,
        reasoning_reads_back(response.items_at("output"@)),
        sends_back(request, transform_responses::bridged_response(response, true)->Ok_0),
    ensures
        responses_input::messages_input(request.items_at("messages"@), true) is Ok,
        lists_history(
            transform_responses::bridged_request(request, cache_key, codex, fast),
            response.items_at("output"@),
        ),
{
    broadcast use vstd::map::group_map_axioms;

    let output = response.items_at("output"@);
    let shown = transform_responses::bridged_response(response, true)->Ok_0;
    let content = transform_responses::shown_content(output, true)->Ok_0;
    assert(shown.get("content"@) == Some(JsonView::Array(content))) by {
        content_is_named_alone();
    }
    let messages = request.items_at("messages"@);
    let message = messages[0];
    let none = Seq::<JsonView>::empty();
    shown_history_comes_back(output, message, none);
    let f = responses_input::after_message(true);
    reveal_with_fuel(seqs::folded, 2);
    let items = f(none, message)->Ok_0;
    assert(seqs::folded(messages, f, none, 1) == Ok::<Seq<JsonView>, ErrorView>(items));
    request_has_its_input(request, cache_key, codex, fast, items);
    assert(history_of(none) + kept_history(output) =~= kept_history(output));
    assert(none + kept_history(output) =~= kept_history(output));
}

/// The names of the members of a message that follow its content differ from
/// it.
proof fn content_is_named_alone()
    ensures
        "content"@ != "model"@,
        "content"@ != "stop_reason"@,
        "content"@ != "stop_sequence"@,
        "content"@ != "usage"@,
{
    reveal_strlit("content");
    reveal_strlit("model");
    reveal_strlit("stop_reason");
    reveal_strlit("stop_sequence");
    reveal_strlit("usage");
    assert("content"@.len() == 7 && "model"@.len() == 5 && "stop_reason"@.len() == 11);
    assert("stop_sequence"@.len() == 13 && "usage"@.len() == 5);
}

} // verus!
