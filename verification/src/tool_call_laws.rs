//! Tool calls, what comes of them, and pictures: each is found again under its
//! own id or address on the other side of the bridge.
use crate::answer_laws;
use crate::conversation_laws;
use crate::conversation_laws::Said;
use crate::json::JsonView;
use crate::json_codec;
use crate::responses_input;
use crate::seqs;
use crate::transform_responses;
use vstd::prelude::*;

verus! {

proof fn item_kinds_differ()
    ensures
        "function_call"@ != "function_call_output"@,
        "text"@ != "tool_use"@,
        "text"@ != "image"@,
        "text"@ != "tool_result"@,
        "image"@ != "tool_use"@,
        "document"@ != "tool_use"@,
        "image"@ != "tool_result"@,
        "document"@ != "tool_result"@,
        "tool_use"@ != "tool_result"@,
{
    reveal_strlit("function_call");
    reveal_strlit("function_call_output");
    reveal_strlit("text");
    reveal_strlit("tool_use");
    reveal_strlit("image");
    reveal_strlit("document");
    reveal_strlit("tool_result");
    assert("function_call"@.len() == 13 && "function_call_output"@.len() == 20);
    assert("text"@.len() == 4 && "tool_use"@.len() == 8 && "image"@.len() == 5);
    assert("document"@.len() == 8 && "tool_result"@.len() == 11);
    assert("document"@[0] == 'd' && "tool_use"@[0] == 't');
}

/// Whether an item of the input is that call.
pub open spec fn is_call(item: JsonView, id: Seq<char>, name: Seq<char>, input: Seq<char>) -> bool {
    &&& item.says("type"@, "function_call"@)
    &&& item.str_or("call_id"@, ""@) == id
    &&& item.str_or("name"@, ""@) == name
    &&& item.str_or("arguments"@, ""@) == input
}

/// Whether an item of the input says what came of the call with that id.
pub open spec fn is_outcome(item: JsonView, id: Seq<char>) -> bool {
    item.says("type"@, "function_call_output"@) && item.str_or("call_id"@, ""@) == id
}

/// Parts of a message are no calls and nothing that came of calls.
proof fn parts_are_no_calls(role: Seq<char>, parts: Seq<JsonView>, said: Said)
    requires
        said is Call || said is Outcome,
    ensures
        !conversation_laws::parts_read(role, parts).contains(said),
{
    let f = conversation_laws::part_read(role);
    seqs::gathered_contains(parts, f, parts.len(), said);
    assert forall|i: int| 0 <= i < parts.len() implies !(#[trigger] f(parts[i])).contains(said) by {
        let one = f(parts[i]);
        if one.contains(said) {
            let k = choose|k: int| 0 <= k < one.len() && one[k] == said;
            assert(one[0] == said);
        }
    }
}

/// A call that is read stands in the input.
proof fn read_calls_stand(
    items: Seq<JsonView>,
    id: Seq<char>,
    name: Seq<char>,
    input: Seq<char>,
)
    requires
        conversation_laws::input_read(items).contains(Said::Call { id, name, input }),
    ensures
        exists|k: int| 0 <= k < items.len() && is_call(#[trigger] items[k], id, name, input),
{
    let said = Said::Call { id, name, input };
    let f = conversation_laws::item_read();
    seqs::gathered_contains(items, f, items.len(), said);
    let i = choose|i: int| 0 <= i < items.len() && (#[trigger] f(items[i])).contains(said);
    let one = f(items[i]);
    let k = choose|k: int| 0 <= k < one.len() && one[k] == said;
    parts_are_no_calls(items[i].str_or("role"@, ""@), items[i].items_at("content"@), said);
    assert(one.contains(said));
    assert(is_call(items[i], id, name, input));
}

/// What came of a call and is read stands in the input.
proof fn read_outcomes_stand(items: Seq<JsonView>, id: Seq<char>, output: JsonView)
    requires
        conversation_laws::input_read(items).contains(Said::Outcome { id, output }),
    ensures
        exists|k: int|
            0 <= k < items.len() && is_outcome(#[trigger] items[k], id) && items[k].get("output"@)
                == Some(output) || 0 <= k < items.len() && is_outcome(items[k], id)
                && items[k].get("output"@) is None && output is Null,
{
    let said = Said::Outcome { id, output };
    let f = conversation_laws::item_read();
    seqs::gathered_contains(items, f, items.len(), said);
    let i = choose|i: int| 0 <= i < items.len() && (#[trigger] f(items[i])).contains(said);
    let one = f(items[i]);
    let k = choose|k: int| 0 <= k < one.len() && one[k] == said;
    parts_are_no_calls(items[i].str_or("role"@, ""@), items[i].items_at("content"@), said);
    assert(one.contains(said));
    assert(is_outcome(items[i], id));
}

/// What a block of a message says is said in the conversation.
proof fn block_is_said(messages: Seq<JsonView>, history: bool, m: int, b: int, said: Said)
    requires
        0 <= m < messages.len(),
        0 <= b < messages[m].items_at("content"@).len(),
        conversation_laws::block_says(messages[m].str_or("role"@, "user"@), history)(
            messages[m].items_at("content"@)[b],
        ).contains(said),
    ensures
        conversation_laws::conversation_says(messages, history).contains(said),
{
    let blocks = messages[m].items_at("content"@);
    let role = messages[m].str_or("role"@, "user"@);
    let f = conversation_laws::block_says(role, history);
    let g = conversation_laws::message_says(history);
    seqs::gathered_contains(blocks, f, blocks.len(), said);
    assert(f(blocks[b]).contains(said));
    assert(g(messages[m]).contains(said));
    seqs::gathered_contains(messages, g, messages.len(), said);
}

/// The call of a tool in a conversation is a call in the input, under the same
/// id, with the same name, and with the text of its input as arguments.
pub proof fn calls_keep_their_ids(messages: Seq<JsonView>, history: bool, m: int, b: int)
    requires
        responses_input::messages_input(messages, history) is Ok,
        0 <= m < messages.len(),
        0 <= b < messages[m].items_at("content"@).len(),
        messages[m].items_at("content"@)[b].says("type"@, "tool_use"@),
    ensures
        ({
            let items = responses_input::messages_input(messages, history)->Ok_0;
            let block = messages[m].items_at("content"@)[b];
            let input = match block.get("input"@) {
                Some(v) => v,
                None => JsonView::Object(Map::empty()),
            };
            exists|k: int|
                0 <= k < items.len() && is_call(
                    #[trigger] items[k],
                    block.str_or("id"@, ""@),
                    block.str_or("name"@, ""@),
                    json_codec::written(input),
                )
        }),
{
    item_kinds_differ();
    let block = messages[m].items_at("content"@)[b];
    let role = messages[m].str_or("role"@, "user"@);
    let items = responses_input::messages_input(messages, history)->Ok_0;
    let input = match block.get("input"@) {
        Some(v) => v,
        None => JsonView::Object(Map::empty()),
    };
    let said = Said::Call {
        id: block.str_or("id"@, ""@),
        name: block.str_or("name"@, ""@),
        input: json_codec::written(input),
    };
    assert(conversation_laws::block_says(role, history)(block)[0] == said);
    block_is_said(messages, history, m, b, said);
    conversation_laws::providers_read_what_clients_say(messages, history);
    read_calls_stand(
        items,
        block.str_or("id"@, ""@),
        block.str_or("name"@, ""@),
        json_codec::written(input),
    );
}

/// What came of a tool call stays with its call: the input says what came of the
/// call with that id. So where a call with the same id is in the conversation,
/// the two stand in the input under one id.
pub proof fn outcomes_stay_with_their_calls(
    messages: Seq<JsonView>,
    history: bool,
    m: int,
    b: int,
    call_m: int,
    call_b: int,
)
    requires
        responses_input::messages_input(messages, history) is Ok,
        0 <= m < messages.len(),
        0 <= b < messages[m].items_at("content"@).len(),
        messages[m].items_at("content"@)[b].says("type"@, "tool_result"@),
        0 <= call_m < messages.len(),
        0 <= call_b < messages[call_m].items_at("content"@).len(),
    ensures
        ({
            let items = responses_input::messages_input(messages, history)->Ok_0;
            let id = messages[m].items_at("content"@)[b].str_or("tool_use_id"@, ""@);
            let call = messages[call_m].items_at("content"@)[call_b];
            &&& exists|k: int| 0 <= k < items.len() && is_outcome(#[trigger] items[k], id)
            &&& call.says("type"@, "tool_use"@) && call.str_or("id"@, ""@) == id ==> exists|k: int|
                0 <= k < items.len() && (#[trigger] items[k]).says("type"@, "function_call"@)
                    && items[k].str_or("call_id"@, ""@) == id
        }),
{
    item_kinds_differ();
    let block = messages[m].items_at("content"@)[b];
    let role = messages[m].str_or("role"@, "user"@);
    let items = responses_input::messages_input(messages, history)->Ok_0;
    let f = conversation_laws::block_says(role, history);
    let said = f(block)[0];
    assert(f(block).contains(said));
    block_is_said(messages, history, m, b, said);
    conversation_laws::providers_read_what_clients_say(messages, history);
    let id = block.str_or("tool_use_id"@, ""@);
    read_outcomes_stand(items, id, said->Outcome_output);
    let call = messages[call_m].items_at("content"@)[call_b];
    if call.says("type"@, "tool_use"@) && call.str_or("id"@, ""@) == id {
        calls_keep_their_ids(messages, history, call_m, call_b);
        let input = match call.get("input"@) {
            Some(v) => v,
            None => JsonView::Object(Map::empty()),
        };
        let k = choose|k: int|
            0 <= k < items.len() && is_call(
                #[trigger] items[k],
                id,
                call.str_or("name"@, ""@),
                json_codec::written(input),
            );
        assert(items[k].says("type"@, "function_call"@));
    }
}

/// Whether a message of the input shows a picture with that address.
pub open spec fn shows_picture(item: JsonView, url: Seq<char>) -> bool {
    exists|p: int|
        0 <= p < item.items_at("content"@).len() && (#[trigger] item.items_at("content"@)[p]).says(
            "type"@,
            "input_image"@,
        ) && item.items_at("content"@)[p].str_or("image_url"@, ""@) == url
}

/// No picture is lost: one that the client sends with its data and its media type
/// is in a message of the input, with the address that those two make.
pub proof fn pictures_are_carried(
    messages: Seq<JsonView>,
    history: bool,
    m: int,
    b: int,
    media_type: Seq<char>,
    data: Seq<char>,
)
    requires
        responses_input::messages_input(messages, history) is Ok,
        0 <= m < messages.len(),
        0 <= b < messages[m].items_at("content"@).len(),
        messages[m].items_at("content"@)[b].says("type"@, "image"@),
        messages[m].items_at("content"@)[b].get("source"@) is Some,
        messages[m].items_at("content"@)[b].get("source"@)->0.says("type"@, "base64"@),
        messages[m].items_at("content"@)[b].get("source"@)->0.says("media_type"@, media_type),
        messages[m].items_at("content"@)[b].get("source"@)->0.says("data"@, data),
        data.len() > 0,
    ensures
        ({
            let items = responses_input::messages_input(messages, history)->Ok_0;
            exists|k: int|
                0 <= k < items.len() && shows_picture(
                    #[trigger] items[k],
                    "data:"@ + media_type + ";base64,"@ + data,
                )
        }),
{
    item_kinds_differ();
    reveal_strlit("url");
    reveal_strlit("base64");
    assert("url"@.len() == 3 && "base64"@.len() == 6);
    let block = messages[m].items_at("content"@)[b];
    let role = messages[m].str_or("role"@, "user"@);
    let items = responses_input::messages_input(messages, history)->Ok_0;
    let url = "data:"@ + media_type + ";base64,"@ + data;
    let said = Said::Picture { role, url };
    let f = conversation_laws::block_says(role, history);
    assert(f(block)[0] == said);
    block_is_said(messages, history, m, b, said);
    conversation_laws::providers_read_what_clients_say(messages, history);
    let g = conversation_laws::item_read();
    seqs::gathered_contains(items, g, items.len(), said);
    let i = choose|i: int| 0 <= i < items.len() && (#[trigger] g(items[i])).contains(said);
    let one = g(items[i]);
    let k = choose|k: int| 0 <= k < one.len() && one[k] == said;
    let parts = items[i].items_at("content"@);
    let h = conversation_laws::part_read(items[i].str_or("role"@, ""@));
    seqs::gathered_contains(parts, h, parts.len(), said);
    let p = choose|p: int| 0 <= p < parts.len() && (#[trigger] h(parts[p])).contains(said);
    let few = h(parts[p]);
    let q = choose|q: int| 0 <= q < few.len() && few[q] == said;
    assert(parts[p].says("type"@, "input_image"@));
    assert(shows_picture(items[i], url));
}

/// Whether a block of a message is that call.
pub open spec fn is_tool_use(block: JsonView, id: Seq<char>, name: Seq<char>, input: JsonView) -> bool {
    &&& block.says("type"@, "tool_use"@)
    &&& block.str_or("id"@, ""@) == id
    &&& block.str_or("name"@, ""@) == name
    &&& block.get("input"@) == Some(input)
}

/// A tool call of a response is in the message under its call id, with its name
/// and the value of its arguments.
pub proof fn answered_calls_are_shown(response: JsonView, searches: bool, i: int)
    requires
        transform_responses::bridged_response(response, searches) is Ok,
        0 <= i < response.items_at("output"@).len(),
        response.items_at("output"@)[i].says("type"@, "function_call"@),
    ensures
        ({
            let content = transform_responses::bridged_response(
                response,
                searches,
            )->Ok_0.items_at("content"@);
            let item = response.items_at("output"@)[i];
            exists|k: int|
                0 <= k < content.len() && is_tool_use(
                    #[trigger] content[k],
                    item.str_or("call_id"@, ""@),
                    item.str_or("name"@, ""@),
                    answer_laws::call_input(item),
                )
        }),
{
    reveal_strlit("message");
    reveal_strlit("function_call");
    assert("message"@.len() == 7 && "function_call"@.len() == 13);
    let output = response.items_at("output"@);
    let item = output[i];
    let content = transform_responses::bridged_response(response, searches)->Ok_0.items_at(
        "content"@,
    );
    let titles = if searches {
        crate::web_search_bridge::cited_titles(output)
    } else {
        Map::empty()
    };
    let f = answer_laws::item_says(titles, searches);
    let said = f(item)[0];
    assert(f(item).contains(said));
    seqs::gathered_contains(output, f, output.len(), said);
    answer_laws::clients_read_what_providers_answer(response, searches);
    let g = answer_laws::block_read();
    seqs::gathered_contains(content, g, content.len(), said);
    let k = choose|k: int| 0 <= k < content.len() && (#[trigger] g(content[k])).contains(said);
    let few = g(content[k]);
    let q = choose|q: int| 0 <= q < few.len() && few[q] == said;
    assert(is_tool_use(
        content[k],
        item.str_or("call_id"@, ""@),
        item.str_or("name"@, ""@),
        answer_laws::call_input(item),
    ));
}

/// A tool call of a response that the client sends back is the same call: it is
/// in the input of the next request under its call id, with its name, and with
/// the text of the value of its arguments.
pub proof fn answered_calls_come_back(
    response: JsonView,
    searches: bool,
    messages: Seq<JsonView>,
    history: bool,
    m: int,
    i: int,
)
    requires
        transform_responses::bridged_response(response, searches) is Ok,
        0 <= i < response.items_at("output"@).len(),
        response.items_at("output"@)[i].says("type"@, "function_call"@),
        responses_input::messages_input(messages, history) is Ok,
        0 <= m < messages.len(),
        messages[m].items_at("content"@) == transform_responses::bridged_response(
            response,
            searches,
        )->Ok_0.items_at("content"@),
    ensures
        ({
            let items = responses_input::messages_input(messages, history)->Ok_0;
            let item = response.items_at("output"@)[i];
            exists|k: int|
                0 <= k < items.len() && is_call(
                    #[trigger] items[k],
                    item.str_or("call_id"@, ""@),
                    item.str_or("name"@, ""@),
                    json_codec::written(answer_laws::call_input(item)),
                )
        }),
{
    let item = response.items_at("output"@)[i];
    let content = messages[m].items_at("content"@);
    answered_calls_are_shown(response, searches, i);
    let b = choose|k: int|
        0 <= k < content.len() && is_tool_use(
            #[trigger] content[k],
            item.str_or("call_id"@, ""@),
            item.str_or("name"@, ""@),
            answer_laws::call_input(item),
        );
    calls_keep_their_ids(messages, history, m, b);
}

} // verus!
