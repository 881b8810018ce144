//! What holds of a streamed response with a hosted search as a whole.
use crate::error::ErrorView;
use crate::json::JsonView;
use crate::json_codec;
use crate::seqs;
use crate::sse;
use crate::sse_laws;
use crate::text;
use crate::text_laws;
use crate::transform_responses;
use crate::web_search_bridge;
use crate::web_search_stream;
use crate::web_search_stream::{BufferedView, StreamView};
use vstd::prelude::*;

verus! {

/// Whether a message is made: the stream was closed, every item that was begun
/// is done, each search completed, and there were no more searches than the
/// policy allows.
pub proof fn sealed_responses_keep_the_policy(
    state: BufferedView,
    limit: Option<u64>,
    response: JsonView,
)
    requires
        web_search_stream::sealed_response(state, limit) == Ok::<JsonView, Seq<char>>(response),
        state.wf(),
    ensures
        ({
            let output = response.items_at("output"@);
            &&& output == web_search_stream::items_of(state.done)
            &&& web_search_bridge::permits(limit, web_search_bridge::search_count(output))
            &&& web_search_bridge::all_completed(output)
            &&& forall|i: int|
                0 <= i < state.added.len() ==> web_search_stream::numbers(state.done).contains(
                    #[trigger] state.added[i],
                )
        }),
{
    broadcast use vstd::map::group_map_axioms;

    let done = web_search_stream::numbers(state.done);
    assert forall|i: int| 0 <= i < state.added.len() implies done.contains(
        #[trigger] state.added[i],
    ) by {
        missing_number_counts(state.added, done, i, state.added.len());
    }
}

/// A number that is missing is among the missing ones.
proof fn missing_number_counts(added: Seq<u64>, done: Seq<u64>, i: int, n: nat)
    requires
        0 <= i < n <= added.len(),
    ensures
        !done.contains(added[i]) ==> seqs::gathered(
            added,
            web_search_stream::is_missing(done),
            n,
        ).len() > 0,
    decreases n,
{
    if i < n - 1 {
        missing_number_counts(added, done, i, (n - 1) as nat);
    }
}

/// What closes a stream closes it: every later event is an error.
pub proof fn nothing_follows_the_end(state: BufferedView, event: Seq<char>, data: JsonView)
    requires
        state.terminal is Some,
    ensures
        web_search_stream::ingested(state, event, data) is Err,
{
}

/// An item that is done is never lost or changed by a later event.
pub proof fn done_items_stay(
    state: BufferedView,
    event: Seq<char>,
    data: JsonView,
    next: BufferedView,
    n: u64,
    item: JsonView,
)
    requires
        web_search_stream::ingested(state, event, data) == Ok::<BufferedView, Seq<char>>(next),
        state.wf(),
        state.done.contains((n, item)),
    ensures
        next.done.contains((n, item)),
{
    if event == "response.output_item.done"@ && event != "response.output_item.added"@ {
        let m = data.get_u64("output_index"@)->0;
        let done_item = web_search_stream::done_item(data)->Ok_0;
        let p = web_search_stream::slot(web_search_stream::numbers(state.done), m);
        web_search_stream::slot_is(web_search_stream::numbers(state.done), m, 0);
        let i = choose|i: int| 0 <= i < state.done.len() && state.done[i] == (n, item);
        if !(p < state.done.len() && state.done[p].0 == m) {
            let after = state.done.insert(p, (m, done_item));
            if i < p {
                assert(after[i] == (n, item));
            } else {
                assert(after[i + 1] == (n, item));
            }
        }
    }
}

/// Once something has gone wrong, no more bytes change that.
pub proof fn failures_stay(state: StreamView, bytes: Seq<u8>)
    requires
        state.failure is Some,
    ensures
        web_search_stream::after_chunk(state, bytes).failure == state.failure,
        web_search_stream::after_chunk(state, bytes).response == state.response,
{
}

/// A message for an error is at most one line of bounded length.
pub proof fn error_messages_are_bounded(message: Seq<char>)
    ensures
        web_search_stream::bounded(message).len() <= 243,
{
    reveal_strlit("...");
    assert("..."@.len() == 3);
}

// ---------------------------------------------------------------------------
// Events one by one
// ---------------------------------------------------------------------------

/// The item that is done under a number.
pub open spec fn is_done(state: BufferedView, n: u64, item: JsonView) -> bool {
    state.done.contains((n, item))
}

/// Whether any item is done under a number.
pub open spec fn has_done(state: BufferedView, n: u64) -> bool {
    exists|item: JsonView| #[trigger] is_done(state, n, item)
}

/// Whether a member is a string that is more than white space.
pub open spec fn is_filled(v: JsonView, key: Seq<char>) -> bool {
    v.get_str(key) is Some && !text::blank(v.get_str(key)->0)
}

/// The kinds of events that a response is made of.
proof fn kinds_differ()
    ensures
        "response.output_item.added"@ != "response.output_item.done"@,
        "response.output_item.added"@ != "response.completed"@,
        "response.output_item.done"@ != "response.completed"@,
        "response.output_item.added"@ != "response.failed"@,
        "response.output_item.added"@ != "response.cancelled"@,
        "response.output_item.added"@ != "response.incomplete"@,
        "response.output_item.added"@ != "error"@,
        "response.output_item.added"@ != "response.error"@,
        "response.output_item.done"@ != "response.failed"@,
        "response.output_item.done"@ != "response.cancelled"@,
        "response.output_item.done"@ != "response.incomplete"@,
        "response.output_item.done"@ != "error"@,
        "response.output_item.done"@ != "response.error"@,
        "response.completed"@ != "response.failed"@,
        "response.completed"@ != "response.cancelled"@,
        "response.completed"@ != "response.incomplete"@,
        "response.completed"@ != "error"@,
        "response.completed"@ != "response.error"@,
{
    reveal_strlit("response.output_item.added");
    reveal_strlit("response.output_item.done");
    reveal_strlit("response.completed");
    reveal_strlit("response.failed");
    reveal_strlit("response.cancelled");
    reveal_strlit("response.incomplete");
    reveal_strlit("error");
    reveal_strlit("response.error");
    assert("response.output_item.added"@.len() == 26);
    assert("response.output_item.done"@.len() == 25);
    assert("response.completed"@.len() == 18);
    assert("response.failed"@.len() == 15);
    assert("response.cancelled"@.len() == 18);
    assert("response.incomplete"@.len() == 19);
    assert("error"@.len() == 5);
    assert("response.error"@.len() == 14);
    assert("response.completed"@[10] == 'o' && "response.cancelled"@[10] == 'a');
}

/// An item that is begun is counted under its number, beside those that were
/// begun before; nothing else changes. Without a number the event is an error.
pub proof fn items_begun_are_counted(state: BufferedView, data: JsonView)
    requires
        state.wf(),
        state.terminal is None,
    ensures
        ({
            let r = web_search_stream::ingested(state, "response.output_item.added"@, data);
            match data.get_u64("output_index"@) {
                None => r is Err,
                Some(n) => {
                    &&& r is Ok
                    &&& r->Ok_0.wf()
                    &&& forall|m: u64| #[trigger]
                        r->Ok_0.added.contains(m) <==> m == n || state.added.contains(m)
                    &&& r->Ok_0.done == state.done
                    &&& r->Ok_0.terminal is None
                },
            }
        }),
{
    if let Some(n) = data.get_u64("output_index"@) {
        web_search_stream::with_number_ascending(state.added, n);
    }
}

/// An item that is done is kept under its number, whole, beside those that were
/// done before, where it has a number, an id and a type and no other item is
/// done under that number. Nothing else changes. The items stand in the order of
/// their numbers, whatever the order in which they came.
pub proof fn items_done_are_kept(state: BufferedView, data: JsonView, n: u64, item: JsonView)
    requires
        state.wf(),
        state.terminal is None,
        data.get_u64("output_index"@) == Some(n),
        data.get("item"@) == Some(item),
        is_filled(item, "id"@),
        is_filled(item, "type"@),
        !has_done(state, n),
    ensures
        ({
            let r = web_search_stream::ingested(state, "response.output_item.done"@, data);
            &&& r is Ok
            &&& r->Ok_0.wf()
            &&& forall|m: u64, other: JsonView| #[trigger]
                is_done(r->Ok_0, m, other) <==> (m == n && other == item) || is_done(
                    state,
                    m,
                    other,
                )
            &&& r->Ok_0.done.len() == state.done.len() + 1
            &&& r->Ok_0.added == state.added
            &&& r->Ok_0.terminal is None
        }),
{
    kinds_differ();
    let ns = web_search_stream::numbers(state.done);
    web_search_stream::slot_is(ns, n, 0);
    let p = web_search_stream::slot(ns, n);
    if p < state.done.len() && state.done[p].0 == n {
        assert(is_done(state, n, state.done[p].1));
    }
    let after = state.done.insert(p, (n, item));
    web_search_stream::with_number_ascending(ns, n);
    assert(p < ns.len() ==> ns[p] == state.done[p].0);
    assert(web_search_stream::numbers(after) =~= web_search_stream::with_number(ns, n));
    let r = web_search_stream::ingested(state, "response.output_item.done"@, data);
    assert(r->Ok_0.done == after);
    assert forall|m: u64, other: JsonView| #[trigger]
        is_done(r->Ok_0, m, other) <==> (m == n && other == item) || is_done(state, m, other) by {
        let e = (m, other);
        if after.contains(e) {
            let i = choose|i: int| 0 <= i < after.len() && after[i] == e;
            if i < p {
                assert(state.done[i] == e);
            } else if i > p {
                assert(state.done[i - 1] == e);
            }
        }
        assert(after[p] == (n, item));
        if state.done.contains(e) {
            let i = choose|i: int| 0 <= i < state.done.len() && state.done[i] == e;
            if i < p {
                assert(after[i] == e);
            } else {
                assert(after[i + 1] == e);
            }
        }
    }
}

/// An item that is done cannot be changed: another one under its number is an
/// error, and one that says the same changes nothing.
pub proof fn items_done_cannot_change(
    state: BufferedView,
    data: JsonView,
    n: u64,
    before: JsonView,
    item: JsonView,
)
    requires
        state.wf(),
        state.terminal is None,
        data.get_u64("output_index"@) == Some(n),
        data.get("item"@) == Some(item),
        is_filled(item, "id"@),
        is_filled(item, "type"@),
        is_done(state, n, before),
    ensures
        ({
            let r = web_search_stream::ingested(state, "response.output_item.done"@, data);
            if before.agrees(item) {
                r == Ok::<BufferedView, Seq<char>>(state)
            } else {
                r is Err
            }
        }),
{
    kinds_differ();
    let ns = web_search_stream::numbers(state.done);
    web_search_stream::slot_is(ns, n, 0);
    let p = web_search_stream::slot(ns, n);
    let i = choose|i: int| 0 <= i < state.done.len() && state.done[i] == (n, before);
    assert(ns[i] == n);
    if p < i {
        assert(ns[p] < ns[i]);
    }
    assert(p == i);
}

/// An item that is done and has no number, no id or no type is an error, and so
/// is an event without an item.
pub proof fn items_done_must_be_whole(state: BufferedView, data: JsonView)
    requires
        state.terminal is None,
        data.get_u64("output_index"@) is None || data.get("item"@) is None || !is_filled(
            data.get("item"@)->0,
            "id"@,
        ) || !is_filled(data.get("item"@)->0, "type"@),
    ensures
        web_search_stream::ingested(state, "response.output_item.done"@, data) is Err,
{
    kinds_differ();
}

/// Whether an event ends a response without completing it.
pub open spec fn breaks_off(event: Seq<char>) -> bool {
    ||| event == "response.failed"@
    ||| event == "response.cancelled"@
    ||| event == "response.incomplete"@
    ||| event == "response.error"@
    ||| event == "error"@
}

/// A response that ends without being completed is an error.
pub proof fn unfinished_responses_are_errors(
    state: BufferedView,
    event: Seq<char>,
    data: JsonView,
)
    requires
        breaks_off(event),
    ensures
        web_search_stream::ingested(state, event, data) is Err,
{
    kinds_differ();
}

/// Any event but those that begin, complete or end something changes nothing.
pub proof fn other_events_change_nothing(state: BufferedView, event: Seq<char>, data: JsonView)
    requires
        state.terminal is None,
        !breaks_off(event),
        event != "response.output_item.added"@,
        event != "response.output_item.done"@,
        event != "response.completed"@,
    ensures
        web_search_stream::ingested(state, event, data) == Ok::<BufferedView, Seq<char>>(state),
{
}

/// The numbers below a number are among those that are counted.
proof fn numbers_below_are_counted(added: Seq<u64>, n: nat)
    requires
        web_search_stream::ascending(added),
        n <= u64::MAX,
    ensures
        ({
            let all = web_search_stream::with_numbers_below(added, n);
            &&& web_search_stream::ascending(all)
            &&& forall|m: u64| #[trigger] all.contains(m) <==> m < n || added.contains(m)
        }),
    decreases n,
{
    if n > 0 {
        numbers_below_are_counted(added, (n - 1) as nat);
        web_search_stream::with_number_ascending(
            web_search_stream::with_numbers_below(added, (n - 1) as nat),
            (n - 1) as u64,
        );
    }
}

/// A response is completed by an event that says so and has no error. All its
/// members are kept but its output, and each of the items that stand there counts
/// as begun; nothing that is done changes.
pub proof fn completed_responses_are_closed(state: BufferedView, data: JsonView, response: JsonView)
    requires
        state.wf(),
        state.terminal is None,
        data.get("response"@) == Some(response),
        response.items_at("output"@).len() <= u64::MAX,
    ensures
        ({
            let r = web_search_stream::ingested(state, "response.completed"@, data);
            if response.says("status"@, "completed"@) && (response.get("error"@) is None
                || response.get("error"@) == Some(JsonView::Null)) {
                &&& r is Ok
                &&& r->Ok_0.wf()
                &&& r->Ok_0.terminal is Some
                &&& forall|key: Seq<char>|
                    key != "output"@ ==> (#[trigger] r->Ok_0.terminal->0.get(key)) == response.get(
                        key,
                    )
                &&& forall|m: u64| #[trigger]
                    r->Ok_0.added.contains(m) <==> m < response.items_at("output"@).len()
                        || state.added.contains(m)
                &&& r->Ok_0.done == state.done
            } else {
                r is Err
            }
        }),
{
    kinds_differ();
    broadcast use vstd::map::group_map_axioms;

    numbers_below_are_counted(state.added, response.items_at("output"@).len());
}

// ---------------------------------------------------------------------------
// The response in the end
// ---------------------------------------------------------------------------

/// What is missing of two sets of numbers where there is nothing.
proof fn nothing_is_missing(added: Seq<u64>, done: Seq<u64>, n: nat)
    requires
        n <= added.len(),
        forall|i: int| 0 <= i < added.len() ==> done.contains(#[trigger] added[i]),
    ensures
        seqs::gathered(added, web_search_stream::is_missing(done), n).len() == 0,
    decreases n,
{
    if n > 0 {
        nothing_is_missing(added, done, (n - 1) as nat);
        assert(done.contains(added[n - 1]));
    }
}

/// Whether each item that was begun is done.
pub open spec fn all_are_done(state: BufferedView) -> bool {
    forall|m: u64| #[trigger] state.added.contains(m) ==> has_done(state, m)
}

/// The response in the end is the one that was completed, with the items that
/// are done as its output. It is owed exactly where the response was completed,
/// each item that was begun is done, no search is unfinished, and no more
/// searches were made than the policy allows.
pub proof fn whole_responses_are_handed_on(state: BufferedView, limit: Option<u64>)
    requires
        state.wf(),
    ensures
        ({
            let r = web_search_stream::sealed_response(state, limit);
            let items = Seq::new(state.done.len(), |i: int| state.done[i].1);
            &&& r is Ok <==> {
                &&& state.terminal is Some
                &&& all_are_done(state)
                &&& forall|i: int|
                    0 <= i < items.len() && (#[trigger] items[i]).says("type"@, "web_search_call"@)
                        ==> items[i].says("status"@, "completed"@)
                &&& limit is Some ==> web_search_bridge::search_count(items) <= limit->0
            }
            &&& r is Ok ==> {
                &&& r->Ok_0.get("output"@) == Some(JsonView::Array(items))
                &&& forall|key: Seq<char>|
                    key != "output"@ ==> (#[trigger] r->Ok_0.get(key)) == state.terminal->0.get(key)
            }
        }),
{
    broadcast use vstd::map::group_map_axioms;

    let items = Seq::new(state.done.len(), |i: int| state.done[i].1);
    assert(items =~= web_search_stream::items_of(state.done));
    let ns = web_search_stream::numbers(state.done);
    if all_are_done(state) {
        assert forall|i: int| 0 <= i < state.added.len() implies ns.contains(
            #[trigger] state.added[i],
        ) by {
            let m = state.added[i];
            assert(state.added.contains(m));
            let item = choose|item: JsonView| #[trigger] is_done(state, m, item);
            let k = choose|k: int| 0 <= k < state.done.len() && state.done[k] == (m, item);
            assert(ns[k] == m);
        }
        nothing_is_missing(state.added, ns, state.added.len());
    } else {
        let m = choose|m: u64| #[trigger] state.added.contains(m) && !has_done(state, m);
        let i = choose|i: int| 0 <= i < state.added.len() && state.added[i] == m;
        missing_number_counts(state.added, ns, i, state.added.len());
        if ns.contains(m) {
            let k = choose|k: int| 0 <= k < ns.len() && ns[k] == m;
            assert(is_done(state, m, state.done[k].1));
        }
    }
}

/// A search counts where it is a search that was completed; a page that was
/// opened or looked through does not.
pub proof fn searches_are_counted(output: Seq<JsonView>, item: JsonView)
    ensures
        web_search_bridge::search_count(output.push(item)) == web_search_bridge::search_count(
            output,
        ) + (if item.says("type"@, "web_search_call"@) && item.says("status"@, "completed"@)
            && item.get("action"@) is Some && item.get("action"@)->0.says("type"@, "search"@) {
            1nat
        } else {
            0nat
        }),
        web_search_bridge::search_count(Seq::empty()) == 0,
{
    let f = |item: JsonView| web_search_bridge::is_completed_search(item);
    counted_push(output, item, f, output.len());
}

proof fn counted_push(s: Seq<JsonView>, item: JsonView, f: spec_fn(JsonView) -> bool, n: nat)
    requires
        n <= s.len(),
    ensures
        seqs::counted(s.push(item), f, n) == seqs::counted(s, f, n),
    decreases n,
{
    if n > 0 {
        counted_push(s, item, f, (n - 1) as nat);
        assert(s.push(item)[n - 1] == s[n - 1]);
    }
}

// ---------------------------------------------------------------------------
// Events as they are sent
// ---------------------------------------------------------------------------

/// An event that the provider sends is taken as that event with its data, and
/// what follows it comes after it. What is wrong with an event ends the reading.
pub proof fn sent_events_are_taken(
    state: StreamView,
    event: Seq<char>,
    data: JsonView,
    rest: Seq<char>,
)
    requires
        sse_laws::is_line(event),
        event.len() > 0,
        text::trimmed(event) == event,
        sse_laws::is_line(json_codec::written(data)),
        json_codec::parsed(json_codec::written(data)) == Ok::<JsonView, Seq<char>>(data),
        text::trimmed(json_codec::written(data)) != "[DONE]"@,
        state.failure is None,
        state.buffer == sse::event_text(event, data) + rest,
    ensures
        ({
            let after = web_search_stream::after_sse_blocks(state);
            match web_search_stream::ingested(state.response, event, data) {
                Ok(response) => after == web_search_stream::after_sse_blocks(
                    StreamView { response, buffer: rest, ..state },
                ),
                Err(e) => after.failure == Some(e) && after.response == state.response,
            }
        }),
{
    let written = json_codec::written(data);
    sse_laws::events_are_read_back(event, data, rest);
    let block = sse_laws::sent_block(event, written);
    reveal_with_fuel(text::joined, 2);
    assert(text::joined(seq![written], "\n"@) =~= written);
    reveal_strlit("event");
    assert(block[0] == 'e');
    text::blank_is_all_white(block);
    assert(!text::white('e'));
    reveal_with_fuel(web_search_stream::after_sse_blocks, 2);
}

/// A block is passed over where it has no data, or only the mark that the stream
/// is done. Data that is no JSON is an error. A block without a name is the event
/// that its data names, and an error where that names none.
pub proof fn blocks_are_told_by_name_or_type(block: Seq<char>, data: Seq<char>)
    requires
        sse::block_fields(block).data == seq![data],
    ensures
        ({
            let r = web_search_stream::block_event(block);
            let name = sse::block_fields(block).event;
            let named = name is Some && name->0.len() > 0;
            if text::trimmed(data) == "[DONE]"@ {
                r == Ok::<Option<(Seq<char>, JsonView)>, Seq<char>>(None)
            } else {
                match json_codec::parsed(data) {
                    Err(_) => r is Err,
                    Ok(value) => {
                        &&& named ==> r == Ok::<Option<(Seq<char>, JsonView)>, Seq<char>>(
                            Some((name->0, value)),
                        )
                        &&& !named && value.get_str("type"@) is Some ==> r == Ok::<
                            Option<(Seq<char>, JsonView)>,
                            Seq<char>,
                        >(Some((value.get_str("type"@)->0, value)))
                        &&& !named && value.get_str("type"@) is None ==> r is Err
                    },
                }
            }
        }),
{
    reveal_with_fuel(text::joined, 2);
    assert(text::joined(seq![data], "\n"@) =~= data);
}

/// A block without data changes nothing.
pub proof fn blocks_without_data_change_nothing(state: StreamView, block: Seq<char>)
    requires
        sse::block_fields(block).data.len() == 0,
    ensures
        web_search_stream::after_sse_block(state, block) == state,
{
}

// ---------------------------------------------------------------------------
// Errors
// ---------------------------------------------------------------------------

/// A message that is one word, or several with a space between each two, and not
/// too long, is told as it is. White space round it and between its words counts
/// for nothing.
pub proof fn messages_are_told_in_one_line(
    before: Seq<char>,
    first: Seq<char>,
    between: Seq<char>,
    second: Seq<char>,
    after: Seq<char>,
)
    requires
        forall|i: int| 0 <= i < before.len() ==> text::white(#[trigger] before[i]),
        forall|i: int| 0 <= i < between.len() ==> text::white(#[trigger] between[i]),
        forall|i: int| 0 <= i < after.len() ==> text::white(#[trigger] after[i]),
        between.len() > 0,
        text_laws::is_word(first),
        text_laws::is_word(second),
        first.len() + second.len() < 240,
    ensures
        web_search_stream::bounded(before + first + after) == first,
        web_search_stream::bounded(before + first + (between + second + after)) == first + seq![
            ' ',
        ] + second,
{
    reveal_strlit(" ");
    assert(" "@ =~= seq![' ']);
    text_laws::words_are_found(before, first, after);
    text_laws::words_are_found(after, first, Seq::empty());
    assert(text::words_of(before + first + after) =~= seq![first]);
    text_laws::words_are_found(before, first, between + second + after);
    text_laws::words_are_found(between, second, after);
    assert(text::words_of(before + first + (between + second + after)) =~= seq![first, second]);
    text_laws::texts_are_joined(seq![first], second, " "@);
    assert(seq![first].push(second) =~= seq![first, second]);
}

/// Whether a text is the event of an error with a message.
pub open spec fn tells_error(event: Seq<char>, message: Seq<char>, payload: JsonView) -> bool {
    &&& event == sse::event_text("error"@, payload)
    &&& payload.says("type"@, "error"@)
    &&& payload.get_str_in("error"@, "type"@) == Some("upstream_error"@)
    &&& payload.get_str_in("error"@, "message"@) == Some(message)
}

/// What goes wrong is told as one error event, with the message.
pub proof fn errors_are_told_as_events(message: Seq<char>)
    ensures
        exists|payload: JsonView| #[trigger]
            tells_error(
                web_search_stream::error_event(message),
                web_search_stream::bounded(message),
                payload,
            ),
{
    broadcast use vstd::map::group_map_axioms;

    reveal_strlit("type");
    reveal_strlit("error");
    reveal_strlit("message");
    assert("type"@.len() == 4 && "error"@.len() == 5 && "message"@.len() == 7);
    let told = web_search_stream::bounded(message);
    let detail = JsonView::object().with("type"@, JsonView::Str("upstream_error"@)).with(
        "message"@,
        JsonView::Str(told),
    );
    let payload = JsonView::object().with("type"@, JsonView::Str("error"@)).with("error"@, detail);
    assert(tells_error(web_search_stream::error_event(message), told, payload));
}

/// A stream makes a message only where nothing went wrong and nothing is left of
/// it that is not whole; the message is then that of the response.
pub proof fn whole_streams_make_messages(state: StreamView, limit: Option<u64>)
    ensures
        ({
            let r = web_search_stream::stream_message(state, limit);
            let rest = state.remainder.len() > 0 || exists|i: int|
                0 <= i < state.buffer.len() && !text::white(#[trigger] state.buffer[i]);
            &&& state.failure is Some ==> r == Err::<JsonView, Seq<char>>(state.failure->0)
            &&& state.failure is None && rest ==> r is Err
            &&& state.failure is None && !rest ==> r == web_search_stream::sealed_message(
                state.response,
                limit,
            )
        }),
        ({
            let r = web_search_stream::sealed_message(state.response, limit);
            let response = web_search_stream::sealed_response(state.response, limit);
            &&& r is Ok ==> response is Ok && transform_responses::bridged_response(
                response->Ok_0,
                true,
            ) == Ok::<JsonView, ErrorView>(r->Ok_0)
            &&& r is Err <==> response is Err || transform_responses::bridged_response(
                response->Ok_0,
                true,
            ) is Err
        }),
{
    text::blank_is_all_white(state.buffer);
}

} // verus!
