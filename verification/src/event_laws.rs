//! A message that is replayed as events is put together again by the client.
use crate::json::JsonView;
use crate::json_codec;
use crate::seqs;
use crate::sse;
use crate::web_search_stream;
use vstd::prelude::*;

verus! {

// ---------------------------------------------------------------------------
// How a client puts events together
// ---------------------------------------------------------------------------

/// What a client has put together so far.
#[verifier::ext_equal]
pub struct Rebuilt {
    /// The message as it began.
    pub shell: JsonView,
    /// The blocks that have ended, each with the text of its input.
    pub blocks: Seq<(JsonView, Seq<char>)>,
    /// The block that is open, with the text of its input.
    pub open: Option<(JsonView, Seq<char>)>,
    /// How the message ended, once it did.
    pub end: JsonView,
    pub stopped: bool,
    /// Whether every event came in its place.
    pub sound: bool,
}

/// A client that has received nothing.
pub open spec fn nothing_received() -> Rebuilt {
    Rebuilt {
        shell: JsonView::Null,
        blocks: Seq::empty(),
        open: None,
        end: JsonView::Null,
        stopped: false,
        sound: true,
    }
}

/// A string member with more behind it.
pub open spec fn longer(block: JsonView, key: Seq<char>, more: Seq<char>) -> JsonView {
    block.with(key, JsonView::Str(block.str_or(key, ""@) + more))
}

/// An open block after a delta.
pub open spec fn grown(open: (JsonView, Seq<char>), delta: JsonView) -> (JsonView, Seq<char>) {
    let (block, input) = open;
    if delta.says("type"@, "text_delta"@) {
        (longer(block, "text"@, delta.str_or("text"@, ""@)), input)
    } else if delta.says("type"@, "thinking_delta"@) {
        (longer(block, "thinking"@, delta.str_or("thinking"@, ""@)), input)
    } else if delta.says("type"@, "signature_delta"@) {
        (longer(block, "signature"@, delta.str_or("signature"@, ""@)), input)
    } else if delta.says("type"@, "citations_delta"@) {
        (
            block.with(
                "citations"@,
                JsonView::Array(
                    block.items_at("citations"@).push(JsonView::or_null(delta.get("citation"@))),
                ),
            ),
            input,
        )
    } else if delta.says("type"@, "input_json_delta"@) {
        (block, input + delta.str_or("partial_json"@, ""@))
    } else {
        open
    }
}

/// What a client makes of one event more.
pub open spec fn received() -> spec_fn(Rebuilt, JsonView) -> Rebuilt {
    |state: Rebuilt, event: JsonView|
        {
            let in_place = event.get_u64("index"@) == Some(state.blocks.len() as u64);
            if event.says("type"@, "message_start"@) {
                Rebuilt { shell: JsonView::or_null(event.get("message"@)), ..state }
            } else if event.says("type"@, "content_block_start"@) {
                Rebuilt {
                    open: Some((JsonView::or_null(event.get("content_block"@)), Seq::empty())),
                    sound: state.sound && in_place && state.open is None,
                    ..state
                }
            } else if event.says("type"@, "content_block_delta"@) && state.open is Some {
                Rebuilt {
                    open: Some(grown(state.open->0, JsonView::or_null(event.get("delta"@)))),
                    sound: state.sound && in_place,
                    ..state
                }
            } else if event.says("type"@, "content_block_stop"@) && state.open is Some {
                Rebuilt {
                    blocks: state.blocks.push(state.open->0),
                    open: None,
                    sound: state.sound && in_place,
                    ..state
                }
            } else if event.says("type"@, "message_delta"@) {
                Rebuilt { end: event, sound: state.sound && state.open is None, ..state }
            } else if event.says("type"@, "message_stop"@) {
                Rebuilt { stopped: true, ..state }
            } else {
                Rebuilt { sound: false, ..state }
            }
        }
}

/// What a client makes of events.
pub open spec fn put_together(events: Seq<JsonView>) -> Rebuilt {
    seqs::walked(events, received(), nothing_received(), events.len())
}

/// Whether texts are those events as they are sent: each under the name of its
/// type.
pub open spec fn are_sent(texts: Seq<Seq<char>>, events: Seq<JsonView>) -> bool {
    &&& texts.len() == events.len()
    &&& forall|i: int|
        0 <= i < texts.len() ==> #[trigger] texts[i] == "event: "@ + events[i].str_or("type"@, ""@)
            + "\ndata: "@ + json_codec::written(events[i]) + "\n\n"@
}

/// Whether a client that put a block together has the block: its texts, its
/// citations, its call with the text of its input.
pub open spec fn is_block(rebuilt: (JsonView, Seq<char>), block: JsonView) -> bool {
    let b = rebuilt.0;
    if block.says("type"@, "text"@) {
        &&& b.says("type"@, "text"@)
        &&& b.get_str("text"@) == Some(block.str_or("text"@, ""@))
        &&& b.items_at("citations"@) == block.items_at("citations"@)
        &&& b.get("citations"@) is Some <==> block.get("citations"@) is Some
    } else if block.says("type"@, "thinking"@) {
        &&& b.says("type"@, "thinking"@)
        &&& b.get_str("thinking"@) == Some(block.str_or("thinking"@, ""@))
        &&& b.get_str("signature"@) == Some(block.str_or("signature"@, ""@))
    } else if block.says("type"@, "tool_use"@) || block.says("type"@, "server_tool_use"@) {
        &&& b.get("type"@) == block.get("type"@)
        &&& b.get("id"@) == Some(JsonView::or_null(block.get("id"@)))
        &&& b.get("name"@) == Some(JsonView::or_null(block.get("name"@)))
        &&& rebuilt.1 == json_codec::written(
            match block.get("input"@) {
                Some(v) => v,
                None => JsonView::Object(Map::empty()),
            },
        )
    } else {
        b == block
    }
}

// ---------------------------------------------------------------------------
// Names
// ---------------------------------------------------------------------------

proof fn names_differ()
    ensures
        "type"@ != "index"@,
        "type"@ != "delta"@,
        "type"@ != "message"@,
        "type"@ != "content_block"@,
        "type"@ != "usage"@,
        "type"@ != "text"@,
        "type"@ != "citations"@,
        "type"@ != "citation"@,
        "type"@ != "thinking"@,
        "type"@ != "signature"@,
        "type"@ != "partial_json"@,
        "type"@ != "id"@,
        "type"@ != "name"@,
        "type"@ != "input"@,
        "index"@ != "delta"@,
        "index"@ != "content_block"@,
        "delta"@ != "usage"@,
        "text"@ != "citations"@,
        "thinking"@ != "signature"@,
        "id"@ != "name"@,
        "id"@ != "input"@,
        "name"@ != "input"@,
        "id"@ != "role"@,
        "id"@ != "content"@,
        "id"@ != "model"@,
        "id"@ != "stop_reason"@,
        "id"@ != "stop_sequence"@,
        "id"@ != "usage"@,
        "role"@ != "content"@,
        "role"@ != "model"@,
        "role"@ != "stop_reason"@,
        "role"@ != "stop_sequence"@,
        "role"@ != "usage"@,
        "model"@ != "stop_reason"@,
        "model"@ != "stop_sequence"@,
        "model"@ != "usage"@,
        "stop_reason"@ != "stop_sequence"@,
{
    reveal_strlit("type");
    reveal_strlit("index");
    reveal_strlit("delta");
    reveal_strlit("message");
    reveal_strlit("content_block");
    reveal_strlit("usage");
    reveal_strlit("text");
    reveal_strlit("citations");
    reveal_strlit("citation");
    reveal_strlit("thinking");
    reveal_strlit("signature");
    reveal_strlit("partial_json");
    reveal_strlit("id");
    reveal_strlit("name");
    reveal_strlit("input");
    reveal_strlit("role");
    reveal_strlit("content");
    reveal_strlit("model");
    reveal_strlit("stop_reason");
    reveal_strlit("stop_sequence");
    assert("type"@.len() == 4 && "text"@.len() == 4 && "name"@.len() == 4 && "role"@.len() == 4);
    assert("type"@[0] == 't' && "type"@[1] == 'y' && "text"@[1] == 'e' && "name"@[0] == 'n'
        && "role"@[0] == 'r');
    assert("index"@.len() == 5 && "delta"@.len() == 5 && "usage"@.len() == 5 && "input"@.len() == 5
        && "model"@.len() == 5);
    assert("index"@[0] == 'i' && "delta"@[0] == 'd' && "usage"@[0] == 'u' && "model"@[0] == 'm');
    assert("message"@.len() == 7 && "content"@.len() == 7 && "content_block"@.len() == 13);
    assert("citations"@.len() == 9 && "citation"@.len() == 8 && "thinking"@.len() == 8);
    assert("signature"@.len() == 9 && "partial_json"@.len() == 12 && "id"@.len() == 2);
    assert("stop_reason"@.len() == 11 && "stop_sequence"@.len() == 13);
}

proof fn kinds_differ()
    ensures
        "message_start"@.len() == 13,
        "content_block_start"@.len() == 19,
        "content_block_delta"@.len() == 19,
        "content_block_delta"@ != "content_block_start"@,
        "content_block_stop"@.len() == 18,
        "message_delta"@.len() == 13,
        "message_delta"@ != "message_start"@,
        "message_stop"@.len() == 12,
        "text_delta"@.len() == 10,
        "thinking_delta"@.len() == 14,
        "signature_delta"@.len() == 15,
        "citations_delta"@.len() == 15,
        "citations_delta"@ != "signature_delta"@,
        "input_json_delta"@.len() == 16,
        "text"@.len() == 4,
        "thinking"@.len() == 8,
        "tool_use"@.len() == 8,
        "tool_use"@ != "thinking"@,
        "server_tool_use"@.len() == 15,
        ""@ == Seq::<char>::empty(),
{
    reveal_strlit("message_start");
    reveal_strlit("content_block_start");
    reveal_strlit("content_block_delta");
    reveal_strlit("content_block_stop");
    reveal_strlit("message_delta");
    reveal_strlit("message_stop");
    reveal_strlit("text_delta");
    reveal_strlit("thinking_delta");
    reveal_strlit("signature_delta");
    reveal_strlit("citations_delta");
    reveal_strlit("input_json_delta");
    reveal_strlit("text");
    reveal_strlit("thinking");
    reveal_strlit("tool_use");
    reveal_strlit("server_tool_use");
    reveal_strlit("");
    assert("content_block_delta"@[14] == 'd' && "content_block_start"@[14] == 's');
    assert("message_delta"@[8] == 'd' && "message_start"@[8] == 's');
    assert("citations_delta"@[0] == 'c' && "signature_delta"@[0] == 's');
    assert("tool_use"@[1] == 'o' && "thinking"@[1] == 'h');
    assert(""@ =~= Seq::<char>::empty());
}

// ---------------------------------------------------------------------------
// The events of a block
// ---------------------------------------------------------------------------

/// The event of a delta.
spec fn delta_event(index: u64, delta: JsonView) -> JsonView {
    JsonView::object().with("type"@, JsonView::Str("content_block_delta"@)).with(
        "index"@,
        JsonView::number(index),
    ).with("delta"@, delta)
}

spec fn delta_of(kind: Seq<char>, key: Seq<char>, value: JsonView) -> JsonView {
    JsonView::object().with("type"@, JsonView::Str(kind)).with(key, value)
}

spec fn text_deltas(index: u64, block: JsonView, key: Seq<char>, kind: Seq<char>) -> Seq<JsonView> {
    if block.str_or(key, ""@).len() > 0 {
        seq![delta_event(index, delta_of(kind, key, JsonView::Str(block.str_or(key, ""@))))]
    } else {
        Seq::empty()
    }
}

spec fn citation_deltas(index: u64, citations: Seq<JsonView>) -> Seq<JsonView> {
    citations.map_values(
        |c: JsonView| delta_event(index, delta_of("citations_delta"@, "citation"@, c)),
    )
}

/// The events that add to a block.
spec fn deltas(index: u64, block: JsonView) -> Seq<JsonView> {
    if block.says("type"@, "text"@) {
        text_deltas(index, block, "text"@, "text_delta"@) + citation_deltas(
            index,
            block.items_at("citations"@),
        )
    } else if block.says("type"@, "thinking"@) {
        text_deltas(index, block, "thinking"@, "thinking_delta"@) + text_deltas(
            index,
            block,
            "signature"@,
            "signature_delta"@,
        )
    } else if block.says("type"@, "tool_use"@) || block.says("type"@, "server_tool_use"@) {
        seq![
            delta_event(
                index,
                delta_of(
                    "input_json_delta"@,
                    "partial_json"@,
                    JsonView::Str(
                        json_codec::written(
                            match block.get("input"@) {
                                Some(v) => v,
                                None => JsonView::Object(Map::empty()),
                            },
                        ),
                    ),
                ),
            ),
        ]
    } else {
        Seq::empty()
    }
}

spec fn begin_event(index: u64, block: JsonView) -> JsonView {
    JsonView::object().with("type"@, JsonView::Str("content_block_start"@)).with(
        "index"@,
        JsonView::number(index),
    ).with("content_block"@, web_search_stream::block_start(block))
}

spec fn end_event(index: u64) -> JsonView {
    JsonView::object().with("type"@, JsonView::Str("content_block_stop"@)).with(
        "index"@,
        JsonView::number(index),
    )
}

/// The events of a block.
spec fn block_events(index: u64, block: JsonView) -> Seq<JsonView> {
    seq![begin_event(index, block)] + deltas(index, block) + seq![end_event(index)]
}

spec fn content_events(content: Seq<JsonView>, n: nat) -> Seq<JsonView>
    decreases n,
{
    if n == 0 {
        Seq::empty()
    } else {
        content_events(content, (n - 1) as nat) + block_events((n - 1) as u64, content[n - 1])
    }
}

spec fn first_event(message: JsonView) -> JsonView {
    let shell = JsonView::object().with(
        "id"@,
        JsonView::Str(message.str_or("id"@, "msg_responses_proxy"@)),
    ).with("type"@, JsonView::Str("message"@)).with("role"@, JsonView::Str("assistant"@)).with(
        "content"@,
        JsonView::Array(Seq::empty()),
    ).with("model"@, JsonView::Str(message.str_or("model"@, "unknown"@))).with(
        "stop_reason"@,
        JsonView::Null,
    ).with("stop_sequence"@, JsonView::Null).with(
        "usage"@,
        web_search_stream::message_usage(message),
    );
    JsonView::object().with("type"@, JsonView::Str("message_start"@)).with("message"@, shell)
}

spec fn last_events(message: JsonView) -> Seq<JsonView> {
    seq![
        JsonView::object().with("type"@, JsonView::Str("message_delta"@)).with(
            "delta"@,
            JsonView::object().with(
                "stop_reason"@,
                JsonView::or_null(message.get("stop_reason"@)),
            ).with("stop_sequence"@, JsonView::or_null(message.get("stop_sequence"@))),
        ).with("usage"@, web_search_stream::message_usage(message)),
        JsonView::object().with("type"@, JsonView::Str("message_stop"@)),
    ]
}

/// The events of a message.
pub closed spec fn events_of(message: JsonView) -> Seq<JsonView> {
    let content = message.items_at("content"@);
    seq![first_event(message)] + content_events(content, content.len()) + last_events(message)
}

// ---------------------------------------------------------------------------
// The events are sent
// ---------------------------------------------------------------------------

proof fn sent_in_a_row(
    a: Seq<Seq<char>>,
    x: Seq<JsonView>,
    b: Seq<Seq<char>>,
    y: Seq<JsonView>,
)
    requires
        are_sent(a, x),
        are_sent(b, y),
    ensures
        are_sent(a + b, x + y),
{
    assert forall|i: int| 0 <= i < (a + b).len() implies #[trigger] (a + b)[i] == "event: "@ + (x
        + y)[i].str_or("type"@, ""@) + "\ndata: "@ + json_codec::written((x + y)[i]) + "\n\n"@ by {
        if i < a.len() {
            assert((a + b)[i] == a[i]);
        } else {
            assert((a + b)[i] == b[i - a.len()]);
        }
    }
}

proof fn one_sent(name: Seq<char>, event: JsonView)
    requires
        event.says("type"@, name),
    ensures
        are_sent(seq![sse::event_text(name, event)], seq![event]),
{
}

proof fn citations_sent(index: u64, citations: Seq<JsonView>, n: nat)
    requires
        n <= citations.len(),
    ensures
        are_sent(
            seqs::gathered(citations, web_search_stream::citation_delta(index), n),
            citation_deltas(index, citations).take(n as int),
        ),
    decreases n,
{
    names_differ();
    let f = web_search_stream::citation_delta(index);
    let all = citation_deltas(index, citations);
    if n > 0 {
        citations_sent(index, citations, (n - 1) as nat);
        let event = all[n - 1];
        assert(event.says("type"@, "content_block_delta"@));
        one_sent("content_block_delta"@, event);
        assert(f(citations[n - 1]) =~= seq![sse::event_text("content_block_delta"@, event)]);
        sent_in_a_row(
            seqs::gathered(citations, f, (n - 1) as nat),
            all.take(n - 1),
            f(citations[n - 1]),
            seq![event],
        );
        assert(all.take(n - 1) + seq![event] =~= all.take(n as int));
    }
}

proof fn text_sent(index: u64, block: JsonView, key: Seq<char>, kind: Seq<char>)
    ensures
        are_sent(
            web_search_stream::string_delta(index, block, key, kind),
            text_deltas(index, block, key, kind),
        ),
{
    names_differ();
    kinds_differ();
    if block.str_or(key, ""@).len() > 0 {
        let event = text_deltas(index, block, key, kind)[0];
        assert(event.says("type"@, "content_block_delta"@));
        one_sent("content_block_delta"@, event);
    }
}

proof fn deltas_sent(index: u64, block: JsonView)
    ensures
        are_sent(web_search_stream::block_deltas(index, block), deltas(index, block)),
{
    names_differ();
    kinds_differ();
    if block.says("type"@, "text"@) {
        let citations = block.items_at("citations"@);
        text_sent(index, block, "text"@, "text_delta"@);
        citations_sent(index, citations, citations.len());
        let all = citation_deltas(index, citations);
        assert(all.take(all.len() as int) =~= all);
        sent_in_a_row(
            web_search_stream::string_delta(index, block, "text"@, "text_delta"@),
            text_deltas(index, block, "text"@, "text_delta"@),
            seqs::gathered(citations, web_search_stream::citation_delta(index), citations.len()),
            all,
        );
    } else if block.says("type"@, "thinking"@) {
        text_sent(index, block, "thinking"@, "thinking_delta"@);
        text_sent(index, block, "signature"@, "signature_delta"@);
        sent_in_a_row(
            web_search_stream::string_delta(index, block, "thinking"@, "thinking_delta"@),
            text_deltas(index, block, "thinking"@, "thinking_delta"@),
            web_search_stream::string_delta(index, block, "signature"@, "signature_delta"@),
            text_deltas(index, block, "signature"@, "signature_delta"@),
        );
    } else if block.says("type"@, "tool_use"@) || block.says("type"@, "server_tool_use"@) {
        let event = deltas(index, block)[0];
        assert(event.says("type"@, "content_block_delta"@));
        one_sent("content_block_delta"@, event);
        assert(deltas(index, block) =~= seq![event]);
        assert(web_search_stream::block_deltas(index, block) =~= seq![
            sse::event_text("content_block_delta"@, event),
        ]);
    } else {
        assert(web_search_stream::block_deltas(index, block) =~= Seq::<Seq<char>>::empty());
    }
}

proof fn block_sent(index: u64, block: JsonView)
    ensures
        are_sent(web_search_stream::block_events(index, block), block_events(index, block)),
{
    names_differ();
    let begin = begin_event(index, block);
    let end = end_event(index);
    assert(begin.says("type"@, "content_block_start"@));
    assert(end.says("type"@, "content_block_stop"@));
    one_sent("content_block_start"@, begin);
    one_sent("content_block_stop"@, end);
    deltas_sent(index, block);
    let a = seq![sse::event_text("content_block_start"@, begin)];
    let b = web_search_stream::block_deltas(index, block);
    let c = seq![sse::event_text("content_block_stop"@, end)];
    sent_in_a_row(a, seq![begin], b, deltas(index, block));
    sent_in_a_row(a + b, seq![begin] + deltas(index, block), c, seq![end]);
}

proof fn content_sent(content: Seq<JsonView>, n: nat)
    ensures
        are_sent(web_search_stream::content_events(content, n), content_events(content, n)),
    decreases n,
{
    if n > 0 {
        content_sent(content, (n - 1) as nat);
        block_sent((n - 1) as u64, content[n - 1]);
        sent_in_a_row(
            web_search_stream::content_events(content, (n - 1) as nat),
            content_events(content, (n - 1) as nat),
            web_search_stream::block_events((n - 1) as u64, content[n - 1]),
            block_events((n - 1) as u64, content[n - 1]),
        );
    }
}

proof fn message_sent(message: JsonView)
    ensures
        are_sent(web_search_stream::message_events(message), events_of(message)),
{
    names_differ();
    let content = message.items_at("content"@);
    let first = first_event(message);
    let last = last_events(message);
    content_sent(content, content.len());
    assert(first.says("type"@, "message_start"@));
    assert(last[0].says("type"@, "message_delta"@));
    assert(last[1].says("type"@, "message_stop"@));
    one_sent("message_start"@, first);
    one_sent("message_delta"@, last[0]);
    one_sent("message_stop"@, last[1]);
    let a = seq![web_search_stream::start_event(message)];
    let b = web_search_stream::content_events(content, content.len());
    let c = seq![web_search_stream::delta_end_event(message)];
    let d = seq![web_search_stream::stop_event()];
    sent_in_a_row(c, seq![last[0]], d, seq![last[1]]);
    sent_in_a_row(a, seq![first], b, content_events(content, content.len()));
    sent_in_a_row(
        a + b,
        seq![first] + content_events(content, content.len()),
        c + d,
        seq![last[0]] + seq![last[1]],
    );
    assert(seq![last[0]] + seq![last[1]] =~= last);
    assert(a + b + (c + d) =~= web_search_stream::message_events(message));
}

// ---------------------------------------------------------------------------
// The client puts them together
// ---------------------------------------------------------------------------

/// One delta of a block that is open.
proof fn delta_received(state: Rebuilt, index: u64, delta: JsonView)
    requires
        state.open is Some,
        index == state.blocks.len(),
    ensures
        received()(state, delta_event(index, delta)) == (Rebuilt {
            open: Some(grown(state.open->0, delta)),
            ..state
        }),
{
    names_differ();
    kinds_differ();
    let event = delta_event(index, delta);
    assert(event.says("type"@, "content_block_delta"@));
    assert(event.get("delta"@) == Some(delta));
    assert(event.get("index"@) == Some(JsonView::number(index)));
}

/// What a client makes of several events, from some state on.
spec fn after_events(state: Rebuilt, events: Seq<JsonView>) -> Rebuilt {
    seqs::walked(events, received(), state, events.len())
}

proof fn one_after(state: Rebuilt, event: JsonView)
    ensures
        after_events(state, seq![event]) == received()(state, event),
{
    reveal_with_fuel(seqs::walked, 2);
}

proof fn after_in_a_row(state: Rebuilt, a: Seq<JsonView>, b: Seq<JsonView>)
    ensures
        after_events(state, a + b) == after_events(after_events(state, a), b),
{
    seqs::walked_append(a, b, received(), state);
}

/// The texts of a block are received.
proof fn text_received(
    state: Rebuilt,
    index: u64,
    block: JsonView,
    key: Seq<char>,
    kind: Seq<char>,
)
    requires
        state.open is Some,
        index == state.blocks.len(),
        state.open->Some_0.0 is Object,
        state.open->Some_0.0.get_str(key) == Some(""@),
        key == "text"@ && kind == "text_delta"@ || key == "thinking"@ && kind == "thinking_delta"@
            || key == "signature"@ && kind == "signature_delta"@,
    ensures
        after_events(state, text_deltas(index, block, key, kind)) == (Rebuilt {
            open: Some(
                (
                    state.open->Some_0.0.with(key, JsonView::Str(block.str_or(key, ""@))),
                    state.open->Some_0.1,
                ),
            ),
            ..state
        }),
{
    names_differ();
    kinds_differ();
    let s = block.str_or(key, ""@);
    let open = state.open->0;
    if s.len() > 0 {
        let delta = delta_of(kind, key, JsonView::Str(s));
        delta_received(state, index, delta);
        one_after(state, delta_event(index, delta));
        assert(delta.says("type"@, kind));
        assert(delta.str_or(key, ""@) == s);
        assert(""@ + s =~= s);
    } else {
        assert(s =~= ""@);
        assert(open.0.with(key, JsonView::Str(""@))->Object_0 =~= open.0->Object_0);
        assert(state.open == Some((open.0.with(key, JsonView::Str(s)), open.1)));
    }
}

/// The citations of a block are received.
proof fn citations_received(state: Rebuilt, index: u64, citations: Seq<JsonView>)
    requires
        state.open is Some,
        index == state.blocks.len(),
        state.open->Some_0.0 is Object,
        citations.len() > 0,
        state.open->Some_0.0.items_at("citations"@).len() == 0,
    ensures
        after_events(state, citation_deltas(index, citations)) == (Rebuilt {
            open: Some(
                (
                    state.open->Some_0.0.with("citations"@, JsonView::Array(citations)),
                    state.open->Some_0.1,
                ),
            ),
            ..state
        }),
    decreases citations.len(),
{
    names_differ();
    kinds_differ();
    let open = state.open->0;
    let first = citations.drop_last();
    let c = citations.last();
    let delta = delta_of("citations_delta"@, "citation"@, c);
    let event = delta_event(index, delta);
    assert(citation_deltas(index, citations) =~= citation_deltas(index, first) + seq![event]);
    after_in_a_row(state, citation_deltas(index, first), seq![event]);
    let mid = after_events(state, citation_deltas(index, first));
    one_after(mid, event);
    assert(delta.says("type"@, "citations_delta"@));
    assert(delta.get("citation"@) == Some(c));
    if first.len() == 0 {
        assert(citation_deltas(index, first) =~= Seq::<JsonView>::empty());
        assert(mid == state);
        assert(open.0.items_at("citations"@).push(c) =~= citations);
    } else {
        citations_received(state, index, first);
        assert(first.push(c) =~= citations);
        let m = open.0->Object_0;
        assert(m.insert("citations"@, JsonView::Array(first)).insert(
            "citations"@,
            JsonView::Array(citations),
        ) =~= m.insert("citations"@, JsonView::Array(citations)));
    }
    delta_received(mid, index, delta);
}

/// A block is received.
#[verifier::rlimit(60)]
proof fn block_received(state: Rebuilt, block: JsonView) -> (rebuilt: (JsonView, Seq<char>))
    requires
        state.open is None,
        state.blocks.len() <= u64::MAX,
    ensures
        after_events(state, block_events(state.blocks.len() as u64, block)) == (Rebuilt {
            blocks: state.blocks.push(rebuilt),
            ..state
        }),
        is_block(rebuilt, block),
{
    names_differ();
    kinds_differ();
    let index = state.blocks.len() as u64;
    let begin = begin_event(index, block);
    let end = end_event(index);
    let start = web_search_stream::block_start(block);
    let opened = Rebuilt { open: Some((start, Seq::empty())), ..state };
    assert(begin.says("type"@, "content_block_start"@));
    assert(begin.get("content_block"@) == Some(start));
    assert(begin.get("index"@) == Some(JsonView::number(index)));
    one_after(state, begin);
    assert(received()(state, begin) == opened);
    let d = deltas(index, block);
    after_in_a_row(state, seq![begin], d);
    after_in_a_row(state, seq![begin] + d, seq![end]);
    let full = after_events(opened, d);
    one_after(full, end);
    assert(end.says("type"@, "content_block_stop"@));
    assert(end.get("index"@) == Some(JsonView::number(index)));
    if block.says("type"@, "text"@) {
        let citations = block.items_at("citations"@);
        let texts = text_deltas(index, block, "text"@, "text_delta"@);
        let cites = citation_deltas(index, citations);
        assert(start.get_str("text"@) == Some(""@));
        text_received(opened, index, block, "text"@, "text_delta"@);
        after_in_a_row(opened, texts, cites);
        let mid = after_events(opened, texts);
        assert(mid.open->Some_0.0.items_at("citations"@) =~= Seq::<JsonView>::empty());
        if citations.len() > 0 {
            citations_received(mid, index, citations);
        } else {
            assert(cites =~= Seq::<JsonView>::empty());
            assert(citations =~= Seq::<JsonView>::empty());
            assert(full == mid);
        }
        full.open->0
    } else if block.says("type"@, "thinking"@) {
        let one = text_deltas(index, block, "thinking"@, "thinking_delta"@);
        let two = text_deltas(index, block, "signature"@, "signature_delta"@);
        assert(start.get_str("thinking"@) == Some(""@));
        text_received(opened, index, block, "thinking"@, "thinking_delta"@);
        after_in_a_row(opened, one, two);
        let mid = after_events(opened, one);
        assert(mid.open->Some_0.0.get_str("signature"@) == Some(""@));
        text_received(mid, index, block, "signature"@, "signature_delta"@);
        full.open->0
    } else if block.says("type"@, "tool_use"@) || block.says("type"@, "server_tool_use"@) {
        let delta = d[0].get("delta"@)->0;
        assert(d =~= seq![delta_event(index, delta)]);
        delta_received(opened, index, delta);
        one_after(opened, delta_event(index, delta));
        assert(delta.says("type"@, "input_json_delta"@));
        let s = delta.str_or("partial_json"@, ""@);
        assert(Seq::<char>::empty() + s =~= s);
        full.open->0
    } else {
        assert(full == opened);
        assert(start == block);
        full.open->0
    }
}

/// The blocks of a message are received.
proof fn content_received(state: Rebuilt, content: Seq<JsonView>, n: nat)
    requires
        state.open is None,
        state.blocks.len() == 0,
        n <= content.len() <= u64::MAX,
    ensures
        ({
            let after = after_events(state, content_events(content, n));
            &&& after == (Rebuilt { blocks: after.blocks, ..state })
            &&& after.blocks.len() == n
            &&& forall|i: int| 0 <= i < n ==> is_block(#[trigger] after.blocks[i], content[i])
        }),
    decreases n,
{
    if n > 0 {
        content_received(state, content, (n - 1) as nat);
        let before = content_events(content, (n - 1) as nat);
        let mid = after_events(state, before);
        let own = block_events((n - 1) as u64, content[n - 1]);
        after_in_a_row(state, before, own);
        let rebuilt = block_received(mid, content[n - 1]);
    }
}

/// A client that puts the events of a message together has the message: each of
/// its blocks in its place, with all of its texts, its citations and the input
/// of its call, and its id, its model, its usage and why it stopped. Nothing
/// comes out of place, and the stream of events ends.
pub proof fn replayed_messages_are_put_together(message: JsonView)
    requires
        message.items_at("content"@).len() <= u64::MAX,
    ensures
        are_sent(web_search_stream::message_events(message), events_of(message)),
        ({
            let client = put_together(events_of(message));
            let content = message.items_at("content"@);
            &&& client.sound
            &&& client.stopped
            &&& client.open is None
            &&& client.blocks.len() == content.len()
            &&& forall|i: int|
                0 <= i < content.len() ==> is_block(#[trigger] client.blocks[i], content[i])
            &&& client.shell.get_str("role"@) == Some("assistant"@)
            &&& message.get_str("id"@) is Some ==> client.shell.get("id"@) == message.get("id"@)
            &&& message.get_str("model"@) is Some ==> client.shell.get("model"@) == message.get(
                "model"@,
            )
            &&& message.get("usage"@) is Some ==> client.shell.get("usage"@) == message.get(
                "usage"@,
            ) && client.end.get("usage"@) == message.get("usage"@)
            &&& client.end.get_in("delta"@, "stop_reason"@) == Some(
                JsonView::or_null(message.get("stop_reason"@)),
            )
            &&& client.end.get_in("delta"@, "stop_sequence"@) == Some(
                JsonView::or_null(message.get("stop_sequence"@)),
            )
        }),
{
    names_differ();
    kinds_differ();
    message_sent(message);
    let content = message.items_at("content"@);
    let first = first_event(message);
    let own = content_events(content, content.len());
    let last = last_events(message);
    let none = nothing_received();
    assert(first.says("type"@, "message_start"@));
    assert(last[0].says("type"@, "message_delta"@));
    assert(last[1].says("type"@, "message_stop"@));
    one_after(none, first);
    let begun = received()(none, first);
    after_in_a_row(none, seq![first], own);
    after_in_a_row(none, seq![first] + own, last);
    content_received(begun, content, content.len());
    let full = after_events(begun, own);
    assert(last =~= seq![last[0]] + seq![last[1]]);
    after_in_a_row(full, seq![last[0]], seq![last[1]]);
    one_after(full, last[0]);
    let ended = received()(full, last[0]);
    one_after(ended, last[1]);
    let client = put_together(events_of(message));
    assert(client == received()(ended, last[1]));
    assert(client.shell == first.get("message"@)->0);
    assert(client.end == last[0]);
}

} // verus!
