//! When an answer in the Messages protocol is good.
use crate::error::ErrorView;
use crate::forwarder::anthropic;
use crate::forwarder::anthropic::{BlockView, ValidatorView};
use crate::forwarder::errors;
use crate::forwarder::stream_start;
use crate::forwarder::stream_start::{AnthropicStartView, VerdictView};
use crate::json::JsonView;
use crate::json_codec;
use crate::seqs;
use crate::sse;
use crate::text;
use vstd::prelude::*;
use vstd::utf8::{decode_utf8, valid_utf8};

verus! {

proof fn names_differ()
    ensures
        "error"@ != "content_block_start"@,
        "error"@ != "content_block_delta"@,
        "error"@ != "content_block_stop"@,
        "error"@ != "message_stop"@,
        "content_block_start"@ != "content_block_delta"@,
        "content_block_start"@ != "content_block_stop"@,
        "content_block_start"@ != "message_stop"@,
        "content_block_delta"@ != "content_block_stop"@,
        "content_block_delta"@ != "message_stop"@,
        "content_block_stop"@ != "message_stop"@,
        "text"@ != "thinking"@,
        "text"@ != "redacted_thinking"@,
        "text"@ != "tool_use"@,
        "thinking"@ != "redacted_thinking"@,
        "thinking"@ != "tool_use"@,
        "redacted_thinking"@ != "tool_use"@,
        "text_delta"@ != "thinking_delta"@,
        "text_delta"@ != "signature_delta"@,
        "text_delta"@ != "input_json_delta"@,
        "thinking_delta"@ != "signature_delta"@,
        "thinking_delta"@ != "input_json_delta"@,
        "signature_delta"@ != "input_json_delta"@,
{
    reveal_strlit("error");
    reveal_strlit("content_block_start");
    reveal_strlit("content_block_delta");
    reveal_strlit("content_block_stop");
    reveal_strlit("message_stop");
    reveal_strlit("text");
    reveal_strlit("thinking");
    reveal_strlit("redacted_thinking");
    reveal_strlit("tool_use");
    reveal_strlit("text_delta");
    reveal_strlit("thinking_delta");
    reveal_strlit("signature_delta");
    reveal_strlit("input_json_delta");
    assert("error"@.len() == 5 && "content_block_start"@.len() == 19);
    assert("content_block_delta"@.len() == 19 && "content_block_stop"@.len() == 18);
    assert("message_stop"@.len() == 12);
    assert("content_block_start"@[14] == 's' && "content_block_delta"@[14] == 'd');
    assert("text"@.len() == 4 && "thinking"@.len() == 8 && "redacted_thinking"@.len() == 17);
    assert("tool_use"@.len() == 8 && "thinking"@[1] == 'h' && "tool_use"@[1] == 'o');
    assert("text_delta"@.len() == 10 && "thinking_delta"@.len() == 14);
    assert("signature_delta"@.len() == 15 && "input_json_delta"@.len() == 16);
}

/// Whether data tells of an error.
pub open spec fn tells_error(value: JsonView) -> bool {
    value.get("error"@) is Some && value.get("error"@) != Some(JsonView::Null)
}

/// Whether a stream may go on with an event: the message has not ended, and the
/// data tells of no error.
pub open spec fn may_go_on(state: ValidatorView, value: JsonView) -> bool {
    !state.terminal_seen && !tells_error(value)
}

/// An error that is told, under whatever event, is reported with the type and the
/// message that stand with it, and so is an error event.
pub proof fn told_errors_are_reported(
    state: ValidatorView,
    event: Seq<char>,
    value: JsonView,
    error: JsonView,
)
    requires
        !state.terminal_seen,
        value.get("error"@) == Some(error),
        event == "error"@ || !(error is Null),
    ensures
        ({
            let r = anthropic::after_event(state, event, value).1;
            &&& r is Err
            &&& error.get_str("type"@) is Some && error.get_str("message"@) is Some ==> r->Err_0
                == errors::upstream_error(error.get_str("type"@)->0, error.get_str("message"@)->0)
        }),
{
}

/// Nothing may follow the end of a message.
pub proof fn nothing_follows_a_message(state: ValidatorView, event: Seq<char>, value: JsonView)
    requires
        state.terminal_seen,
    ensures
        anthropic::after_event(state, event, value).1 is Err,
{
}

/// A block is begun under a number that was not used before, and is then open.
/// Words that it has from the beginning count; a call of a tool counts only when
/// it is whole.
pub proof fn blocks_are_begun(state: ValidatorView, value: JsonView, n: u64, block: JsonView)
    requires
        may_go_on(state, value),
        value.get_u64("index"@) == Some(n),
        value.get("content_block"@) == Some(block),
    ensures
        ({
            let (next, r) = anthropic::after_event(state, "content_block_start"@, value);
            let id = block.get_str("id"@);
            let name = block.get_str("name"@);
            let words = block.get_str("text"@);
            &&& next.seen.contains(n)
            &&& state.seen.contains(n) ==> r is Err
            &&& !state.seen.contains(n) && block.says("type"@, "text"@) ==> {
                if words is Some {
                    &&& next.blocks == state.blocks.insert(n, BlockView::Text)
                    &&& r == Ok::<bool, ErrorView>(words->0.len() > 0)
                } else {
                    r is Err
                }
            }
            &&& !state.seen.contains(n) && block.says("type"@, "thinking"@) ==> {
                &&& next.blocks == state.blocks.insert(n, BlockView::Thinking)
                &&& r == Ok::<bool, ErrorView>(
                    block.get_str("thinking"@) is Some && block.get_str("thinking"@)->0.len() > 0,
                )
            }
            &&& !state.seen.contains(n) && block.says("type"@, "redacted_thinking"@) ==> {
                if block.get_str("data"@) is Some {
                    &&& next.blocks == state.blocks.insert(n, BlockView::RedactedThinking)
                    &&& r == Ok::<bool, ErrorView>(block.get_str("data"@)->0.len() > 0)
                } else {
                    r is Err
                }
            }
            &&& !state.seen.contains(n) && block.says("type"@, "tool_use"@) ==> {
                if id is Some && id->0.len() > 0 && name is Some && name->0.len() > 0 && (
                block.get("input"@) is None || block.get("input"@)->0 is Object) {
                    &&& r == Ok::<bool, ErrorView>(false)
                    &&& next.blocks.contains_key(n)
                    &&& next.blocks[n] matches BlockView::ToolUse { start_input, partial_json }
                        && partial_json.len() == 0 && start_input == (match block.get("input"@) {
                        Some(input) => input,
                        None => JsonView::object(),
                    })
                } else {
                    r is Err
                }
            }
            &&& next.terminal_seen == state.terminal_seen
        }),
{
    broadcast use vstd::map::group_map_axioms;
    broadcast use vstd::set::group_set_axioms;

    names_differ();
}

/// More of a block counts where it is words that are not empty. It must be of the
/// kind of its block, and the block must be open.
pub proof fn blocks_grow(state: ValidatorView, value: JsonView, n: u64, delta: JsonView)
    requires
        may_go_on(state, value),
        value.get_u64("index"@) == Some(n),
        value.get("delta"@) == Some(delta),
    ensures
        ({
            let (next, r) = anthropic::after_event(state, "content_block_delta"@, value);
            let words = delta.get_str("text"@);
            let thoughts = delta.get_str("thinking"@);
            let json = delta.get_str("partial_json"@);
            &&& !state.blocks.contains_key(n) ==> r is Err
            &&& r is Err ==> next == state
            &&& r is Ok ==> next.blocks.dom() == state.blocks.dom() && next.seen == state.seen
            &&& state.blocks.contains_key(n) ==> match state.blocks[n] {
                BlockView::Text => {
                    &&& r is Ok <==> delta.says("type"@, "text_delta"@) && words is Some
                    &&& r is Ok ==> r->Ok_0 == (words->0.len() > 0)
                },
                BlockView::Thinking => {
                    &&& r is Ok <==> (delta.says("type"@, "thinking_delta"@) && thoughts is Some)
                        || (delta.says("type"@, "signature_delta"@) && delta.get_str("signature"@)
                        is Some)
                    &&& r is Ok ==> r->Ok_0 == (delta.says("type"@, "thinking_delta"@)
                        && thoughts->0.len() > 0)
                },
                BlockView::RedactedThinking => r is Err,
                BlockView::ToolUse { start_input, partial_json } => {
                    &&& r is Ok <==> delta.says("type"@, "input_json_delta"@) && json is Some
                    &&& r is Ok ==> !r->Ok_0 && next.blocks[n] == (BlockView::ToolUse {
                        start_input,
                        partial_json: partial_json + json->0,
                    })
                },
            }
        }),
{
    broadcast use vstd::map::group_map_axioms;
    broadcast use vstd::set::group_set_axioms;

    names_differ();
    let (next, r) = anthropic::after_event(state, "content_block_delta"@, value);
    if r is Ok {
        assert(next.blocks.dom() =~= state.blocks.dom());
    }
}

/// A block that ends is no longer open. A call of a tool counts when it ends, and
/// must then have an object as its input: the one that came in pieces, or else
/// the one that it began with.
pub proof fn blocks_end(state: ValidatorView, value: JsonView, n: u64)
    requires
        may_go_on(state, value),
        value.get_u64("index"@) == Some(n),
    ensures
        ({
            let (next, r) = anthropic::after_event(state, "content_block_stop"@, value);
            &&& !state.blocks.contains_key(n) ==> r is Err
            &&& !next.blocks.contains_key(n)
            &&& next.seen == state.seen
            &&& forall|m: u64|
                m != n ==> (#[trigger] next.blocks.contains_key(m) <==> state.blocks.contains_key(
                    m,
                ))
            &&& state.blocks.contains_key(n) ==> match state.blocks[n] {
                BlockView::ToolUse { start_input, partial_json } => {
                    let whole = if partial_json.len() == 0 {
                        start_input is Object
                    } else {
                        json_codec::parsed(partial_json) is Ok && json_codec::parsed(
                            partial_json,
                        )->Ok_0 is Object
                    };
                    if whole {
                        r == Ok::<bool, ErrorView>(true)
                    } else {
                        r is Err
                    }
                },
                _ => r == Ok::<bool, ErrorView>(false),
            }
        }),
{
    broadcast use vstd::map::group_map_axioms;
    broadcast use vstd::set::group_set_axioms;

    names_differ();
}

/// A message may end exactly when no block is open and something of substance has
/// come.
pub proof fn messages_end(state: ValidatorView, value: JsonView)
    requires
        may_go_on(state, value),
    ensures
        ({
            let (next, r) = anthropic::after_event(state, "message_stop"@, value);
            let open = exists|n: u64| #[trigger] state.blocks.contains_key(n);
            &&& r is Ok <==> !open && state.substantive
            &&& r is Ok ==> next.terminal_seen && !r->Ok_0
            &&& r is Err ==> next == state
        }),
{
    broadcast use vstd::map::group_map_axioms;
    broadcast use vstd::set::group_set_axioms;

    names_differ();
    if exists|n: u64| #[trigger] state.blocks.contains_key(n) {
        let n = choose|n: u64| #[trigger] state.blocks.contains_key(n);
        assert(state.blocks.dom().contains(n));
        assert(state.blocks.dom() != Set::<u64>::empty());
    } else {
        assert forall|n: u64| !state.blocks.dom().contains(n) by {
            assert(!state.blocks.contains_key(n));
        }
        assert(state.blocks.dom() =~= Set::<u64>::empty());
    }
}

/// Any other event changes nothing and counts for nothing.
pub proof fn other_events_count_for_nothing(
    state: ValidatorView,
    event: Seq<char>,
    value: JsonView,
)
    requires
        may_go_on(state, value),
        event != "error"@,
        event != "content_block_start"@,
        event != "content_block_delta"@,
        event != "content_block_stop"@,
        event != "message_stop"@,
    ensures
        anthropic::after_event(state, event, value) == (state, Ok::<bool, ErrorView>(false)),
{
}

/// A block of a stream is the event that it names, else the one that its data
/// names; the two must not differ. Its data must be JSON. Once anything of
/// substance has come, that stays so.
pub proof fn blocks_are_events(state: ValidatorView, raw: Seq<char>, name: Seq<char>, data: Seq<char>)
    requires
        sse::block_fields(raw) == (sse::FieldsView { event: Some(name), data: seq![data] }),
        name.len() > 0,
    ensures
        ({
            let (next, r) = anthropic::inspected(state, raw);
            match json_codec::parsed(data) {
                Err(_) => r is Err && next == state,
                Ok(value) => if value.get_str("type"@) is Some && !value.says("type"@, name) {
                    r is Err && next == state
                } else {
                    let (after, told) = anthropic::after_event(state, name, value);
                    &&& r is Ok <==> told is Ok
                    &&& r is Ok ==> r->Ok_0 == (after.substantive || told->Ok_0)
                    &&& r is Ok ==> next.substantive == r->Ok_0
                    &&& r is Err ==> r->Err_0 == told->Err_0
                    &&& next.blocks == after.blocks && next.seen == after.seen
                },
            }
        }),
{
    reveal_with_fuel(text::joined, 2);
    assert(text::joined(seq![data], "\n"@) =~= data);
}

/// A block without a name is the event that its data names. One without data
/// counts for nothing, but as an error where it is named so.
pub proof fn unnamed_blocks_are_events(state: ValidatorView, raw: Seq<char>, data: Seq<char>)
    requires
        sse::block_fields(raw).event is None || sse::block_fields(raw).event->0.len() == 0,
    ensures
        sse::block_fields(raw).data.len() == 0 ==> anthropic::inspected(state, raw) == (
            state,
            Ok::<bool, ErrorView>(false),
        ),
        sse::block_fields(raw).data == seq![data] ==> ({
            let (next, r) = anthropic::inspected(state, raw);
            match json_codec::parsed(data) {
                Err(_) => r is Err && next == state,
                Ok(value) => {
                    let (after, told) = anthropic::after_event(
                        state,
                        value.str_or("type"@, ""@),
                        value,
                    );
                    &&& r is Ok <==> told is Ok
                    &&& r is Ok ==> r->Ok_0 == (after.substantive || told->Ok_0)
                    &&& next.blocks == after.blocks && next.seen == after.seen
                },
            }
        }),
{
    reveal_with_fuel(text::joined, 2);
    assert(text::joined(seq![data], "\n"@) =~= data);
}

/// An event that is named an error and has no data is an error.
pub proof fn bare_errors_are_errors(state: ValidatorView, raw: Seq<char>)
    requires
        sse::block_fields(raw).event == Some("error"@),
        sse::block_fields(raw).data.len() == 0,
    ensures
        anthropic::inspected(state, raw).1 is Err,
        anthropic::inspected(state, raw).0 == state,
{
    reveal_strlit("error");
}

// ---------------------------------------------------------------------------
// The start of a stream
// ---------------------------------------------------------------------------

/// What the first block of a text does decides: a failure is reported, substance
/// hands the stream on with what follows, and anything else is passed over.
pub proof fn streams_begin_with_substance(state: AnthropicStartView)
    ensures
        ({
            let (next, verdict) = stream_start::after_anthropic_blocks(state);
            match sse::first_block(state.buffer) {
                None => verdict is Continue && next == state,
                Some((block, rest)) => {
                    let (validator, r) = anthropic::inspected(state.validator, block);
                    &&& r is Err ==> verdict == VerdictView::Fail(r->Err_0)
                    &&& r == Ok::<bool, ErrorView>(true) ==> verdict == VerdictView::Commit(true)
                    &&& r == Ok::<bool, ErrorView>(false) ==> (next, verdict)
                        == stream_start::after_anthropic_blocks(
                        AnthropicStartView { buffer: rest, validator, ..state },
                    )
                },
            }
        }),
{
    reveal_with_fuel(stream_start::after_anthropic_blocks, 2);
}

/// Bytes that are no text end a stream of the Messages protocol with an error;
/// bytes that wait for more do not.
pub proof fn streams_are_text(state: AnthropicStartView, chunk: Seq<u8>)
    requires
        state.size + chunk.len() <= 262_144,
    ensures
        ({
            let all = state.remainder + chunk;
            let whole = sse::whole(all);
            let (next, verdict) = stream_start::after_anthropic_chunk(state, chunk);
            &&& !valid_utf8(whole) ==> verdict is Fail
            &&& valid_utf8(whole) ==> (next, verdict) == stream_start::after_anthropic_blocks(
                AnthropicStartView {
                    buffer: state.buffer + decode_utf8(whole),
                    remainder: sse::pending(all),
                    chunks: state.chunks.push(chunk),
                    size: (state.size + chunk.len()) as usize,
                    ..state
                },
            )
        }),
{
}

// ---------------------------------------------------------------------------
// Documents
// ---------------------------------------------------------------------------

/// Whether a string is there and is more than white space.
pub open spec fn is_filled(v: JsonView, key: Seq<char>) -> bool {
    v.get_str(key) is Some && !text::blank(v.get_str(key)->0)
}

/// Whether a block of a message is as it must be: it has a type, and what its
/// type needs.
pub open spec fn is_good_block(block: JsonView) -> bool {
    &&& block.get_str("type"@) is Some
    &&& block.says("type"@, "text"@) ==> block.get_str("text"@) is Some
    &&& block.says("type"@, "thinking"@) ==> block.get_str("thinking"@) is Some
    &&& block.says("type"@, "redacted_thinking"@) ==> block.get_str("data"@) is Some
    &&& block.says("type"@, "tool_use"@) ==> is_filled(block, "id"@) && is_filled(block, "name"@)
        && block.get("input"@) is Some && block.get("input"@)->0 is Object
}

/// Whether a block of a message says anything: words, thoughts, or a call.
pub open spec fn says_something(block: JsonView) -> bool {
    ||| block.says("type"@, "tool_use"@)
    ||| block.says("type"@, "text"@) && block.get_str("text"@)->0.len() > 0
    ||| block.says("type"@, "thinking"@) && block.get_str("thinking"@)->0.len() > 0
    ||| block.says("type"@, "redacted_thinking"@) && block.get_str("data"@)->0.len() > 0
}

/// Whether a document is a message of the assistant that says something.
pub open spec fn is_good_message(value: JsonView) -> bool {
    let content = value.items_at("content"@);
    &&& !value.says("type"@, "error"@)
    &&& !tells_error(value)
    &&& value.says("type"@, "message"@)
    &&& value.says("role"@, "assistant"@)
    &&& value.get("content"@) is Some && value.get("content"@)->0 is Array
    &&& forall|i: int| 0 <= i < content.len() ==> is_good_block(#[trigger] content[i])
    &&& exists|i: int| 0 <= i < content.len() && says_something(#[trigger] content[i])
}

proof fn first_blocks(content: Seq<JsonView>, n: nat)
    requires
        n <= content.len(),
    ensures
        ({
            let r = seqs::folded(content, anthropic::with_document_block(), false, n);
            &&& r is Ok <==> forall|i: int| 0 <= i < n ==> is_good_block(#[trigger] content[i])
            &&& r is Ok ==> (r->Ok_0 <==> exists|i: int|
                0 <= i < n && says_something(#[trigger] content[i]))
        }),
    decreases n,
{
    if n > 0 {
        first_blocks(content, (n - 1) as nat);
        names_differ();
        let last = content[n - 1];
        assert(anthropic::document_block(last) is Ok <==> is_good_block(last));
        assert(is_good_block(last) ==> anthropic::document_block(last)->Ok_0 == says_something(
            last,
        ));
    }
}

/// A document passes exactly where it is a message of the assistant, all its
/// blocks are as they must be, and one of them says something.
pub proof fn good_messages_pass(value: JsonView)
    ensures
        anthropic::document_verdict(value) is Ok <==> is_good_message(value),
{
    let content = value.items_at("content"@);
    first_blocks(content, content.len());
}

} // verus!
