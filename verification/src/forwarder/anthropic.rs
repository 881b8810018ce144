//! Holding what a provider answers in the Messages protocol to that protocol,
//! before any of it reaches the client.
use crate::error::{ErrorView, ProxyError};
use crate::forwarder::errors;
use crate::forwarder::errors::{
    empty_codex_anthropic_stream_error, malformed_anthropic_stream_error, responses_upstream_error,
};
use crate::json;
use crate::json::{Json, JsonView};
use crate::json_codec;
use crate::sse;
use crate::text;
use std::collections::HashMap;
use std::collections::HashSet;
use vstd::prelude::*;
use vstd::string::*;
use vstd::utf8::{decode_utf8, valid_utf8};

verus! {

// ---------------------------------------------------------------------------
// Errors that a provider reports
// ---------------------------------------------------------------------------

/// Whether a member is there and not null.
pub open spec fn has_value(v: JsonView, key: Seq<char>) -> bool {
    v.get(key) is Some && !(v.get(key)->0 is Null)
}

pub fn has_non_null(v: &Json, key: &str) -> (r: bool)
    ensures
        r == has_value(v@, key@),
{
    match v.get(key) {
        Some(m) => !m.is_null(),
        None => false,
    }
}

/// The error that a value reports, with what it says of it.
pub open spec fn reported_error(value: JsonView) -> ErrorView {
    let error = match value.get("error"@) {
        Some(e) => e,
        None => value,
    };
    let message = match error.get_str("message"@) {
        Some(s) => s,
        None => match error.as_str() {
            Some(s) => s,
            None => "Anthropic upstream emitted an error before output"@,
        },
    };
    errors::upstream_error(error.str_or("type"@, "upstream_error"@), message)
}

fn take_reported_error(value: &Json) -> (r: ProxyError)
    ensures
        r@ == reported_error(value@),
{
    let error = match value.get("error") {
        Some(e) => e,
        None => value,
    };
    let message = match error.get_str("message") {
        Some(s) => s,
        None => match error.as_str() {
            Some(s) => s,
            None => "Anthropic upstream emitted an error before output",
        },
    };
    responses_upstream_error(error.str_or("type", "upstream_error"), message)
}

// ---------------------------------------------------------------------------
// The blocks of a stream
// ---------------------------------------------------------------------------

/// A content block that is open.
#[derive(Debug)]
pub enum AnthropicValidationBlock {
    Text,
    Thinking,
    RedactedThinking,
    ToolUse { start_input: Json, partial_json: String },
}

/// What an open block says.
pub enum BlockView {
    Text,
    Thinking,
    RedactedThinking,
    ToolUse { start_input: JsonView, partial_json: Seq<char> },
}

impl View for AnthropicValidationBlock {
    type V = BlockView;

    open spec fn view(&self) -> BlockView {
        match self {
            AnthropicValidationBlock::Text => BlockView::Text,
            AnthropicValidationBlock::Thinking => BlockView::Thinking,
            AnthropicValidationBlock::RedactedThinking => BlockView::RedactedThinking,
            AnthropicValidationBlock::ToolUse { start_input, partial_json } => BlockView::ToolUse {
                start_input: start_input@,
                partial_json: partial_json@,
            },
        }
    }
}

/// How far a stream has come: the blocks that are open, the numbers of those
/// that were ever begun, whether anything of substance came, and whether the
/// message ended.
#[verifier::ext_equal]
pub struct ValidatorView {
    pub blocks: Map<u64, BlockView>,
    pub seen: Set<u64>,
    pub substantive: bool,
    pub terminal_seen: bool,
}

impl ValidatorView {
    pub open spec fn fresh() -> ValidatorView {
        ValidatorView {
            blocks: Map::empty(),
            seen: Set::empty(),
            substantive: false,
            terminal_seen: false,
        }
    }
}

/// The number of the block that an event speaks of.
pub open spec fn event_index(value: JsonView) -> Result<u64, ErrorView> {
    match value.get_u64("index"@) {
        Some(n) => Ok(n),
        None => Err(errors::unusable("Anthropic content block event omitted a valid index"@)),
    }
}

fn anthropic_event_index(value: &Json) -> (r: Result<u64, ProxyError>)
    ensures
        (match r {
            Ok(n) => Ok::<u64, ErrorView>(n),
            Err(e) => Err(e@),
        }) == event_index(value@),
{
    match value.get_u64("index") {
        Some(n) => Ok(n),
        None => Err(
            malformed_anthropic_stream_error("Anthropic content block event omitted a valid index"),
        ),
    }
}

/// Whether a string member is there and not empty.
pub open spec fn has_filled(v: JsonView, key: Seq<char>) -> bool {
    v.get_str(key) matches Some(s) && s.len() > 0
}

fn is_filled(v: &Json, key: &str) -> (r: bool)
    ensures
        r == has_filled(v@, key@),
{
    match v.get_str(key) {
        Some(s) => !s.is_empty(),
        None => false,
    }
}

/// Whether a tool use may begin like this.
pub open spec fn may_begin_tool_use(block: JsonView) -> bool {
    &&& has_filled(block, "id"@)
    &&& has_filled(block, "name"@)
    &&& block.get("input"@) is Some ==> block.get("input"@)->0 is Object
}

pub fn valid_anthropic_tool_use_start(block: &Json) -> (r: bool)
    ensures
        r == may_begin_tool_use(block@),
{
    is_filled(block, "id") && is_filled(block, "name") && (match block.get("input") {
        Some(input) => input.is_object(),
        None => true,
    })
}

/// Whether a tool use is complete.
pub open spec fn is_tool_use(block: JsonView) -> bool {
    &&& block.get_str("id"@) matches Some(s) && !text::blank(s)
    &&& block.get_str("name"@) matches Some(s) && !text::blank(s)
    &&& block.get("input"@) is Some && block.get("input"@)->0 is Object
}

fn is_shown(v: &Json, key: &str) -> (r: bool)
    ensures
        r == (v@.get_str(key@) matches Some(s) && !text::blank(s)),
{
    match v.get_str(key) {
        Some(s) => !text::is_blank(s),
        None => false,
    }
}

pub fn valid_anthropic_tool_use(block: &Json) -> (r: bool)
    ensures
        r == is_tool_use(block@),
{
    is_shown(block, "id") && is_shown(block, "name") && (match block.get("input") {
        Some(input) => input.is_object(),
        None => false,
    })
}

/// What a block is when it begins, and whether it has substance; nothing of a
/// kind that is not known.
pub open spec fn begun_block(value: JsonView) -> Result<Option<(BlockView, bool)>, ErrorView> {
    match value.get("content_block"@) {
        None => Err(errors::unusable("Anthropic content block start omitted content_block"@)),
        Some(block) => match block.get_str("type"@) {
            None => Err(errors::unusable("Anthropic content block start omitted its type"@)),
            Some(kind) => if kind == "text"@ {
                match block.get_str("text"@) {
                    None => Err(errors::unusable("Anthropic text block omitted text"@)),
                    Some(s) => Ok(Some((BlockView::Text, s.len() > 0))),
                }
            } else if kind == "thinking"@ {
                Ok(Some((BlockView::Thinking, has_filled(block, "thinking"@))))
            } else if kind == "redacted_thinking"@ {
                match block.get_str("data"@) {
                    None => Err(
                        errors::unusable("Anthropic redacted thinking block omitted data"@),
                    ),
                    Some(s) => Ok(Some((BlockView::RedactedThinking, s.len() > 0))),
                }
            } else if kind == "tool_use"@ {
                if may_begin_tool_use(block) {
                    let input = match block.get("input"@) {
                        Some(v) => v,
                        None => JsonView::object(),
                    };
                    Ok(
                        Some(
                            (
                                BlockView::ToolUse {
                                    start_input: input,
                                    partial_json: Seq::empty(),
                                },
                                false,
                            ),
                        ),
                    )
                } else {
                    Err(
                        errors::unusable(
                            "Anthropic tool use omitted a valid id, name, or input object"@,
                        ),
                    )
                }
            } else {
                Ok(None)
            },
        },
    }
}

fn begin_block(value: &Json) -> (r: Result<Option<(AnthropicValidationBlock, bool)>, ProxyError>)
    ensures
        (match r {
            Ok(Some(p)) => Ok::<Option<(BlockView, bool)>, ErrorView>(Some((p.0@, p.1))),
            Ok(None) => Ok(None),
            Err(e) => Err(e@),
        }) == begun_block(value@),
{
    let block = match value.get("content_block") {
        Some(block) => block,
        None => {
            return Err(
                malformed_anthropic_stream_error(
                    "Anthropic content block start omitted content_block",
                ),
            );
        },
    };
    let kind = match block.get_str("type") {
        Some(kind) => kind,
        None => {
            return Err(
                malformed_anthropic_stream_error("Anthropic content block start omitted its type"),
            );
        },
    };
    if text::same_text(kind, "text") {
        match block.get_str("text") {
            Some(s) => Ok(Some((AnthropicValidationBlock::Text, !s.is_empty()))),
            None => Err(malformed_anthropic_stream_error("Anthropic text block omitted text")),
        }
    } else if text::same_text(kind, "thinking") {
        Ok(Some((AnthropicValidationBlock::Thinking, is_filled(block, "thinking"))))
    } else if text::same_text(kind, "redacted_thinking") {
        match block.get_str("data") {
            Some(s) => Ok(Some((AnthropicValidationBlock::RedactedThinking, !s.is_empty()))),
            None => Err(
                malformed_anthropic_stream_error("Anthropic redacted thinking block omitted data"),
            ),
        }
    } else if text::same_text(kind, "tool_use") {
        if valid_anthropic_tool_use_start(block) {
            let start_input = match block.get("input") {
                Some(v) => v.copy(),
                None => Json::object(),
            };
            let partial_json = String::new();
            assert(partial_json@ =~= Seq::<char>::empty());
            Ok(Some((AnthropicValidationBlock::ToolUse { start_input, partial_json }, false)))
        } else {
            Err(
                malformed_anthropic_stream_error(
                    "Anthropic tool use omitted a valid id, name, or input object",
                ),
            )
        }
    } else {
        Ok(None)
    }
}

/// What a string of a delta has to be, and whether it has substance.
pub open spec fn delta_string(delta: JsonView, key: Seq<char>, message: Seq<char>) -> Result<
    bool,
    ErrorView,
> {
    match delta.get_str(key) {
        Some(s) => Ok(s.len() > 0),
        None => Err(errors::unusable(message)),
    }
}

fn take_delta_string(delta: &Json, key: &str, message: &str) -> (r: Result<bool, ProxyError>)
    ensures
        bool_result(r) == delta_string(delta@, key@, message@),
{
    match delta.get_str(key) {
        Some(s) => Ok(!s.is_empty()),
        None => Err(malformed_anthropic_stream_error(message)),
    }
}

pub open spec fn bool_result(r: Result<bool, ProxyError>) -> Result<bool, ErrorView> {
    match r {
        Ok(b) => Ok(b),
        Err(e) => Err(e@),
    }
}

/// The delta of an event, with its kind.
pub open spec fn event_delta(value: JsonView) -> Result<(JsonView, Seq<char>), ErrorView> {
    match value.get("delta"@) {
        None => Err(errors::unusable("Anthropic content block delta omitted delta"@)),
        Some(delta) => match delta.get_str("type"@) {
            None => Err(errors::unusable("Anthropic content block delta omitted its type"@)),
            Some(kind) => Ok((delta, kind)),
        },
    }
}

/// What a delta makes of an open block, and whether it has substance.
pub open spec fn updated_block(block: BlockView, delta: JsonView, kind: Seq<char>) -> Result<
    (BlockView, bool),
    ErrorView,
> {
    let mismatch = errors::unusable(
        "Anthropic content block delta did not match its block type"@,
    );
    match block {
        BlockView::RedactedThinking => Err(
            errors::unusable("Anthropic redacted thinking block emitted an unexpected delta"@),
        ),
        BlockView::Text => if kind == "text_delta"@ {
            match delta_string(delta, "text"@, "Anthropic text delta omitted text"@) {
                Err(e) => Err(e),
                Ok(b) => Ok((block, b)),
            }
        } else {
            Err(mismatch)
        },
        BlockView::Thinking => if kind == "thinking_delta"@ {
            match delta_string(
                delta,
                "thinking"@,
                "Anthropic thinking delta omitted thinking"@,
            ) {
                Err(e) => Err(e),
                Ok(b) => Ok((block, b)),
            }
        } else if kind == "signature_delta"@ {
            match delta_string(
                delta,
                "signature"@,
                "Anthropic signature delta omitted signature"@,
            ) {
                Err(e) => Err(e),
                Ok(_) => Ok((block, false)),
            }
        } else {
            Err(mismatch)
        },
        BlockView::ToolUse { start_input, partial_json } => if kind == "input_json_delta"@ {
            match delta.get_str("partial_json"@) {
                None => Err(errors::unusable("Anthropic tool input delta omitted partial_json"@)),
                Some(s) => Ok(
                    (BlockView::ToolUse { start_input, partial_json: partial_json + s }, false),
                ),
            }
        } else {
            Err(mismatch)
        },
    }
}

/// Takes a delta in. A delta that is refused changes nothing.
fn update_open_block(block: &mut AnthropicValidationBlock, delta: &Json, kind: &str) -> (r: Result<
    bool,
    ProxyError,
>)
    ensures
        match r {
            Ok(b) => updated_block(old(block)@, delta@, kind@) == Ok::<
                (BlockView, bool),
                ErrorView,
            >((final(block)@, b)),
            Err(e) => updated_block(old(block)@, delta@, kind@) == Err::<
                (BlockView, bool),
                ErrorView,
            >(e@) && final(block)@ == old(block)@,
        },
{
    match block {
        AnthropicValidationBlock::RedactedThinking => Err(
            malformed_anthropic_stream_error(
                "Anthropic redacted thinking block emitted an unexpected delta",
            ),
        ),
        AnthropicValidationBlock::Text => {
            if text::same_text(kind, "text_delta") {
                take_delta_string(delta, "text", "Anthropic text delta omitted text")
            } else {
                Err(
                    malformed_anthropic_stream_error(
                        "Anthropic content block delta did not match its block type",
                    ),
                )
            }
        },
        AnthropicValidationBlock::Thinking => {
            if text::same_text(kind, "thinking_delta") {
                take_delta_string(delta, "thinking", "Anthropic thinking delta omitted thinking")
            } else if text::same_text(kind, "signature_delta") {
                match take_delta_string(
                    delta,
                    "signature",
                    "Anthropic signature delta omitted signature",
                ) {
                    Ok(_) => Ok(false),
                    Err(e) => Err(e),
                }
            } else {
                Err(
                    malformed_anthropic_stream_error(
                        "Anthropic content block delta did not match its block type",
                    ),
                )
            }
        },
        AnthropicValidationBlock::ToolUse { partial_json, .. } => {
            if text::same_text(kind, "input_json_delta") {
                match delta.get_str("partial_json") {
                    Some(s) => {
                        partial_json.append(s);
                        Ok(false)
                    },
                    None => Err(
                        malformed_anthropic_stream_error(
                            "Anthropic tool input delta omitted partial_json",
                        ),
                    ),
                }
            } else {
                Err(
                    malformed_anthropic_stream_error(
                        "Anthropic content block delta did not match its block type",
                    ),
                )
            }
        },
    }
}

/// What a block amounts to when it ends: a tool use has substance, where its
/// input is an object.
pub open spec fn ended_block(block: BlockView) -> Result<bool, ErrorView> {
    match block {
        BlockView::ToolUse { start_input, partial_json } => if partial_json.len() == 0 {
            if start_input is Object {
                Ok(true)
            } else {
                Err(errors::unusable("Anthropic tool input did not form a JSON object"@))
            }
        } else {
            match json_codec::parsed(partial_json) {
                Err(_) => Err(
                    errors::unusable("Anthropic tool input deltas did not form valid JSON"@),
                ),
                Ok(input) => if input is Object {
                    Ok(true)
                } else {
                    Err(errors::unusable("Anthropic tool input did not form a JSON object"@))
                },
            }
        },
        _ => Ok(false),
    }
}

/// Ends a block. Gives whether it is a tool use, whose input must be an object.
pub fn end_block(block: &AnthropicValidationBlock) -> (r: Result<bool, ProxyError>)
    ensures
        bool_result(r) == ended_block(block@),
{
    match block {
        AnthropicValidationBlock::ToolUse { start_input, partial_json } => {
            let is_object = if partial_json.as_str().is_empty() {
                start_input.is_object()
            } else {
                match json_codec::parse(partial_json.as_str()) {
                    Ok(input) => input.is_object(),
                    Err(_) => {
                        return Err(
                            malformed_anthropic_stream_error(
                                "Anthropic tool input deltas did not form valid JSON",
                            ),
                        );
                    },
                }
            };
            if is_object {
                Ok(true)
            } else {
                Err(
                    malformed_anthropic_stream_error(
                        "Anthropic tool input did not form a JSON object",
                    ),
                )
            }
        },
        _ => Ok(false),
    }
}

// ---------------------------------------------------------------------------
// The events of a stream
// ---------------------------------------------------------------------------

/// What has come of an event: how far the stream is, and whether the event has
/// substance.
pub type Inspected = (ValidatorView, Result<bool, ErrorView>);

/// A block begins. Its number is taken from then on, whatever the block is.
pub open spec fn after_start(state: ValidatorView, value: JsonView) -> Inspected {
    match event_index(value) {
        Err(e) => (state, Err(e)),
        Ok(n) => {
            let marked = ValidatorView { seen: state.seen.insert(n), ..state };
            if state.seen.contains(n) {
                (
                    marked,
                    Err(
                        errors::unusable("Anthropic stream started the same content block twice"@),
                    ),
                )
            } else {
                match begun_block(value) {
                    Err(e) => (marked, Err(e)),
                    Ok(None) => (marked, Ok(false)),
                    Ok(Some((block, substantive))) => (
                        ValidatorView { blocks: marked.blocks.insert(n, block), ..marked },
                        Ok(substantive),
                    ),
                }
            }
        },
    }
}

/// A delta of a block that is open.
pub open spec fn after_delta(state: ValidatorView, value: JsonView) -> Inspected {
    match event_index(value) {
        Err(e) => (state, Err(e)),
        Ok(n) => match event_delta(value) {
            Err(e) => (state, Err(e)),
            Ok((delta, kind)) => if !state.blocks.contains_key(n) {
                (
                    state,
                    Err(
                        errors::unusable(
                            "Anthropic content block delta arrived before its block start"@,
                        ),
                    ),
                )
            } else {
                match updated_block(state.blocks[n], delta, kind) {
                    Err(e) => (state, Err(e)),
                    Ok((block, substantive)) => (
                        ValidatorView { blocks: state.blocks.insert(n, block), ..state },
                        Ok(substantive),
                    ),
                }
            },
        },
    }
}

/// The end of a block that is open.
pub open spec fn after_stop(state: ValidatorView, value: JsonView) -> Inspected {
    match event_index(value) {
        Err(e) => (state, Err(e)),
        Ok(n) => if !state.blocks.contains_key(n) {
            (
                state,
                Err(errors::unusable("Anthropic content block stopped before it was started"@)),
            )
        } else {
            (
                ValidatorView { blocks: state.blocks.remove(n), ..state },
                ended_block(state.blocks[n]),
            )
        },
    }
}

/// The end of the message: no block may be open, and something must have come.
pub open spec fn after_message_stop(state: ValidatorView) -> Inspected {
    if state.blocks.dom() != Set::<u64>::empty() {
        (state, Err(errors::unusable("Anthropic stream completed with an open content block"@)))
    } else if !state.substantive {
        (
            state,
            Err(
                errors::unusable(
                    "Anthropic stream completed without text, reasoning, or a complete tool call"@,
                ),
            ),
        )
    } else {
        (ValidatorView { terminal_seen: true, ..state }, Ok(false))
    }
}

/// What has come of an event by its name.
pub open spec fn after_event(state: ValidatorView, event: Seq<char>, value: JsonView) -> Inspected {
    if state.terminal_seen {
        (state, Err(errors::unusable("Anthropic stream emitted an event after message_stop"@)))
    } else if event == "error"@ || has_value(value, "error"@) {
        (state, Err(reported_error(value)))
    } else if event == "content_block_start"@ {
        after_start(state, value)
    } else if event == "content_block_delta"@ {
        after_delta(state, value)
    } else if event == "content_block_stop"@ {
        after_stop(state, value)
    } else if event == "message_stop"@ {
        after_message_stop(state)
    } else {
        (state, Ok(false))
    }
}

/// The name of an event, where it is not empty.
pub open spec fn named_event(fields: sse::FieldsView) -> Option<Seq<char>> {
    match fields.event {
        Some(event) if event.len() > 0 => Some(event),
        _ => None,
    }
}

/// What has come of a block of the stream: how far the stream is, and whether
/// anything of substance has come so far.
pub open spec fn inspected(state: ValidatorView, raw: Seq<char>) -> Inspected {
    let fields = sse::block_fields(raw);
    let name = named_event(fields);
    if fields.data.len() == 0 {
        if name == Some("error"@) {
            (state, Err(errors::unusable("Anthropic error event did not contain JSON data"@)))
        } else {
            (state, Ok(false))
        }
    } else {
        match json_codec::parsed(text::joined(fields.data, "\n"@)) {
            Err(_) => (
                state,
                Err(errors::unusable("Anthropic SSE event contained invalid JSON data"@)),
            ),
            Ok(value) => {
                let typed = value.get_str("type"@);
                if name is Some && typed is Some && name != typed {
                    (
                        state,
                        Err(
                            errors::unusable(
                                "Anthropic SSE event name did not match its JSON type"@,
                            ),
                        ),
                    )
                } else {
                    let event = match name {
                        Some(event) => event,
                        None => match typed {
                            Some(event) => event,
                            None => ""@,
                        },
                    };
                    let (after, r) = after_event(state, event, value);
                    match r {
                        Err(e) => (after, Err(e)),
                        Ok(b) => {
                            let substantive = after.substantive || b;
                            (ValidatorView { substantive, ..after }, Ok(substantive))
                        },
                    }
                }
            },
        }
    }
}

/// Follows a stream of the Messages protocol from its start.
#[derive(Debug)]
pub struct AnthropicStreamStartValidator {
    blocks: HashMap<u64, AnthropicValidationBlock>,
    seen_blocks: HashSet<u64>,
    substantive_output: bool,
    terminal_seen: bool,
}

impl View for AnthropicStreamStartValidator {
    type V = ValidatorView;

    closed spec fn view(&self) -> ValidatorView {
        ValidatorView {
            blocks: self.blocks@.map_values(|b: AnthropicValidationBlock| b@),
            seen: self.seen_blocks@,
            substantive: self.substantive_output,
            terminal_seen: self.terminal_seen,
        }
    }
}

impl Default for AnthropicStreamStartValidator {
    fn default() -> (r: Self)
        ensures
            r@ == ValidatorView::fresh(),
    {
        let r = AnthropicStreamStartValidator {
            blocks: HashMap::new(),
            seen_blocks: HashSet::new(),
            substantive_output: false,
            terminal_seen: false,
        };
        assert(r@.blocks =~= Map::<u64, BlockView>::empty());
        r
    }
}

impl AnthropicStreamStartValidator {
    pub fn for_streaming_conversion() -> (r: Self)
        ensures
            r@ == ValidatorView::fresh(),
    {
        AnthropicStreamStartValidator::default()
    }

    fn start_block(&mut self, value: &Json) -> (r: Result<bool, ProxyError>)
        ensures
            (final(self)@, bool_result(r)) == after_start(old(self)@, value@),
    {
        broadcast use vstd::std_specs::hash::group_hash_axioms;

        let index: u64 = match anthropic_event_index(value) {
            Ok(n) => n,
            Err(e) => {
                return Err(e);
            },
        };
        if !self.seen_blocks.insert(index) {
            assert(self@.seen =~= old(self)@.seen.insert(index));
            return Err(
                malformed_anthropic_stream_error(
                    "Anthropic stream started the same content block twice",
                ),
            );
        }
        match begin_block(value) {
            Err(e) => Err(e),
            Ok(None) => Ok(false),
            Ok(Some((block, substantive))) => {
                let ghost view = block@;
                let ghost before = self@.blocks;
                self.blocks.insert(index, block);
                assert(self@.blocks =~= before.insert(index, view));
                Ok(substantive)
            },
        }
    }

    fn update_block(&mut self, value: &Json) -> (r: Result<bool, ProxyError>)
        ensures
            (final(self)@, bool_result(r)) == after_delta(old(self)@, value@),
    {
        broadcast use vstd::std_specs::hash::group_hash_axioms;

        let index: u64 = match anthropic_event_index(value) {
            Ok(n) => n,
            Err(e) => {
                return Err(e);
            },
        };
        let delta = match value.get("delta") {
            Some(delta) => delta,
            None => {
                return Err(
                    malformed_anthropic_stream_error("Anthropic content block delta omitted delta"),
                );
            },
        };
        let kind = match delta.get_str("type") {
            Some(kind) => kind,
            None => {
                return Err(
                    malformed_anthropic_stream_error(
                        "Anthropic content block delta omitted its type",
                    ),
                );
            },
        };
        let ghost before = self@.blocks;
        match self.blocks.remove(&index) {
            None => {
                assert(self@.blocks =~= before);
                Err(
                    malformed_anthropic_stream_error(
                        "Anthropic content block delta arrived before its block start",
                    ),
                )
            },
            Some(mut block) => {
                let ghost was = block@;
                let r = update_open_block(&mut block, delta, kind);
                let ghost view = block@;
                self.blocks.insert(index, block);
                proof {
                    assert(before[index] == was);
                    assert(self@.blocks =~= before.insert(index, view));
                    if r is Err {
                        assert(before.insert(index, was) =~= before);
                    }
                }
                r
            },
        }
    }

    fn stop_block(&mut self, value: &Json) -> (r: Result<bool, ProxyError>)
        ensures
            (final(self)@, bool_result(r)) == after_stop(old(self)@, value@),
    {
        broadcast use vstd::std_specs::hash::group_hash_axioms;

        let index: u64 = match anthropic_event_index(value) {
            Ok(n) => n,
            Err(e) => {
                return Err(e);
            },
        };
        let ghost before = self@.blocks;
        match self.blocks.remove(&index) {
            None => {
                assert(self@.blocks =~= before);
                Err(
                    malformed_anthropic_stream_error(
                        "Anthropic content block stopped before it was started",
                    ),
                )
            },
            Some(block) => {
                assert(self@.blocks =~= before.remove(index));
                end_block(&block)
            },
        }
    }

    fn stop_message(&mut self) -> (r: Result<bool, ProxyError>)
        ensures
            (final(self)@, bool_result(r)) == after_message_stop(old(self)@),
    {
        broadcast use vstd::std_specs::hash::group_hash_axioms;

        proof {
            let m = self.blocks@;
            assert(self@.blocks.dom() =~= m.dom());
            if m.dom() =~= Set::<u64>::empty() {
                assert(m.dom().len() == 0);
            } else {
                assert(m.dom().finite());
                if m.dom().len() == 0 {
                    m.dom().lemma_len0_is_empty();
                }
            }
        }
        if !self.blocks.is_empty() {
            return Err(
                malformed_anthropic_stream_error(
                    "Anthropic stream completed with an open content block",
                ),
            );
        }
        if !self.substantive_output {
            return Err(
                empty_codex_anthropic_stream_error(
                    "Anthropic stream completed without text, reasoning, or a complete tool call",
                ),
            );
        }
        self.terminal_seen = true;
        Ok(false)
    }

    /// Takes one event in, with its name and its data. Gives whether it brought
    /// anything of substance.
    pub fn inspect_event(&mut self, event: &str, value: &Json) -> (r: Result<bool, ProxyError>)
        ensures
            (final(self)@, bool_result(r)) == after_event(old(self)@, event@, value@),
    {
        if self.terminal_seen {
            return Err(
                malformed_anthropic_stream_error(
                    "Anthropic stream emitted an event after message_stop",
                ),
            );
        }
        if text::same_text(event, "error") || has_non_null(value, "error") {
            return Err(take_reported_error(value));
        }
        if text::same_text(event, "content_block_start") {
            self.start_block(value)
        } else if text::same_text(event, "content_block_delta") {
            self.update_block(value)
        } else if text::same_text(event, "content_block_stop") {
            self.stop_block(value)
        } else if text::same_text(event, "message_stop") {
            self.stop_message()
        } else {
            Ok(false)
        }
    }

    /// Takes one block of the stream in. Gives whether anything of substance
    /// has come so far.
    pub fn inspect_sse_block(&mut self, raw: &str) -> (r: Result<bool, ProxyError>)
        ensures
            (final(self)@, bool_result(r)) == inspected(old(self)@, raw@),
    {
        let fields = sse::read_fields(raw);
        assert(text::texts(fields.data@).len() == fields.data@.len());
        let name: Option<&str> = match &fields.event {
            Some(event) => {
                if event.as_str().is_empty() {
                    None
                } else {
                    Some(event.as_str())
                }
            },
            None => None,
        };
        assert(text::opt_text(name) == named_event(fields@));
        if fields.data.len() == 0 {
            if text::is_text(name, "error") {
                return Err(
                    malformed_anthropic_stream_error(
                        "Anthropic error event did not contain JSON data",
                    ),
                );
            }
            return Ok(false);
        }
        let data = text::join(&fields.data, "\n");
        let value = match json_codec::parse(data.as_str()) {
            Ok(v) => v,
            Err(_) => {
                return Err(
                    malformed_anthropic_stream_error(
                        "Anthropic SSE event contained invalid JSON data",
                    ),
                );
            },
        };
        let typed = value.get_str("type");
        let event = match name {
            Some(event) => {
                if let Some(other) = typed {
                    if !text::same_text(event, other) {
                        return Err(
                            malformed_anthropic_stream_error(
                                "Anthropic SSE event name did not match its JSON type",
                            ),
                        );
                    }
                }
                event
            },
            None => match typed {
                Some(event) => event,
                None => "",
            },
        };
        match self.inspect_event(event, &value) {
            Err(e) => Err(e),
            Ok(b) => {
                self.substantive_output = self.substantive_output || b;
                Ok(self.substantive_output)
            },
        }
    }
}

// ---------------------------------------------------------------------------
// Documents
// ---------------------------------------------------------------------------

/// Whether a block of a message has substance.
pub open spec fn document_block(block: JsonView) -> Result<bool, ErrorView> {
    match block.get_str("type"@) {
        None => Err(errors::unusable("Anthropic content block omitted its type"@)),
        Some(kind) => if kind == "tool_use"@ {
            if is_tool_use(block) {
                Ok(true)
            } else {
                Err(
                    errors::unusable(
                        "Anthropic tool use omitted a valid id, name, or input object"@,
                    ),
                )
            }
        } else if kind == "text"@ {
            delta_string(block, "text"@, "Anthropic text block omitted text"@)
        } else if kind == "thinking"@ {
            delta_string(block, "thinking"@, "Anthropic thinking block omitted thinking"@)
        } else if kind == "redacted_thinking"@ {
            delta_string(block, "data"@, "Anthropic redacted thinking block omitted data"@)
        } else {
            Ok(false)
        },
    }
}

/// Whether any of the blocks so far has substance.
pub open spec fn with_document_block() -> spec_fn(bool, JsonView) -> Result<bool, ErrorView> {
    |substantive: bool, block: JsonView|
        match document_block(block) {
            Err(e) => Err(e),
            Ok(b) => Ok(substantive || b),
        }
}

/// Whether a JSON document is a message with substance.
pub open spec fn document_verdict(value: JsonView) -> Result<(), ErrorView> {
    if value.says("type"@, "error"@) || has_value(value, "error"@) {
        Err(reported_error(value))
    } else if !value.says("type"@, "message"@) || !value.says("role"@, "assistant"@) {
        Err(errors::unusable("Anthropic JSON response was not an assistant message"@))
    } else {
        match value.get_array("content"@) {
            None => Err(
                errors::unusable("Anthropic assistant message omitted its content array"@),
            ),
            Some(content) => match crate::seqs::folded(
                content,
                with_document_block(),
                false,
                content.len(),
            ) {
                Err(e) => Err(e),
                Ok(true) => Ok(()),
                Ok(false) => Err(
                    errors::unusable(
                        "Anthropic response completed without text, reasoning, or a tool call"@,
                    ),
                ),
            },
        }
    }
}

/// Whether a text is a message with substance; nothing where it is no JSON.
pub open spec fn inspected_document(input: Seq<char>) -> Option<Result<(), ErrorView>> {
    match json_codec::parsed(text::trimmed(input)) {
        Err(_) => None,
        Ok(value) => Some(document_verdict(value)),
    }
}

pub open spec fn unit_result(r: Result<(), ProxyError>) -> Result<(), ErrorView> {
    match r {
        Ok(_) => Ok(()),
        Err(e) => Err(e@),
    }
}

fn inspect_document_block(block: &Json) -> (r: Result<bool, ProxyError>)
    ensures
        bool_result(r) == document_block(block@),
{
    let kind = match block.get_str("type") {
        Some(kind) => kind,
        None => {
            return Err(malformed_anthropic_stream_error("Anthropic content block omitted its type"));
        },
    };
    if text::same_text(kind, "tool_use") {
        if valid_anthropic_tool_use(block) {
            Ok(true)
        } else {
            Err(
                malformed_anthropic_stream_error(
                    "Anthropic tool use omitted a valid id, name, or input object",
                ),
            )
        }
    } else if text::same_text(kind, "text") {
        take_delta_string(block, "text", "Anthropic text block omitted text")
    } else if text::same_text(kind, "thinking") {
        take_delta_string(block, "thinking", "Anthropic thinking block omitted thinking")
    } else if text::same_text(kind, "redacted_thinking") {
        take_delta_string(block, "data", "Anthropic redacted thinking block omitted data")
    } else {
        Ok(false)
    }
}

/// Holds a JSON document to be a message with substance.
pub fn judge_document(value: &Json) -> (r: Result<(), ProxyError>)
    ensures
        unit_result(r) == document_verdict(value@),
{
    if value.says("type", "error") || has_non_null(value, "error") {
        return Err(take_reported_error(value));
    }
    if !value.says("type", "message") || !value.says("role", "assistant") {
        return Err(
            malformed_anthropic_stream_error("Anthropic JSON response was not an assistant message"),
        );
    }
    let content = match value.get_array("content") {
        Some(v) => v,
        None => {
            return Err(
                malformed_anthropic_stream_error(
                    "Anthropic assistant message omitted its content array",
                ),
            );
        },
    };
    let ghost views = json::items_view(content@);
    let ghost f = with_document_block();
    let mut substantive = false;
    let mut i: usize = 0;
    while i < content.len()
        invariant
            i <= content@.len(),
            views == json::items_view(content@),
            f == with_document_block(),
            value@.get_array("content"@) == Some(views),
            !value@.says("type"@, "error"@) && !has_value(value@, "error"@),
            value@.says("type"@, "message"@) && value@.says("role"@, "assistant"@),
            crate::seqs::folded(views, f, false, i as nat) == Ok::<bool, ErrorView>(substantive),
        decreases content@.len() - i,
    {
        assert(views[i as int] == content@[i as int]@);
        proof {
            if crate::seqs::folded(views, f, false, (i + 1) as nat) is Err {
                crate::seqs::folded_stops(views, f, false, (i + 1) as nat, views.len());
            }
        }
        match inspect_document_block(&content[i]) {
            Err(e) => {
                return Err(e);
            },
            Ok(b) => {
                substantive = substantive || b;
            },
        }
        i = i + 1;
    }
    if substantive {
        Ok(())
    } else {
        Err(
            empty_codex_anthropic_stream_error(
                "Anthropic response completed without text, reasoning, or a tool call",
            ),
        )
    }
}

pub fn inspect_anthropic_json_document(input: &str) -> (r: Option<Result<(), ProxyError>>)
    ensures
        (match r {
            Some(r) => Some(unit_result(r)),
            None => None,
        }) == inspected_document(input@),
{
    let trimmed = text::trim(input);
    match json_codec::parse(trimmed.as_str()) {
        Ok(value) => Some(judge_document(&value)),
        Err(_) => None,
    }
}

/// Whether a whole body is a message with substance.
pub open spec fn body_verdict(body: Seq<u8>) -> Result<(), ErrorView> {
    if !valid_utf8(body) {
        Err(
            errors::unusable("Anthropic returned a non-UTF-8 2xx body before producing output"@),
        )
    } else {
        match inspected_document(decode_utf8(body)) {
            Some(r) => r,
            None => Err(
                errors::unusable(
                    "Anthropic returned an empty or invalid JSON 2xx body before producing output"@,
                ),
            ),
        }
    }
}

pub fn validate_codex_anthropic_success_body(body: &[u8]) -> (r: Result<(), ProxyError>)
    ensures
        unit_result(r) == body_verdict(body@),
{
    match text::utf8_text(body) {
        None => Err(
            empty_codex_anthropic_stream_error(
                "Anthropic returned a non-UTF-8 2xx body before producing output",
            ),
        ),
        Some(s) => match inspect_anthropic_json_document(s.as_str()) {
            Some(r) => r,
            None => Err(
                empty_codex_anthropic_stream_error(
                    "Anthropic returned an empty or invalid JSON 2xx body before producing output",
                ),
            ),
        },
    }
}

/// Adds the characters that bytes complete to `buffer`. Bytes that wait for
/// more stay in `remainder`. Bytes that are no characters are refused.
pub fn append_utf8_strict(buffer: &mut String, remainder: &mut Vec<u8>, new_bytes: &[u8]) -> (r: Result<
    (),
    ProxyError,
>)
    ensures
        unit_result(r) == (if sse::strict_text(old(remainder)@ + new_bytes@) is Some {
            Ok(())
        } else {
            Err(errors::unusable("Anthropic SSE stream contained invalid UTF-8"@))
        }),
        final(buffer)@ == (match sse::strict_text(old(remainder)@ + new_bytes@) {
            Some(s) => old(buffer)@ + s,
            None => old(buffer)@,
        }),
        final(remainder)@ == (if r is Ok {
            sse::pending(old(remainder)@ + new_bytes@)
        } else {
            Seq::empty()
        }),
{
    if sse::append_whole_utf8(buffer, remainder, new_bytes) {
        Ok(())
    } else {
        Err(malformed_anthropic_stream_error("Anthropic SSE stream contained invalid UTF-8"))
    }
}

} // verus!
