//! What a client says in a conversation is what the provider reads: nothing is
//! lost, nothing is added, and everything stays in its order and with its role,
//! its call and its picture.
use crate::citations;
use crate::json::JsonView;
use crate::json_codec;
use crate::reasoning;
use crate::responses_input;
use crate::responses_input::InputState;
use crate::seqs;
use crate::tool_results;
use crate::web_search_bridge;
use vstd::prelude::*;

verus! {

// ---------------------------------------------------------------------------
// What is said
// ---------------------------------------------------------------------------

/// One thing that is said in a conversation.
#[verifier::ext_equal]
pub enum Said {
    /// A text, with the notes that go with it.
    Text { role: Seq<char>, text: Seq<char>, notes: Seq<JsonView> },
    /// A picture, by its address.
    Picture { role: Seq<char>, url: Seq<char> },
    /// A file by its address.
    FileAt { role: Seq<char>, url: Seq<char>, name: Seq<char> },
    /// A file that is there.
    FileWith { role: Seq<char>, data: Seq<char>, name: Seq<char> },
    /// The call of a tool, with the text of its input.
    Call { id: Seq<char>, name: Seq<char>, input: Seq<char> },
    /// What came of the call with that id.
    Outcome { id: Seq<char>, output: JsonView },
    /// A web search, by its id.
    Search { id: Seq<char> },
    /// Reasoning, by its encrypted content.
    Thought { encrypted: Seq<char> },
}

// ---------------------------------------------------------------------------
// How a provider reads its input
// ---------------------------------------------------------------------------

/// What a provider reads in a part of a message. A text of the assistant is an
/// output text, one of anybody else an input text.
pub open spec fn part_read(role: Seq<char>) -> spec_fn(JsonView) -> Seq<Said> {
    |part: JsonView|
        if part.says(
            "type"@,
            if role == "assistant"@ {
                "output_text"@
            } else {
                "input_text"@
            },
        ) {
            seq![
                Said::Text {
                    role,
                    text: part.str_or("text"@, ""@),
                    notes: part.items_at("annotations"@),
                },
            ]
        } else if part.says("type"@, "input_image"@) {
            seq![Said::Picture { role, url: part.str_or("image_url"@, ""@) }]
        } else if part.says("type"@, "input_file"@) && part.get("file_url"@) is Some {
            seq![
                Said::FileAt {
                    role,
                    url: part.str_or("file_url"@, ""@),
                    name: part.str_or("filename"@, ""@),
                },
            ]
        } else if part.says("type"@, "input_file"@) {
            seq![
                Said::FileWith {
                    role,
                    data: part.str_or("file_data"@, ""@),
                    name: part.str_or("filename"@, ""@),
                },
            ]
        } else {
            Seq::empty()
        }
}

pub open spec fn parts_read(role: Seq<char>, parts: Seq<JsonView>) -> Seq<Said> {
    seqs::gathered(parts, part_read(role), parts.len())
}

/// What a provider reads in an item of its input. An item without a type is a
/// message.
pub open spec fn item_read() -> spec_fn(JsonView) -> Seq<Said> {
    |item: JsonView|
        if item.says("type"@, "function_call"@) {
            seq![
                Said::Call {
                    id: item.str_or("call_id"@, ""@),
                    name: item.str_or("name"@, ""@),
                    input: item.str_or("arguments"@, ""@),
                },
            ]
        } else if item.says("type"@, "function_call_output"@) {
            seq![
                Said::Outcome {
                    id: item.str_or("call_id"@, ""@),
                    output: JsonView::or_null(item.get("output"@)),
                },
            ]
        } else if item.says("type"@, "web_search_call"@) {
            seq![Said::Search { id: item.str_or("id"@, ""@) }]
        } else if item.says("type"@, "reasoning"@) {
            seq![Said::Thought { encrypted: item.str_or("encrypted_content"@, ""@) }]
        } else if item.get("type"@) is None {
            parts_read(item.str_or("role"@, ""@), item.items_at("content"@))
        } else {
            Seq::empty()
        }
}

/// What a provider reads in its input.
pub open spec fn input_read(items: Seq<JsonView>) -> Seq<Said> {
    seqs::gathered(items, item_read(), items.len())
}

// ---------------------------------------------------------------------------
// What a client says
// ---------------------------------------------------------------------------

/// The address of a picture: one of the web, or the picture itself.
pub open spec fn picture_url(block: JsonView) -> Option<Seq<char>> {
    match block.get("source"@) {
        None => None,
        Some(source) => if source.says("type"@, "url"@) {
            source_on_the_web(source)
        } else if source.says("type"@, "base64"@) || source.get_str("type"@) is None {
            source_inline(source, "image/png"@)
        } else {
            None
        },
    }
}

/// The address of a source on the web.
pub open spec fn source_on_the_web(source: JsonView) -> Option<Seq<char>> {
    match source.get_str("url"@) {
        Some(url) => if begins_with(url, "http://"@) || begins_with(url, "https://"@) {
            Some(url)
        } else {
            None
        },
        None => None,
    }
}

/// A source that is there, in the form of an address.
pub open spec fn source_inline(source: JsonView, media_type: Seq<char>) -> Option<Seq<char>> {
    match source.get_str("data"@) {
        Some(data) => if data.len() > 0 {
            Some("data:"@ + source.str_or("media_type"@, media_type) + ";base64,"@ + data)
        } else {
            None
        },
        None => None,
    }
}

pub open spec fn begins_with(s: Seq<char>, p: Seq<char>) -> bool {
    p.len() <= s.len() && s.take(p.len() as int) == p
}

/// The name of a file.
pub open spec fn file_name(block: JsonView) -> Seq<char> {
    if block.get("title"@) is Some {
        block.str_or("title"@, "document.pdf"@)
    } else {
        block.str_or("filename"@, "document.pdf"@)
    }
}

/// What a client says in a block of a message. `history` is whether searches and
/// reasoning are kept.
pub open spec fn block_says(role: Seq<char>, history: bool) -> spec_fn(JsonView) -> Seq<Said> {
    |block: JsonView|
        if block.says("type"@, "text"@) && block.get_str("text"@) is Some {
            let text = block.get_str("text"@)->0;
            seq![
                Said::Text {
                    role,
                    text,
                    notes: if role == "assistant"@ && history {
                        let cited = citations::result_citations(block);
                        citations::annotations(
                            cited,
                            text,
                            citations::automaton_builds(citations::sought_patterns(cited)),
                        )
                    } else {
                        Seq::empty()
                    },
                },
            ]
        } else if block.says("type"@, "image"@) && picture_url(block) is Some {
            seq![Said::Picture { role, url: picture_url(block)->0 }]
        } else if block.says("type"@, "document"@) && block.get("source"@) is Some {
            let source = block.get("source"@)->0;
            if source.says("type"@, "url"@) && source_on_the_web(source) is Some {
                seq![
                    Said::FileAt {
                        role,
                        url: source_on_the_web(source)->0,
                        name: file_name(block),
                    },
                ]
            } else if source.says("type"@, "base64"@) && source_inline(
                source,
                "application/pdf"@,
            ) is Some {
                seq![
                    Said::FileWith {
                        role,
                        data: source_inline(source, "application/pdf"@)->0,
                        name: file_name(block),
                    },
                ]
            } else {
                Seq::empty()
            }
        } else if block.says("type"@, "tool_use"@) {
            seq![
                Said::Call {
                    id: block.str_or("id"@, ""@),
                    name: block.str_or("name"@, ""@),
                    input: json_codec::written(
                        match block.get("input"@) {
                            Some(v) => v,
                            None => JsonView::Object(Map::empty()),
                        },
                    ),
                },
            ]
        } else if block.says("type"@, "tool_result"@) {
            seq![
                Said::Outcome {
                    id: block.str_or("tool_use_id"@, ""@),
                    output: tool_results::result_output(block),
                },
            ]
        } else if history && block.says("type"@, "server_tool_use"@) && block.says(
            "name"@,
            "web_search"@,
        ) {
            seq![Said::Search { id: block.str_or("id"@, ""@) }]
        } else if history && block.says("type"@, "redacted_thinking"@)
            && reasoning::carried_reasoning(block) is Some {
            seq![
                Said::Thought {
                    encrypted: reasoning::carried_reasoning(block)->0.str_or(
                        "encrypted_content"@,
                        ""@,
                    ),
                },
            ]
        } else {
            Seq::empty()
        }
}

/// What a client says in a message: a text, or blocks.
pub open spec fn message_says(history: bool) -> spec_fn(JsonView) -> Seq<Said> {
    |message: JsonView|
        {
            let role = message.str_or("role"@, "user"@);
            match message.get("content"@) {
                Some(JsonView::Str(text)) => seq![
                    Said::Text { role, text, notes: Seq::empty() },
                ],
                Some(JsonView::Array(blocks)) => seqs::gathered(
                    blocks,
                    block_says(role, history),
                    blocks.len(),
                ),
                _ => Seq::empty(),
            }
        }
}

/// What a client says in a conversation.
pub open spec fn conversation_says(messages: Seq<JsonView>, history: bool) -> Seq<Said> {
    seqs::gathered(messages, message_says(history), messages.len())
}

// ---------------------------------------------------------------------------
// Names
// ---------------------------------------------------------------------------

/// The kinds of blocks differ from one another.
proof fn kinds_differ()
    ensures
        "text"@.len() == 4,
        "image"@.len() == 5,
        "document"@.len() == 8,
        "tool_use"@.len() == 8,
        "tool_result"@.len() == 11,
        "server_tool_use"@.len() == 15,
        "web_search_tool_result"@.len() == 22,
        "redacted_thinking"@.len() == 17,
        "tool_use"@ != "document"@,
        "url"@ != "base64"@,
        ""@.len() == 0,
        ""@ == Seq::<char>::empty(),
{
    reveal_strlit("text");
    reveal_strlit("image");
    reveal_strlit("document");
    reveal_strlit("tool_use");
    reveal_strlit("tool_result");
    reveal_strlit("server_tool_use");
    reveal_strlit("web_search_tool_result");
    reveal_strlit("redacted_thinking");
    reveal_strlit("url");
    reveal_strlit("base64");
    reveal_strlit("");
    assert("tool_use"@[0] == 't' && "document"@[0] == 'd');
    assert("url"@.len() == 3 && "base64"@.len() == 6);
    assert(""@ =~= Seq::<char>::empty());
}

/// The kinds of items and parts differ from one another.
proof fn items_differ()
    ensures
        "input_text"@.len() == 10,
        "output_text"@.len() == 11,
        "input_image"@.len() == 11,
        "input_image"@[0] == 'i',
        "output_text"@[0] == 'o',
        "input_file"@.len() == 10,
        "input_file"@ != "input_text"@,
        "function_call"@.len() == 13,
        "function_call_output"@.len() == 20,
        "web_search_call"@.len() == 15,
        "reasoning"@.len() == 9,
{
    reveal_strlit("input_text");
    reveal_strlit("output_text");
    reveal_strlit("input_image");
    reveal_strlit("input_file");
    reveal_strlit("function_call");
    reveal_strlit("function_call_output");
    reveal_strlit("web_search_call");
    reveal_strlit("reasoning");
    assert("input_file"@[6] == 'f' && "input_text"@[6] == 't');
}

/// The names of members differ from one another.
proof fn names_differ()
    ensures
        "type"@ != "role"@,
        "type"@ != "content"@,
        "role"@ != "content"@,
        "type"@ != "text"@,
        "type"@ != "annotations"@,
        "text"@ != "annotations"@,
        "type"@ != "image_url"@,
        "type"@ != "file_url"@,
        "type"@ != "file_data"@,
        "type"@ != "filename"@,
        "file_url"@ != "filename"@,
        "file_data"@ != "filename"@,
        "file_data"@ != "file_url"@,
        "type"@ != "call_id"@,
        "type"@ != "name"@,
        "type"@ != "arguments"@,
        "type"@ != "output"@,
        "call_id"@ != "name"@,
        "call_id"@ != "arguments"@,
        "call_id"@ != "output"@,
        "name"@ != "arguments"@,
        "type"@ != "id"@,
        "type"@ != "status"@,
        "type"@ != "action"@,
        "id"@ != "status"@,
        "id"@ != "action"@,
        "type"@ != "summary"@,
        "type"@ != "encrypted_content"@,
        "id"@ != "encrypted_content"@,
{
    reveal_strlit("type");
    reveal_strlit("role");
    reveal_strlit("content");
    reveal_strlit("text");
    reveal_strlit("annotations");
    reveal_strlit("image_url");
    reveal_strlit("file_url");
    reveal_strlit("file_data");
    reveal_strlit("filename");
    reveal_strlit("call_id");
    reveal_strlit("name");
    reveal_strlit("arguments");
    reveal_strlit("output");
    reveal_strlit("id");
    reveal_strlit("status");
    reveal_strlit("action");
    reveal_strlit("summary");
    reveal_strlit("encrypted_content");
    assert("type"@.len() == 4 && "role"@.len() == 4 && "text"@.len() == 4 && "name"@.len() == 4);
    assert("type"@[0] == 't' && "type"@[1] == 'y' && "role"@[0] == 'r' && "text"@[1] == 'e'
        && "name"@[0] == 'n');
    assert("content"@.len() == 7 && "annotations"@.len() == 11 && "image_url"@.len() == 9);
    assert("file_url"@.len() == 8 && "filename"@.len() == 8 && "file_data"@.len() == 9);
    assert("file_url"@[4] == '_' && "filename"@[4] == 'n');
    assert("call_id"@.len() == 7 && "arguments"@.len() == 9 && "output"@.len() == 6);
    assert("id"@.len() == 2 && "status"@.len() == 6 && "action"@.len() == 6);
    assert("summary"@.len() == 7 && "encrypted_content"@.len() == 17);
}

// ---------------------------------------------------------------------------
// Blocks
// ---------------------------------------------------------------------------

/// What is said so far: in the items, and in the message that is not yet among
/// them.
spec fn read_so_far(role: Seq<char>, state: InputState) -> Seq<Said> {
    input_read(state.items) + parts_read(role, state.parts)
}

proof fn item_pushed(items: Seq<JsonView>, item: JsonView)
    ensures
        input_read(items.push(item)) == input_read(items) + item_read()(item),
{
    seqs::gathered_push(items, item, item_read());
}

/// A message that ends says what its parts said.
proof fn flushing_says_the_same(role: Seq<char>, state: InputState)
    ensures
        input_read(state.flushed(role).items) == read_so_far(role, state),
        state.flushed(role).parts.len() == 0,
        parts_read(role, state.flushed(role).parts) == Seq::<Said>::empty(),
{
    names_differ();
    if state.parts.len() > 0 {
        let m = responses_input::message(role, state.parts);
        assert(m.get("type"@) is None);
        assert(m.str_or("role"@, ""@) == role);
        assert(m.items_at("content"@) == state.parts);
        item_pushed(state.items, m);
    } else {
        assert(input_read(state.items) + Seq::<Said>::empty() =~= input_read(state.items));
    }
}

/// A part that is added says what it says.
proof fn part_added(role: Seq<char>, state: InputState, part: JsonView, said: Seq<Said>)
    requires
        part_read(role)(part) == said,
    ensures
        read_so_far(role, state.with_part(part)) == read_so_far(role, state) + said,
{
    seqs::gathered_push(state.parts, part, part_read(role));
    assert(input_read(state.items) + (parts_read(role, state.parts) + said) =~= read_so_far(
        role,
        state,
    ) + said);
}

/// An item that is added says what it says, after the message before it.
proof fn item_added(role: Seq<char>, state: InputState, item: JsonView, said: Seq<Said>)
    requires
        item_read()(item) == said,
    ensures
        read_so_far(role, state.flushed(role).with_item(item)) == read_so_far(role, state) + said,
{
    flushing_says_the_same(role, state);
    let flushed = state.flushed(role);
    item_pushed(flushed.items, item);
    assert(input_read(flushed.items) + said + Seq::<Said>::empty() =~= input_read(flushed.items)
        + said);
}

/// A picture that is carried is read as that picture.
pub proof fn pictures_are_read(role: Seq<char>, block: JsonView)
    ensures
        match tool_results::image_part(block) {
            Some(part) => picture_url(block) is Some && part_read(role)(part) == seq![
                Said::Picture { role, url: picture_url(block)->0 },
            ],
            None => picture_url(block) is None,
        },
{
    kinds_differ();
    items_differ();
    names_differ();
    web_sources_agree(block);
    if let Some(source) = block.get("source"@) {
        inline_sources_agree(source, "image/png"@);
        if let Some(part) = tool_results::image_part(block) {
            assert(part.says("type"@, "input_image"@));
            assert(part.get_str("image_url"@) is Some);
        }
    }
}

proof fn web_sources_agree(block: JsonView)
    ensures
        block.get("source"@) matches Some(source) ==> tool_results::web_url(source)
            == source_on_the_web(source),
{
}

proof fn inline_sources_agree(source: JsonView, media_type: Seq<char>)
    ensures
        tool_results::inline_url(source, media_type) == source_inline(source, media_type),
{
}

/// A document that is carried is read as that document.
pub proof fn documents_are_read(role: Seq<char>, history: bool, block: JsonView)
    requires
        block.says("type"@, "document"@),
    ensures
        match tool_results::document_part(block) {
            Some(part) => part_read(role)(part) == block_says(role, history)(block),
            None => block_says(role, history)(block) == Seq::<Said>::empty(),
        },
{
    kinds_differ();
    items_differ();
    names_differ();
    web_sources_agree(block);
    if let Some(source) = block.get("source"@) {
        inline_sources_agree(source, "application/pdf"@);
        if let Some(part) = tool_results::document_part(block) {
            assert(part.says("type"@, "input_file"@));
            assert(part.str_or("filename"@, ""@) == file_name(block));
        }
    }
}

/// A document that is carried says something.
pub proof fn documents_say_something(block: JsonView)
    requires
        block.says("type"@, "document"@),
        tool_results::document_part(block) is Some,
    ensures
        block_says("tool"@, false)(block).len() == 1,
{
    kinds_differ();
    web_sources_agree(block);
    if let Some(source) = block.get("source"@) {
        inline_sources_agree(source, "application/pdf"@);
    }
}

/// A text is read as that text.
proof fn texts_are_read(role: Seq<char>, history: bool, block: JsonView)
    requires
        block.says("type"@, "text"@),
        block.get_str("text"@) is Some,
    ensures
        part_read(role)(
            responses_input::text_block_part(role, block, block.get_str("text"@)->0, history),
        ) == block_says(role, history)(block),
{
    items_differ();
    names_differ();
    let s = block.get_str("text"@)->0;
    let part = responses_input::text_block_part(role, block, s, history);
    assert(part.says("type"@, responses_input::text_type(role)));
    assert(part.str_or("text"@, ""@) == s);
    let notes = block_says(role, history)(block)[0]->notes;
    assert(part.items_at("annotations"@) =~= notes);
    assert(part_read(role)(part) =~= block_says(role, history)(block));
}

/// The call of a tool is read as that call.
proof fn calls_are_read(role: Seq<char>, history: bool, block: JsonView)
    requires
        block.says("type"@, "tool_use"@),
    ensures
        item_read()(responses_input::function_call(block)) == block_says(role, history)(block),
{
    kinds_differ();
    items_differ();
    names_differ();
    let item = responses_input::function_call(block);
    assert(item.says("type"@, "function_call"@));
    assert(item.str_or("call_id"@, ""@) == block.str_or("id"@, ""@));
    assert(item_read()(item) =~= block_says(role, history)(block));
}

/// What came of a call is read as what came of that call.
proof fn outcomes_are_read(role: Seq<char>, history: bool, block: JsonView)
    requires
        block.says("type"@, "tool_result"@),
    ensures
        item_read()(responses_input::function_call_output(block)) == block_says(role, history)(
            block,
        ),
{
    kinds_differ();
    items_differ();
    names_differ();
    let item = responses_input::function_call_output(block);
    assert(item.says("type"@, "function_call_output"@));
    assert(item.str_or("call_id"@, ""@) == block.str_or("tool_use_id"@, ""@));
    assert(item_read()(item) =~= block_says(role, history)(block));
}

/// Reasoning that is carried is read as that reasoning.
proof fn thoughts_are_read(role: Seq<char>, block: JsonView)
    requires
        block.says("type"@, "redacted_thinking"@),
        reasoning::carried_reasoning(block) is Some,
    ensures
        item_read()(reasoning::carried_reasoning(block)->0) == block_says(role, true)(block),
{
    kinds_differ();
    items_differ();
    names_differ();
    let item = reasoning::carried_reasoning(block)->0;
    assert(item.says("type"@, "reasoning"@));
    assert(item_read()(item) =~= block_says(role, true)(block));
}

/// A pair of blocks that is folded is read as the search that the first names;
/// the second says nothing of its own.
proof fn searches_are_read(role: Seq<char>, blocks: Seq<JsonView>, i: int)
    requires
        0 <= i < blocks.len(),
        blocks[i].says("type"@, "server_tool_use"@),
        blocks[i].says("name"@, web_search_bridge::WEB_SEARCH_TOOL_NAME@),
        web_search_bridge::folded_history(blocks, i) is Ok,
    ensures
        ({
            let r = web_search_bridge::folded_history(blocks, i)->Ok_0;
            &&& r is Some
            &&& (r->0).1 == i + 2
            &&& i + 2 <= blocks.len()
            &&& item_read()((r->0).0) == block_says(role, true)(blocks[i])
            &&& block_says(role, true)(blocks[i + 1]) == Seq::<Said>::empty()
        }),
{
    kinds_differ();
    items_differ();
    names_differ();
    reveal_strlit("web_search");
    let item = (web_search_bridge::folded_history(blocks, i)->Ok_0->0).0;
    assert(blocks[i + 1].says("type"@, "web_search_tool_result"@));
    assert(item.says("type"@, "web_search_call"@));
    assert(item.get_str("id"@) == blocks[i].get_str("id"@));
    assert(item_read()(item) =~= block_says(role, true)(blocks[i]));
}

/// One step through the blocks adds what they say.
#[verifier::rlimit(60)]
proof fn step_says_its_blocks(
    role: Seq<char>,
    history: bool,
    blocks: Seq<JsonView>,
    state: InputState,
) -> (said: Seq<Said>)
    requires
        0 <= state.next < blocks.len(),
        responses_input::after_block(role, blocks, history, state) is Ok,
    ensures
        ({
            let after = responses_input::after_block(role, blocks, history, state)->Ok_0;
            let f = block_says(role, history);
            &&& state.next < after.next <= blocks.len()
            &&& read_so_far(role, after) == read_so_far(role, state) + said
            &&& seqs::gathered(blocks, f, after.next as nat) == seqs::gathered(
                blocks,
                f,
                state.next as nat,
            ) + said
        }),
{
    kinds_differ();
    let i = state.next;
    let block = blocks[i];
    let f = block_says(role, history);
    let after = responses_input::after_block(role, blocks, history, state)->Ok_0;
    let kind = block.str_or("type"@, ""@);
    let skipped = state.at(i + 1);
    let said = f(block);
    let none = Seq::<Said>::empty();
    assert(read_so_far(role, skipped) == read_so_far(role, state));
    assert(read_so_far(role, state) + none =~= read_so_far(role, state));
    if kind == "text"@ {
        if block.get_str("text"@) is Some {
            let part = responses_input::text_block_part(
                role,
                block,
                block.get_str("text"@)->0,
                history,
            );
            texts_are_read(role, history, block);
            part_added(role, skipped, part, said);
        }
        said
    } else if kind == "image"@ {
        pictures_are_read(role, block);
        if let Some(part) = tool_results::image_part(block) {
            part_added(role, skipped, part, said);
        }
        said
    } else if kind == "document"@ {
        documents_are_read(role, history, block);
        if let Some(part) = tool_results::document_part(block) {
            part_added(role, skipped, part, said);
        }
        said
    } else if kind == "tool_use"@ {
        calls_are_read(role, history, block);
        item_added(role, skipped, responses_input::function_call(block), said);
        said
    } else if kind == "tool_result"@ {
        outcomes_are_read(role, history, block);
        item_added(role, skipped, responses_input::function_call_output(block), said);
        said
    } else if kind == "server_tool_use"@ && history && block.says(
        "name"@,
        web_search_bridge::WEB_SEARCH_TOOL_NAME@,
    ) {
        searches_are_read(role, blocks, i);
        let item = (web_search_bridge::folded_history(blocks, i)->Ok_0->0).0;
        item_added(role, state, item, said);
        assert(read_so_far(role, after) == read_so_far(
            role,
            state.flushed(role).with_item(item),
        ));
        let g = seqs::gathered(blocks, f, i as nat);
        assert(seqs::gathered(blocks, f, (i + 1) as nat) == g + said);
        assert(seqs::gathered(blocks, f, (i + 2) as nat) == seqs::gathered(
            blocks,
            f,
            (i + 1) as nat,
        ) + f(blocks[i + 1]));
        assert(g + said + none =~= g + said);
        said
    } else if kind == "redacted_thinking"@ && history && reasoning::carried_reasoning(
        block,
    ) is Some {
        thoughts_are_read(role, block);
        item_added(role, skipped, reasoning::carried_reasoning(block)->0, said);
        said
    } else {
        assert(said =~= none);
        said
    }
}

/// All blocks from the next on add what they say.
proof fn blocks_say_what_they_say(
    role: Seq<char>,
    history: bool,
    blocks: Seq<JsonView>,
    state: InputState,
)
    requires
        0 <= state.next <= blocks.len(),
        responses_input::after_blocks(role, blocks, history, state) is Ok,
    ensures
        ({
            let items = responses_input::after_blocks(role, blocks, history, state)->Ok_0;
            let f = block_says(role, history);
            exists|said: Seq<Said>|
                input_read(items) == read_so_far(role, state) + said && seqs::gathered(
                    blocks,
                    f,
                    blocks.len(),
                ) == #[trigger] (seqs::gathered(blocks, f, state.next as nat) + said)
        }),
    decreases blocks.len() - state.next,
{
    let f = block_says(role, history);
    let items = responses_input::after_blocks(role, blocks, history, state)->Ok_0;
    let before = seqs::gathered(blocks, f, state.next as nat);
    if state.next == blocks.len() {
        flushing_says_the_same(role, state);
        let said = Seq::<Said>::empty();
        assert(read_so_far(role, state) + said =~= read_so_far(role, state));
        assert(before + said =~= before);
    } else {
        let one = step_says_its_blocks(role, history, blocks, state);
        let after = responses_input::after_block(role, blocks, history, state)->Ok_0;
        blocks_say_what_they_say(role, history, blocks, after);
        let g = seqs::gathered(blocks, f, after.next as nat);
        let rest = choose|said: Seq<Said>|
            input_read(items) == read_so_far(role, after) + said && seqs::gathered(
                blocks,
                f,
                blocks.len(),
            ) == #[trigger] (g + said);
        assert(read_so_far(role, state) + one + rest =~= read_so_far(role, state) + (one + rest));
        assert(before + one + rest =~= before + (one + rest));
    }
}

/// One message more is read as what it says.
proof fn message_says_what_it_says(history: bool, items: Seq<JsonView>, message: JsonView)
    requires
        responses_input::after_message(history)(items, message) is Ok,
    ensures
        input_read(responses_input::after_message(history)(items, message)->Ok_0) == input_read(
            items,
        ) + message_says(history)(message),
{
    names_differ();
    items_differ();
    let role = message.str_or("role"@, "user"@);
    match message.get("content"@) {
        Some(JsonView::Str(s)) => {
            let part = responses_input::text_part(role, s);
            let parts = seq![part];
            let m = responses_input::message(role, parts);
            assert(part.says("type"@, responses_input::text_type(role)));
            assert(part.items_at("annotations"@) =~= Seq::<JsonView>::empty());
            assert(part_read(role)(part) =~= message_says(history)(message));
            seqs::gathered_push(Seq::<JsonView>::empty(), part, part_read(role));
            assert(Seq::<JsonView>::empty().push(part) =~= parts);
            assert(Seq::<Said>::empty() + part_read(role)(part) =~= part_read(role)(part));
            assert(m.get("type"@) is None);
            assert(m.items_at("content"@) == parts);
            item_pushed(items, m);
        },
        Some(JsonView::Array(blocks)) => {
            let f = block_says(role, history);
            let start = InputState { items, parts: Seq::empty(), next: 0 };
            blocks_say_what_they_say(role, history, blocks, start);
            let after = responses_input::after_message(history)(items, message)->Ok_0;
            let none = Seq::<Said>::empty();
            let said = choose|said: Seq<Said>|
                input_read(after) == read_so_far(role, start) + said && seqs::gathered(
                    blocks,
                    f,
                    blocks.len(),
                ) == #[trigger] (seqs::gathered(blocks, f, 0) + said);
            assert(seqs::gathered(blocks, f, 0) + said =~= said);
            assert(input_read(items) + none =~= input_read(items));
        },
        _ => {
            let m = JsonView::object().with("role"@, JsonView::Str(role));
            assert(m.get("type"@) is None);
            assert(m.items_at("content"@) =~= Seq::<JsonView>::empty());
            item_pushed(items, m);
        },
    }
}

proof fn messages_say_what_they_say(history: bool, messages: Seq<JsonView>, n: nat)
    requires
        n <= messages.len(),
        seqs::folded(messages, responses_input::after_message(history), Seq::empty(), n) is Ok,
    ensures
        input_read(
            seqs::folded(
                messages,
                responses_input::after_message(history),
                Seq::empty(),
                n,
            )->Ok_0,
        ) == seqs::gathered(messages, message_says(history), n),
    decreases n,
{
    if n > 0 {
        messages_say_what_they_say(history, messages, (n - 1) as nat);
        let before = seqs::folded(
            messages,
            responses_input::after_message(history),
            Seq::empty(),
            (n - 1) as nat,
        )->Ok_0;
        message_says_what_it_says(history, before, messages[n - 1]);
    }
}

// ---------------------------------------------------------------------------
// The laws
// ---------------------------------------------------------------------------

/// A provider reads in its input what the client says in the conversation, each
/// thing once and in its order: texts with their role and their notes, pictures
/// and files, the calls of tools by their ids with their names and inputs, what
/// came of each call under the id of that call, searches and reasoning.
pub proof fn providers_read_what_clients_say(messages: Seq<JsonView>, history: bool)
    requires
        responses_input::messages_input(messages, history) is Ok,
    ensures
        input_read(responses_input::messages_input(messages, history)->Ok_0) == conversation_says(
            messages,
            history,
        ),
{
    messages_say_what_they_say(history, messages, messages.len());
}

// ---------------------------------------------------------------------------
// Messages stay messages
// ---------------------------------------------------------------------------

/// A message that is one text becomes one item of its role with one part, after
/// the items before it. One without content becomes an item of its role alone.
pub proof fn messages_become_items(items: Seq<JsonView>, message: JsonView, history: bool)
    requires
        !(message.get("content"@) is Some && message.get("content"@)->0 is Array),
    ensures
        ({
            let r = responses_input::after_message(history)(items, message);
            let item = r->Ok_0.last();
            &&& r is Ok
            &&& r->Ok_0 == items.push(item)
            &&& item.get_str("role"@) == Some(message.str_or("role"@, "user"@))
            &&& item.get("type"@) is None
            &&& item.items_at("content"@).len() == (if message.get_str("content"@) is Some {
                1nat
            } else {
                0nat
            })
        }),
{
    names_differ();
    items_differ();
    broadcast use vstd::map::group_map_axioms;

}

/// Whether a block is a text.
pub open spec fn is_text(block: JsonView) -> bool {
    block.says("type"@, "text"@) && block.get_str("text"@) is Some
}

proof fn texts_gather(
    role: Seq<char>,
    blocks: Seq<JsonView>,
    history: bool,
    state: InputState,
)
    requires
        0 <= state.next <= blocks.len(),
        state.parts.len() == state.next,
        blocks.len() > 0,
        forall|i: int| 0 <= i < blocks.len() ==> is_text(#[trigger] blocks[i]),
    ensures
        ({
            let r = responses_input::after_blocks(role, blocks, history, state);
            let item = r->Ok_0.last();
            &&& r is Ok
            &&& r->Ok_0 == state.items.push(item)
            &&& item.get_str("role"@) == Some(role)
            &&& item.items_at("content"@).len() == blocks.len()
        }),
    decreases blocks.len() - state.next,
{
    names_differ();
    items_differ();
    kinds_differ();
    broadcast use vstd::map::group_map_axioms;

    if state.next < blocks.len() {
        assert(is_text(blocks[state.next]));
        let after = responses_input::after_block(role, blocks, history, state);
        assert(after is Ok);
        texts_gather(role, blocks, history, after->Ok_0);
    }
}

/// The texts of one message stay in one message: it becomes one item of its role,
/// with as many parts as it has texts.
pub proof fn texts_stay_in_their_message(
    items: Seq<JsonView>,
    message: JsonView,
    blocks: Seq<JsonView>,
    history: bool,
)
    requires
        message.get("content"@) == Some(JsonView::Array(blocks)),
        blocks.len() > 0,
        forall|i: int| 0 <= i < blocks.len() ==> is_text(#[trigger] blocks[i]),
    ensures
        ({
            let r = responses_input::after_message(history)(items, message);
            let item = r->Ok_0.last();
            &&& r is Ok
            &&& r->Ok_0 == items.push(item)
            &&& item.get_str("role"@) == Some(message.str_or("role"@, "user"@))
            &&& item.items_at("content"@).len() == blocks.len()
        }),
{
    texts_gather(
        message.str_or("role"@, "user"@),
        blocks,
        history,
        InputState { items, parts: Seq::empty(), next: 0 },
    );
}

} // verus!
