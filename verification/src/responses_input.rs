//! The messages of a request as the input of the Responses protocol.
use crate::citations;
use crate::error;
use crate::error::{ErrorView, ProxyError};
use crate::json;
use crate::json::{Json, JsonView};
use crate::json_codec;
use crate::reasoning;
use crate::seqs;
use crate::text;
use crate::tool_results;
use crate::web_search_bridge;
use crate::web_search_bridge::WEB_SEARCH_TOOL_NAME;
use vstd::prelude::*;
use vstd::string::*;

verus! {

/// How a text is called that a role says.
pub open spec fn text_type(role: Seq<char>) -> Seq<char> {
    if role == "assistant"@ {
        "output_text"@
    } else {
        "input_text"@
    }
}

fn text_type_of(role: &str) -> (r: &'static str)
    ensures
        r@ == text_type(role@),
{
    if text::same_text(role, "assistant") {
        "output_text"
    } else {
        "input_text"
    }
}

/// What a role says.
pub open spec fn message(role: Seq<char>, parts: Seq<JsonView>) -> JsonView {
    JsonView::object().with("role"@, JsonView::Str(role)).with("content"@, JsonView::Array(parts))
}

/// A text as a part of a message.
pub open spec fn text_part(role: Seq<char>, s: Seq<char>) -> JsonView {
    JsonView::object().with("type"@, JsonView::Str(text_type(role))).with(
        "text"@,
        JsonView::Str(s),
    )
}

/// A text block as a part of a message. What an assistant said keeps its
/// citations where the search history is kept.
pub open spec fn text_block_part(
    role: Seq<char>,
    block: JsonView,
    s: Seq<char>,
    keep_history: bool,
) -> JsonView {
    let part = text_part(role, s);
    if role == "assistant"@ && keep_history {
        let cited = citations::result_citations(block);
        let annotations = citations::annotations(
            cited,
            s,
            citations::automaton_builds(citations::sought_patterns(cited)),
        );
        if annotations.len() > 0 {
            part.with("annotations"@, JsonView::Array(annotations))
        } else {
            part
        }
    } else {
        part
    }
}

/// Items of the input, the parts of a message that is not yet among them, and
/// the block that comes next.
#[verifier::ext_equal]
pub struct InputState {
    pub items: Seq<JsonView>,
    pub parts: Seq<JsonView>,
    pub next: int,
}

impl InputState {
    /// With the message among the items, where it has parts.
    pub open spec fn flushed(self, role: Seq<char>) -> InputState {
        if self.parts.len() == 0 {
            self
        } else {
            InputState {
                items: self.items.push(message(role, self.parts)),
                parts: Seq::empty(),
                next: self.next,
            }
        }
    }

    pub open spec fn with_part(self, part: JsonView) -> InputState {
        InputState { parts: self.parts.push(part), ..self }
    }

    pub open spec fn with_item(self, item: JsonView) -> InputState {
        InputState { items: self.items.push(item), ..self }
    }

    pub open spec fn at(self, next: int) -> InputState {
        InputState { next, ..self }
    }
}

/// The call of a function.
pub open spec fn function_call(block: JsonView) -> JsonView {
    let arguments = match block.get("input"@) {
        Some(v) => v,
        None => JsonView::object(),
    };
    JsonView::object().with("type"@, JsonView::Str("function_call"@)).with(
        "call_id"@,
        JsonView::Str(block.str_or("id"@, ""@)),
    ).with("name"@, JsonView::Str(block.str_or("name"@, ""@))).with(
        "arguments"@,
        JsonView::Str(json_codec::written(arguments)),
    )
}

/// What a function returned.
pub open spec fn function_call_output(block: JsonView) -> JsonView {
    JsonView::object().with("type"@, JsonView::Str("function_call_output"@)).with(
        "call_id"@,
        JsonView::Str(block.str_or("tool_use_id"@, ""@)),
    ).with("output"@, tool_results::result_output(block))
}

/// What one block adds: a part of the message, or an item of its own, before
/// which the message so far ends.
pub open spec fn after_block(
    role: Seq<char>,
    blocks: Seq<JsonView>,
    keep_history: bool,
    state: InputState,
) -> Result<InputState, ErrorView> {
    let i = state.next;
    let block = blocks[i];
    let kind = block.str_or("type"@, ""@);
    let skipped = state.at(i + 1);
    if kind == "text"@ {
        match block.get_str("text"@) {
            Some(s) => Ok(skipped.with_part(text_block_part(role, block, s, keep_history))),
            None => Ok(skipped),
        }
    } else if kind == "image"@ {
        match tool_results::image_part(block) {
            Some(part) => Ok(skipped.with_part(part)),
            None => Ok(skipped),
        }
    } else if kind == "document"@ {
        match tool_results::document_part(block) {
            Some(part) => Ok(skipped.with_part(part)),
            None => Ok(skipped),
        }
    } else if kind == "tool_use"@ {
        Ok(skipped.flushed(role).with_item(function_call(block)))
    } else if kind == "tool_result"@ {
        Ok(skipped.flushed(role).with_item(function_call_output(block)))
    } else if kind == "server_tool_use"@ {
        if !keep_history || !block.says("name"@, WEB_SEARCH_TOOL_NAME@) {
            Ok(skipped)
        } else {
            match web_search_bridge::folded_history(blocks, i) {
                Err(e) => Err(e),
                Ok(None) => Err(ErrorView::InvalidRequest("unsupported server_tool_use block"@)),
                Ok(Some((item, next))) => Ok(state.flushed(role).with_item(item).at(next)),
            }
        }
    } else if kind == "web_search_tool_result"@ {
        if keep_history {
            Err(ErrorView::InvalidRequest("orphan web_search_tool_result block"@))
        } else {
            Ok(skipped)
        }
    } else if kind == "redacted_thinking"@ {
        match reasoning::carried_reasoning(block) {
            Some(item) if keep_history => Ok(skipped.flushed(role).with_item(item)),
            _ => Ok(skipped),
        }
    } else {
        Ok(skipped)
    }
}

/// What the blocks from the next on add.
pub open spec fn after_blocks(
    role: Seq<char>,
    blocks: Seq<JsonView>,
    keep_history: bool,
    state: InputState,
) -> Result<Seq<JsonView>, ErrorView>
    decreases blocks.len() - state.next,
{
    if state.next < 0 || state.next >= blocks.len() {
        Ok(state.flushed(role).items)
    } else {
        match after_block(role, blocks, keep_history, state) {
            Err(e) => Err(e),
            Ok(after) => if after.next > state.next {
                after_blocks(role, blocks, keep_history, after)
            } else {
                Ok(after.items)
            },
        }
    }
}

/// The items with those that a message adds.
pub open spec fn after_message(keep_history: bool) -> spec_fn(Seq<JsonView>, JsonView) -> Result<
    Seq<JsonView>,
    ErrorView,
> {
    |items: Seq<JsonView>, msg: JsonView|
        {
            let role = msg.str_or("role"@, "user"@);
            match msg.get("content"@) {
                Some(JsonView::Str(s)) => Ok(items.push(message(role, seq![text_part(role, s)]))),
                Some(JsonView::Array(blocks)) => after_blocks(
                    role,
                    blocks,
                    keep_history,
                    InputState { items, parts: Seq::empty(), next: 0 },
                ),
                _ => Ok(items.push(JsonView::object().with("role"@, JsonView::Str(role)))),
            }
        }
}

/// The input that messages make.
pub open spec fn messages_input(messages: Seq<JsonView>, keep_history: bool) -> Result<
    Seq<JsonView>,
    ErrorView,
> {
    seqs::folded(messages, after_message(keep_history), Seq::empty(), messages.len())
}

// ---------------------------------------------------------------------------

fn make_message(role: &str, parts: Vec<Json>) -> (r: Json)
    ensures
        r@ == message(role@, json::items_view(parts@)),
{
    Json::object().with("role", Json::string(role)).with("content", Json::Array(parts))
}

fn make_text_part(role: &str, s: &str) -> (r: Json)
    ensures
        r@ == text_part(role@, s@),
{
    Json::object().with("type", Json::string(text_type_of(role))).with("text", Json::string(s))
}

fn make_text_block_part(role: &str, block: &Json, s: &str, keep_history: bool) -> (r: Json)
    ensures
        r@ == text_block_part(role@, block@, s@, keep_history),
{
    let mut part = make_text_part(role, s);
    if text::same_text(role, "assistant") && keep_history {
        let annotations = citations::responses_annotations_from_anthropic_text(block, s);
        assert(json::items_view(annotations@).len() == annotations@.len());
        if annotations.len() > 0 {
            part.set("annotations", Json::Array(annotations));
        }
    }
    part
}

fn make_function_call(block: &Json) -> (r: Json)
    ensures
        r@ == function_call(block@),
{
    let arguments = match block.get("input") {
        Some(v) => json_codec::write(v),
        None => json_codec::write(&Json::object()),
    };
    Json::object().with("type", Json::string("function_call")).with(
        "call_id",
        Json::string(block.str_or("id", "")),
    ).with("name", Json::string(block.str_or("name", ""))).with("arguments", Json::Str(arguments))
}

fn make_function_call_output(block: &Json) -> (r: Json)
    ensures
        r@ == function_call_output(block@),
{
    Json::object().with("type", Json::string("function_call_output")).with(
        "call_id",
        Json::string(block.str_or("tool_use_id", "")),
    ).with("output", tool_results::anthropic_tool_result_to_responses_output(block))
}

/// The input as it is being made.
struct Input {
    items: Vec<Json>,
    parts: Vec<Json>,
    next: usize,
}

impl Input {
    spec fn view(&self) -> InputState {
        InputState {
            items: json::items_view(self.items@),
            parts: json::items_view(self.parts@),
            next: self.next as int,
        }
    }

    fn flush(&mut self, role: &str)
        ensures
            final(self)@ == old(self)@.flushed(role@),
    {
        assert(json::items_view(self.parts@).len() == self.parts@.len());
        if self.parts.len() > 0 {
            let mut parts: Vec<Json> = Vec::new();
            parts.append(&mut self.parts);
            assert(parts@ =~= old(self).parts@);
            assert(json::items_view(self.parts@) =~= Seq::<JsonView>::empty());
            self.push_item(make_message(role, parts));
        }
    }

    fn push_part(&mut self, part: Json)
        ensures
            final(self)@ == old(self)@.with_part(part@),
    {
        proof {
            json::items_push(self.parts@, part);
        }
        self.parts.push(part);
    }

    fn push_item(&mut self, item: Json)
        ensures
            final(self)@ == old(self)@.with_item(item@),
    {
        proof {
            json::items_push(self.items@, item);
        }
        self.items.push(item);
    }

    fn advance(&mut self)
        requires
            old(self).next < usize::MAX,
        ensures
            final(self)@ == old(self)@.at(old(self)@.next + 1),
    {
        self.next = self.next + 1;
    }

    /// Adds the next block.
    fn add_block(&mut self, role: &str, blocks: &Vec<Json>, keep_history: bool) -> (r: Result<
        (),
        ProxyError,
    >)
        requires
            old(self).next < blocks@.len(),
        ensures
            match r {
                Ok(_) => after_block(role@, json::items_view(blocks@), keep_history, old(self)@)
                    == Ok::<InputState, ErrorView>(final(self)@),
                Err(e) => after_block(role@, json::items_view(blocks@), keep_history, old(self)@)
                    == Err::<InputState, ErrorView>(e@),
            },
            r is Ok ==> old(self).next < final(self).next <= blocks@.len(),
    {
        let ghost views = json::items_view(blocks@);
        let index: usize = self.next;
        assert(index < blocks.len());
        let block = &blocks[index];
        assert(views[index as int] == block@);
        let kind = block.str_or("type", "");
        if text::same_text(kind, "text") {
            self.advance();
            if let Some(s) = block.get_str("text") {
                self.push_part(make_text_block_part(role, block, s, keep_history));
            }
        } else if text::same_text(kind, "image") {
            self.advance();
            if let Some(part) = tool_results::anthropic_image_to_responses_part(block) {
                self.push_part(part);
            }
        } else if text::same_text(kind, "document") {
            self.advance();
            if let Some(part) = tool_results::anthropic_document_to_responses_part(block) {
                self.push_part(part);
            }
        } else if text::same_text(kind, "tool_use") {
            self.advance();
            self.flush(role);
            self.push_item(make_function_call(block));
        } else if text::same_text(kind, "tool_result") {
            self.advance();
            self.flush(role);
            self.push_item(make_function_call_output(block));
        } else if text::same_text(kind, "server_tool_use") {
            if !keep_history || !block.says("name", WEB_SEARCH_TOOL_NAME) {
                self.advance();
            } else {
                self.flush(role);
                match web_search_bridge::fold_anthropic_web_search_history(blocks, index) {
                    Err(e) => {
                        return Err(e);
                    },
                    Ok(None) => {
                        return Err(error::invalid("unsupported server_tool_use block"));
                    },
                    Ok(Some((item, next))) => {
                        self.push_item(item);
                        self.next = next;
                    },
                }
            }
        } else if text::same_text(kind, "web_search_tool_result") {
            if keep_history {
                return Err(error::invalid("orphan web_search_tool_result block"));
            }
            self.advance();
        } else if text::same_text(kind, "redacted_thinking") {
            self.advance();
            if keep_history {
                if let Some(item) = reasoning::responses_reasoning_from_redacted_block(block) {
                    self.flush(role);
                    self.push_item(item);
                }
            }
        } else {
            self.advance();
        }
        Ok(())
    }
}

fn add_blocks(items: Vec<Json>, role: &str, blocks: &Vec<Json>, keep_history: bool) -> (r: Result<
    Vec<Json>,
    ProxyError,
>)
    ensures
        items_result(r) == after_blocks(
            role@,
            json::items_view(blocks@),
            keep_history,
            (InputState { items: json::items_view(items@), parts: Seq::empty(), next: 0 }),
        ),
{
    let ghost views = json::items_view(blocks@);
    let mut input = Input { items, parts: Vec::new(), next: 0 };
    let ghost start = input@;
    assert(start.parts =~= Seq::<JsonView>::empty());
    while input.next < blocks.len()
        invariant
            views == json::items_view(blocks@),
            input.next <= blocks@.len(),
            start == (InputState {
                items: json::items_view(items@),
                parts: Seq::empty(),
                next: 0,
            }),
            after_blocks(role@, views, keep_history, input@) == after_blocks(
                role@,
                views,
                keep_history,
                start,
            ),
        decreases blocks@.len() - input.next,
    {
        if let Err(e) = input.add_block(role, blocks, keep_history) {
            return Err(e);
        }
    }
    input.flush(role);
    Ok(input.items)
}

pub open spec fn items_result(r: Result<Vec<Json>, ProxyError>) -> Result<Seq<JsonView>, ErrorView> {
    match r {
        Ok(v) => Ok(json::items_view(v@)),
        Err(e) => Err(e@),
    }
}

fn add_message(items: Vec<Json>, msg: &Json, keep_history: bool) -> (r: Result<Vec<Json>, ProxyError>)
    ensures
        items_result(r) == after_message(keep_history)(json::items_view(items@), msg@),
{
    let mut items = items;
    let role = msg.str_or("role", "user");
    match msg.get("content") {
        Some(Json::Str(s)) => {
            let mut parts: Vec<Json> = Vec::new();
            parts.push(make_text_part(role, s.as_str()));
            assert(json::items_view(parts@) =~= seq![text_part(role@, s@)]);
            let item = make_message(role, parts);
            proof {
                json::items_push(items@, item);
            }
            items.push(item);
            Ok(items)
        },
        Some(Json::Array(blocks)) => add_blocks(items, role, blocks, keep_history),
        _ => {
            let item = Json::object().with("role", Json::string(role));
            proof {
                json::items_push(items@, item);
            }
            items.push(item);
            Ok(items)
        },
    }
}

/// The input that messages make. With `keep_history`, what the client sends
/// back of searches, reasoning and citations is kept.
pub fn convert_messages_to_input(messages: &Vec<Json>, keep_history: bool) -> (r: Result<
    Vec<Json>,
    ProxyError,
>)
    ensures
        items_result(r) == messages_input(json::items_view(messages@), keep_history),
{
    let ghost views = json::items_view(messages@);
    let ghost f = after_message(keep_history);
    let mut items: Vec<Json> = Vec::new();
    let mut i: usize = 0;
    assert(json::items_view(items@) =~= Seq::<JsonView>::empty());
    while i < messages.len()
        invariant
            i <= messages@.len(),
            views == json::items_view(messages@),
            f == after_message(keep_history),
            seqs::folded(views, f, Seq::empty(), i as nat) == Ok::<Seq<JsonView>, ErrorView>(
                json::items_view(items@),
            ),
        decreases messages@.len() - i,
    {
        assert(views[i as int] == messages@[i as int]@);
        proof {
            if seqs::folded(views, f, Seq::empty(), (i + 1) as nat) is Err {
                seqs::folded_stops(views, f, Seq::empty(), (i + 1) as nat, views.len());
            }
        }
        match add_message(items, &messages[i], keep_history) {
            Ok(more) => {
                items = more;
            },
            Err(e) => {
                return Err(e);
            },
        }
        i = i + 1;
    }
    Ok(items)
}

} // verus!
