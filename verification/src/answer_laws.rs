//! What a provider answers is what the client is shown: nothing is lost, nothing
//! is added, and everything stays in its order.
use crate::json::JsonView;
use crate::json_codec;
use crate::reasoning;
use crate::seqs;
use crate::text;
use crate::transform_responses;
use crate::web_search_bridge;
use vstd::prelude::*;

verus! {

// ---------------------------------------------------------------------------
// What is answered
// ---------------------------------------------------------------------------

/// One thing that is answered.
#[verifier::ext_equal]
pub enum Answered {
    /// A text, with its citations.
    Text { text: Seq<char>, citations: Seq<JsonView> },
    /// The call of a tool, under the id that what comes of it is sent back by.
    Call { id: Seq<char>, name: Seq<char>, input: Option<JsonView> },
    /// What the model thought, in words.
    Thought { text: Seq<char> },
    /// What the model thought, sealed: its id and its encrypted content, in the
    /// text of an object.
    Sealed { data: Seq<char> },
    /// A web search, with what was looked for.
    Search { id: Seq<char>, query: Seq<char>, action: Option<JsonView> },
    /// The pages that a search came upon, each with its title.
    Pages { id: Seq<char>, pages: Seq<(Seq<char>, Seq<char>)> },
}

// ---------------------------------------------------------------------------
// How a client reads a message
// ---------------------------------------------------------------------------

/// A page as a client reads it: its URL and its title.
pub open spec fn page_read(page: JsonView) -> (Seq<char>, Seq<char>) {
    (page.str_or("url"@, ""@), page.str_or("title"@, ""@))
}

/// What a client reads in a block of a message.
pub open spec fn block_read() -> spec_fn(JsonView) -> Seq<Answered> {
    |block: JsonView|
        if block.says("type"@, "text"@) {
            seq![
                Answered::Text {
                    text: block.str_or("text"@, ""@),
                    citations: block.items_at("citations"@),
                },
            ]
        } else if block.says("type"@, "tool_use"@) {
            seq![
                Answered::Call {
                    id: block.str_or("id"@, ""@),
                    name: block.str_or("name"@, ""@),
                    input: block.get("input"@),
                },
            ]
        } else if block.says("type"@, "thinking"@) {
            seq![Answered::Thought { text: block.str_or("thinking"@, ""@) }]
        } else if block.says("type"@, "redacted_thinking"@) {
            seq![Answered::Sealed { data: block.str_or("data"@, ""@) }]
        } else if block.says("type"@, "server_tool_use"@) && block.says("name"@, "web_search"@) {
            let input = JsonView::or_null(block.get("input"@));
            seq![
                Answered::Search {
                    id: block.str_or("id"@, ""@),
                    query: input.str_or("query"@, ""@),
                    action: input.get("action"@),
                },
            ]
        } else if block.says("type"@, "web_search_tool_result"@) {
            seq![
                Answered::Pages {
                    id: block.str_or("tool_use_id"@, ""@),
                    pages: block.items_at("content"@).map_values(|page: JsonView| page_read(page)),
                },
            ]
        } else {
            Seq::empty()
        }
}

/// What a client reads in the content of a message.
pub open spec fn content_read(content: Seq<JsonView>) -> Seq<Answered> {
    seqs::gathered(content, block_read(), content.len())
}

// ---------------------------------------------------------------------------
// What a provider answers
// ---------------------------------------------------------------------------

/// What a part of a message says: its text, with the citations of its
/// annotations where searches are shown, or its refusal. Nothing where that is
/// empty.
pub open spec fn part_says(searches: bool) -> spec_fn(JsonView) -> Seq<Answered> {
    |part: JsonView|
        {
            let key = if part.says("type"@, "output_text"@) {
                "text"@
            } else {
                "refusal"@
            };
            if (part.says("type"@, "output_text"@) || part.says("type"@, "refusal"@))
                && part.get_str(key) is Some && part.get_str(key)->0.len() > 0 {
                let text = part.get_str(key)->0;
                seq![
                    Answered::Text {
                        text,
                        citations: if searches && part.says("type"@, "output_text"@) {
                            transform_responses::shown_citations(part, text)->Ok_0
                        } else {
                            Seq::empty()
                        },
                    },
                ]
            } else {
                Seq::empty()
            }
        }
}

/// The words of the first `n` parts that are of a kind, in a row.
pub open spec fn words_of_parts(parts: Seq<JsonView>, kind: Seq<char>, n: nat) -> Seq<char>
    decreases n,
{
    if n == 0 {
        Seq::empty()
    } else {
        let before = words_of_parts(parts, kind, (n - 1) as nat);
        if parts[n - 1].says("type"@, kind) && parts[n - 1].get_str("text"@) is Some {
            before + parts[n - 1].get_str("text"@)->0
        } else {
            before
        }
    }
}

/// What the model thought: its summary, and its own words where searches are
/// shown.
pub open spec fn thought_words(item: JsonView, searches: bool) -> Seq<char> {
    let summary = item.items_at("summary"@);
    let content = item.items_at("content"@);
    words_of_parts(summary, "summary_text"@, summary.len()) + (if searches {
        words_of_parts(content, "reasoning_text"@, content.len())
    } else {
        Seq::empty()
    })
}

/// What a call is made with: the value of its arguments, or an empty object
/// where they have none. The `Read` tool is not given empty pages.
pub open spec fn call_input(item: JsonView) -> JsonView {
    let input = match json_codec::parsed(item.str_or("arguments"@, "{}"@)) {
        Ok(v) => v,
        Err(_) => JsonView::Object(Map::empty()),
    };
    match input {
        JsonView::Object(m) => if item.says("name"@, "Read"@) && m.contains_key("pages"@)
            && m["pages"@] == JsonView::Str(""@) {
            JsonView::Object(m.remove("pages"@))
        } else {
            input
        },
        _ => input,
    }
}

/// What a search looked for.
pub open spec fn search_query(action: JsonView) -> Seq<char> {
    if action.says("type"@, "search"@) {
        action.str_or("query"@, ""@)
    } else if action.says("type"@, "open_page"@) {
        action.str_or("url"@, ""@)
    } else {
        action.str_or("pattern"@, ""@) + " ("@ + action.str_or("url"@, ""@) + ")"@
    }
}

/// What a search did, where it did more than search.
pub open spec fn search_action(action: JsonView) -> Option<JsonView> {
    if action.says("type"@, "search"@) {
        None
    } else {
        action.get("type"@)
    }
}

/// The title of a page: its own, else the one that it is cited by, else its URL.
pub open spec fn page_title(
    source: JsonView,
    url: Seq<char>,
    titles: Map<Seq<char>, Seq<char>>,
) -> Seq<char> {
    if source.get_str("title"@) is Some && !text::blank(source.get_str("title"@)->0) {
        source.get_str("title"@)->0
    } else if titles.contains_key(url) {
        titles[url]
    } else {
        url
    }
}

/// The pages that a search came upon: its sources, or the page that it opened.
pub open spec fn search_pages(action: JsonView, titles: Map<Seq<char>, Seq<char>>) -> Seq<
    (Seq<char>, Seq<char>),
> {
    if action.says("type"@, "search"@) {
        let sources = action.items_at("sources"@);
        Seq::new(
            sources.len(),
            |i: int|
                {
                    let url = sources[i].str_or("url"@, ""@);
                    (url, page_title(sources[i], url, titles))
                },
        )
    } else {
        let url = action.str_or("url"@, ""@);
        seq![(url, page_title(JsonView::Null, url, titles))]
    }
}

/// What an output item says.
pub open spec fn item_says(titles: Map<Seq<char>, Seq<char>>, searches: bool) -> spec_fn(
    JsonView,
) -> Seq<Answered> {
    |item: JsonView|
        if item.says("type"@, "message"@) {
            let parts = item.items_at("content"@);
            seqs::gathered(parts, part_says(searches), parts.len())
        } else if item.says("type"@, "function_call"@) {
            seq![
                Answered::Call {
                    id: item.str_or("call_id"@, ""@),
                    name: item.str_or("name"@, ""@),
                    input: Some(call_input(item)),
                },
            ]
        } else if item.says("type"@, "web_search_call"@) && searches {
            let action = JsonView::or_null(item.get("action"@));
            seq![
                Answered::Search {
                    id: item.str_or("id"@, ""@),
                    query: search_query(action),
                    action: search_action(action),
                },
                Answered::Pages {
                    id: item.str_or("id"@, ""@),
                    pages: search_pages(action, titles),
                },
            ]
        } else if item.says("type"@, "reasoning"@) {
            let words = thought_words(item, searches);
            let sealed = item.str_or("encrypted_content"@, ""@);
            (if words.len() > 0 {
                seq![Answered::Thought { text: words }]
            } else {
                Seq::empty()
            }) + (if searches && sealed.len() > 0 {
                seq![
                    Answered::Sealed {
                        data: "cc-switch-responses-reasoning-v1:"@ + json_codec::written(
                            JsonView::Object(
                                Map::<Seq<char>, JsonView>::empty().insert(
                                    "id"@,
                                    JsonView::Str(item.str_or("id"@, ""@)),
                                ).insert("encrypted_content"@, JsonView::Str(sealed)),
                            ),
                        ),
                    },
                ]
            } else {
                Seq::empty()
            })
        } else {
            Seq::empty()
        }
}

/// What an output says.
pub open spec fn output_says(output: Seq<JsonView>, searches: bool) -> Seq<Answered> {
    let titles = if searches {
        web_search_bridge::cited_titles(output)
    } else {
        Map::empty()
    };
    seqs::gathered(output, item_says(titles, searches), output.len())
}

// ---------------------------------------------------------------------------
// Names
// ---------------------------------------------------------------------------

proof fn kinds_differ()
    ensures
        "text"@.len() == 4,
        "tool_use"@.len() == 8,
        "thinking"@.len() == 8,
        "tool_use"@ != "thinking"@,
        "redacted_thinking"@.len() == 17,
        "server_tool_use"@.len() == 15,
        "web_search_tool_result"@.len() == 22,
        "message"@.len() == 7,
        "function_call"@.len() == 13,
        "web_search_call"@.len() == 15,
        "reasoning"@.len() == 9,
        "output_text"@.len() == 11,
        "refusal"@.len() == 7,
        "search"@.len() == 6,
        "open_page"@.len() == 9,
        "find_in_page"@.len() == 12,
        "Read"@.len() == 4,
        ""@ == Seq::<char>::empty(),
{
    reveal_strlit("text");
    reveal_strlit("tool_use");
    reveal_strlit("thinking");
    reveal_strlit("redacted_thinking");
    reveal_strlit("server_tool_use");
    reveal_strlit("web_search_tool_result");
    reveal_strlit("message");
    reveal_strlit("function_call");
    reveal_strlit("web_search_call");
    reveal_strlit("reasoning");
    reveal_strlit("output_text");
    reveal_strlit("refusal");
    reveal_strlit("search");
    reveal_strlit("open_page");
    reveal_strlit("find_in_page");
    reveal_strlit("Read");
    reveal_strlit("");
    assert("tool_use"@[1] == 'o' && "thinking"@[1] == 'h');
    assert(""@ =~= Seq::<char>::empty());
}

proof fn names_differ()
    ensures
        "type"@ != "text"@,
        "type"@ != "citations"@,
        "text"@ != "citations"@,
        "type"@ != "id"@,
        "type"@ != "name"@,
        "type"@ != "input"@,
        "id"@ != "name"@,
        "id"@ != "input"@,
        "name"@ != "input"@,
        "type"@ != "thinking"@,
        "type"@ != "signature"@,
        "thinking"@ != "signature"@,
        "type"@ != "data"@,
        "type"@ != "tool_use_id"@,
        "type"@ != "content"@,
        "tool_use_id"@ != "content"@,
        "type"@ != "url"@,
        "type"@ != "title"@,
        "url"@ != "title"@,
        "url"@ != "encrypted_content"@,
        "title"@ != "encrypted_content"@,
        "query"@ != "action"@,
        "query"@ != "url"@,
        "query"@ != "pattern"@,
        "action"@ != "url"@,
        "action"@ != "pattern"@,
{
    reveal_strlit("type");
    reveal_strlit("text");
    reveal_strlit("citations");
    reveal_strlit("id");
    reveal_strlit("name");
    reveal_strlit("input");
    reveal_strlit("thinking");
    reveal_strlit("signature");
    reveal_strlit("data");
    reveal_strlit("tool_use_id");
    reveal_strlit("content");
    reveal_strlit("url");
    reveal_strlit("title");
    reveal_strlit("encrypted_content");
    reveal_strlit("query");
    reveal_strlit("action");
    reveal_strlit("pattern");
    assert("type"@.len() == 4 && "text"@.len() == 4 && "name"@.len() == 4 && "data"@.len() == 4);
    assert("type"@[1] == 'y' && "text"@[1] == 'e' && "name"@[1] == 'a' && "data"@[1] == 'a');
    assert("citations"@.len() == 9 && "id"@.len() == 2 && "input"@.len() == 5);
    assert("thinking"@.len() == 8 && "signature"@.len() == 9 && "tool_use_id"@.len() == 11);
    assert("content"@.len() == 7 && "url"@.len() == 3 && "title"@.len() == 5);
    assert("encrypted_content"@.len() == 17 && "query"@.len() == 5 && "action"@.len() == 6);
    assert("pattern"@.len() == 7);
}

// ---------------------------------------------------------------------------
// Parts and items
// ---------------------------------------------------------------------------

/// What is shown of a part is read as what it says.
proof fn part_is_read(searches: bool, part: JsonView)
    requires
        transform_responses::shown_part(part, searches) is Ok,
    ensures
        content_read(transform_responses::shown_part(part, searches)->Ok_0) == part_says(searches)(
            part,
        ),
{
    kinds_differ();
    names_differ();
    let blocks = transform_responses::shown_part(part, searches)->Ok_0;
    if blocks.len() > 0 {
        let block = blocks[0];
        assert(blocks =~= seq![block]);
        assert(block.says("type"@, "text"@));
        let said = part_says(searches)(part);
        assert(block.items_at("citations"@) =~= said[0]->Text_citations);
        assert(block_read()(block) =~= said);
        seqs::gathered_push(Seq::<JsonView>::empty(), block, block_read());
        assert(Seq::<JsonView>::empty().push(block) =~= blocks);
        assert(Seq::<Answered>::empty() + block_read()(block) =~= block_read()(block));
    }
}

/// What is shown of the first `n` parts is read as what they say.
proof fn parts_are_read(searches: bool, parts: Seq<JsonView>, content: Seq<JsonView>, n: nat)
    requires
        n <= parts.len(),
        seqs::folded(parts, transform_responses::with_shown_part(searches), content, n) is Ok,
    ensures
        content_read(
            seqs::folded(
                parts,
                transform_responses::with_shown_part(searches),
                content,
                n,
            )->Ok_0,
        ) == content_read(content) + seqs::gathered(parts, part_says(searches), n),
    decreases n,
{
    if n == 0 {
        assert(content_read(content) + Seq::<Answered>::empty() =~= content_read(content));
    } else {
        parts_are_read(searches, parts, content, (n - 1) as nat);
        let before = seqs::folded(
            parts,
            transform_responses::with_shown_part(searches),
            content,
            (n - 1) as nat,
        )->Ok_0;
        let blocks = transform_responses::shown_part(parts[n - 1], searches)->Ok_0;
        part_is_read(searches, parts[n - 1]);
        seqs::gathered_append(before, blocks, block_read());
        let g = seqs::gathered(parts, part_says(searches), (n - 1) as nat);
        let x = part_says(searches)(parts[n - 1]);
        assert(content_read(content) + g + x =~= content_read(content) + (g + x));
    }
}

proof fn words_agree(parts: Seq<JsonView>, kind: Seq<char>, n: nat)
    ensures
        seqs::walked(parts, transform_responses::with_part_text(kind), Seq::empty(), n)
            == words_of_parts(parts, kind, n),
    decreases n,
{
    if n > 0 {
        words_agree(parts, kind, (n - 1) as nat);
        let before = words_of_parts(parts, kind, (n - 1) as nat);
        assert(before + Seq::<char>::empty() =~= before);
    }
}

/// One block is read by itself.
proof fn one_block(block: JsonView)
    ensures
        content_read(seq![block]) == block_read()(block),
{
    seqs::gathered_push(Seq::<JsonView>::empty(), block, block_read());
    assert(Seq::<JsonView>::empty().push(block) =~= seq![block]);
    assert(Seq::<Answered>::empty() + block_read()(block) =~= block_read()(block));
}

/// What is shown of reasoning is read as what the model thought.
proof fn reasoning_is_read(
    titles: Map<Seq<char>, Seq<char>>,
    searches: bool,
    item: JsonView,
)
    requires
        item.says("type"@, "reasoning"@),
    ensures
        content_read(transform_responses::shown_reasoning(item, searches)) == item_says(
            titles,
            searches,
        )(item),
{
    kinds_differ();
    names_differ();
    let summary = item.items_at("summary"@);
    let own = item.items_at("content"@);
    words_agree(summary, "summary_text"@, summary.len());
    words_agree(own, "reasoning_text"@, own.len());
    let words = thought_words(item, searches);
    let shown = transform_responses::shown_reasoning(item, searches);
    assert(words_of_parts(summary, "summary_text"@, summary.len()) + Seq::<char>::empty()
        =~= words_of_parts(summary, "summary_text"@, summary.len()));
    let sealed = reasoning::redacted_block(item);
    let first = if words.len() > 0 {
        seq![shown[0]]
    } else {
        Seq::empty()
    };
    let second = if searches && sealed is Some {
        seq![sealed->0]
    } else {
        Seq::empty()
    };
    assert(shown =~= first + second);
    seqs::gathered_append(first, second, block_read());
    if words.len() > 0 {
        one_block(shown[0]);
        assert(shown[0].says("type"@, "thinking"@));
        assert(shown[0].str_or("thinking"@, ""@) == words);
        assert(content_read(first) =~= seq![Answered::Thought { text: words }]);
    }
    if searches && sealed is Some {
        one_block(sealed->0);
        assert(sealed->0.says("type"@, "redacted_thinking"@));
    }
    assert(content_read(first + second) =~= item_says(titles, searches)(item));
}

/// What is shown of a search is read as what was looked for and found.
#[verifier::rlimit(60)]
proof fn search_is_read(titles: Map<Seq<char>, Seq<char>>, item: JsonView)
    requires
        item.says("type"@, "web_search_call"@),
        web_search_bridge::shown_search(item, titles) is Ok,
    ensures
        ({
            let pair = web_search_bridge::shown_search(item, titles)->Ok_0;
            block_read()(pair.0) + block_read()(pair.1) == item_says(titles, true)(item)
        }),
{
    kinds_differ();
    names_differ();
    let (server, result) = web_search_bridge::shown_search(item, titles)->Ok_0;
    let action = item.get("action"@)->0;
    let (input, sources) = web_search_bridge::shown_action(action)->Ok_0;
    let id = item.get_str("id"@)->0;
    assert(server.says("type"@, "server_tool_use"@));
    assert(server.says("name"@, "web_search"@));
    assert(server.get("input"@) == Some(input));
    assert(result.says("type"@, "web_search_tool_result"@));
    assert(input.str_or("query"@, ""@) == search_query(action));
    assert(input.get("action"@) == search_action(action));
    let shown = web_search_bridge::shown_results(id, sources, titles);
    assert(result.items_at("content"@) == shown);
    let pages = search_pages(action, titles);
    let read = shown.map_values(|page: JsonView| page_read(page));
    if action.says("type"@, "search"@) {
        let all = action.items_at("sources"@);
        if let Some(JsonView::Array(v)) = action.get("sources"@) {
            seqs::collected_len(v, web_search_bridge::source_reader(), v.len());
        }
        assert(sources.len() == all.len());
        assert forall|i: int| 0 <= i < all.len() implies #[trigger] read[i] == pages[i] by {
            seqs::collected_at(all, web_search_bridge::source_reader(), all.len(), i);
            assert(sources[i].0 == all[i].str_or("url"@, ""@));
        }
    } else {
        assert(sources.len() == 1);
        assert(read[0] == pages[0]);
    }
    assert(read =~= pages);
    assert(block_read()(server) + block_read()(result) =~= item_says(titles, true)(item));
}

/// What is shown of an item is read as what it says.
proof fn item_is_read(
    titles: Map<Seq<char>, Seq<char>>,
    searches: bool,
    content: Seq<JsonView>,
    item: JsonView,
)
    requires
        transform_responses::with_shown_item(titles, searches)(content, item) is Ok,
    ensures
        content_read(transform_responses::with_shown_item(titles, searches)(content, item)->Ok_0)
            == content_read(content) + item_says(titles, searches)(item),
{
    kinds_differ();
    names_differ();
    let kind = item.str_or("type"@, ""@);
    let before = content_read(content);
    let said = item_says(titles, searches)(item);
    if kind == "message"@ {
        let parts = item.items_at("content"@);
        parts_are_read(searches, parts, content, parts.len());
    } else if kind == "function_call"@ {
        let block = transform_responses::tool_use_block(item);
        seqs::gathered_append(content, seq![block], block_read());
        one_block(block);
        assert(block.says("type"@, "tool_use"@));
        assert(block.str_or("id"@, ""@) == item.str_or("call_id"@, ""@));
        assert(block.get("input"@) == Some(call_input(item)));
        assert(block_read()(block) =~= said);
    } else if kind == "web_search_call"@ && searches {
        let pair = web_search_bridge::shown_search(item, titles)->Ok_0;
        search_is_read(titles, item);
        seqs::gathered_append(content, seq![pair.0], block_read());
        seqs::gathered_append(content + seq![pair.0], seq![pair.1], block_read());
        one_block(pair.0);
        one_block(pair.1);
        assert(before + block_read()(pair.0) + block_read()(pair.1) =~= before + (block_read()(
            pair.0,
        ) + block_read()(pair.1)));
    } else if kind == "reasoning"@ {
        reasoning_is_read(titles, searches, item);
        seqs::gathered_append(
            content,
            transform_responses::shown_reasoning(item, searches),
            block_read(),
        );
    } else {
        assert(said =~= Seq::<Answered>::empty());
        assert(before + said =~= before);
    }
}

proof fn items_are_read(
    titles: Map<Seq<char>, Seq<char>>,
    searches: bool,
    output: Seq<JsonView>,
    n: nat,
)
    requires
        n <= output.len(),
        seqs::folded(
            output,
            transform_responses::with_shown_item(titles, searches),
            Seq::empty(),
            n,
        ) is Ok,
    ensures
        content_read(
            seqs::folded(
                output,
                transform_responses::with_shown_item(titles, searches),
                Seq::empty(),
                n,
            )->Ok_0,
        ) == seqs::gathered(output, item_says(titles, searches), n),
    decreases n,
{
    if n > 0 {
        items_are_read(titles, searches, output, (n - 1) as nat);
        let before = seqs::folded(
            output,
            transform_responses::with_shown_item(titles, searches),
            Seq::empty(),
            (n - 1) as nat,
        )->Ok_0;
        item_is_read(titles, searches, before, output[n - 1]);
    }
}

// ---------------------------------------------------------------------------
// The laws
// ---------------------------------------------------------------------------

proof fn message_names_differ()
    ensures
        "id"@ != "type"@,
        "id"@ != "role"@,
        "id"@ != "content"@,
        "id"@ != "model"@,
        "id"@ != "stop_reason"@,
        "id"@ != "stop_sequence"@,
        "id"@ != "usage"@,
        "content"@ != "model"@,
        "content"@ != "stop_reason"@,
        "content"@ != "stop_sequence"@,
        "content"@ != "usage"@,
        "model"@ != "stop_reason"@,
        "model"@ != "stop_sequence"@,
        "model"@ != "usage"@,
        "stop_reason"@ != "stop_sequence"@,
        "stop_reason"@ != "usage"@,
        "stop_sequence"@ != "usage"@,
{
    reveal_strlit("id");
    reveal_strlit("type");
    reveal_strlit("role");
    reveal_strlit("content");
    reveal_strlit("model");
    reveal_strlit("stop_reason");
    reveal_strlit("stop_sequence");
    reveal_strlit("usage");
    assert("id"@.len() == 2 && "type"@.len() == 4 && "role"@.len() == 4 && "content"@.len() == 7);
    assert("model"@.len() == 5 && "usage"@.len() == 5 && "stop_reason"@.len() == 11);
    assert("stop_sequence"@.len() == 13 && "model"@[0] == 'm' && "usage"@[0] == 'u');
}

/// A client reads in the message what the provider answered, each thing once and
/// in its order: texts and refusals with their citations, the calls of tools
/// under their call ids with their names and inputs, thoughts, searches and the
/// pages they came upon. The message keeps the id and the model of the response.
pub proof fn clients_read_what_providers_answer(response: JsonView, searches: bool)
    requires
        transform_responses::bridged_response(response, searches) is Ok,
    ensures
        ({
            let message = transform_responses::bridged_response(response, searches)->Ok_0;
            &&& message.get_array("content"@) is Some
            &&& content_read(message.items_at("content"@)) == output_says(
                response.items_at("output"@),
                searches,
            )
            &&& message.get("id"@) == Some(JsonView::Str(response.str_or("id"@, ""@)))
            &&& message.get("model"@) == Some(JsonView::Str(response.str_or("model"@, ""@)))
        }),
{
    broadcast use vstd::map::group_map_axioms;

    kinds_differ();
    message_names_differ();
    let output = response.items_at("output"@);
    let titles = if searches {
        web_search_bridge::cited_titles(output)
    } else {
        Map::empty()
    };
    items_are_read(titles, searches, output, output.len());
}

/// What the model thought is shown as one block where it thought in words, signed
/// where searches are shown; its sealed thoughts follow only there.
pub proof fn thoughts_are_signed(item: JsonView, searches: bool)
    ensures
        ({
            let shown = transform_responses::shown_reasoning(item, searches);
            let words = thought_words(item, searches);
            &&& words.len() > 0 ==> {
                &&& shown.len() > 0
                &&& shown[0].says("type"@, "thinking"@)
                &&& shown[0].says("thinking"@, words)
                &&& searches ==> shown[0].says("signature"@, "cc-switch-responses-summary-v1"@)
                &&& !searches ==> shown[0].get("signature"@) is None && shown.len() == 1
            }
            &&& words.len() == 0 && !searches ==> shown.len() == 0
        }),
{
    broadcast use vstd::map::group_map_axioms;

    names_differ();
    let summary = item.items_at("summary"@);
    let content = item.items_at("content"@);
    words_agree(summary, "summary_text"@, summary.len());
    words_agree(content, "reasoning_text"@, content.len());
    reveal_strlit("signature");
    reveal_strlit("thinking");
    reveal_strlit("type");
    assert("signature"@.len() == 9 && "thinking"@.len() == 8 && "type"@.len() == 4);
}

} // verus!
