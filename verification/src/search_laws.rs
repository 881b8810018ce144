//! What holds of hosted web search as a whole.
use crate::error::ErrorView;
use crate::json;
use crate::json::JsonView;
use crate::seqs;
use crate::text;
use crate::web_search_bridge;
use crate::web_search_bridge::RESULT_DIGEST_PREFIX;
use vstd::prelude::*;

verus! {

/// The names of the members of the two blocks differ from one another.
proof fn block_names_differ()
    ensures
        "type"@ != "id"@,
        "type"@ != "name"@,
        "type"@ != "input"@,
        "type"@ != "cache_control"@,
        "type"@ != "tool_use_id"@,
        "type"@ != "content"@,
        "id"@ != "name"@,
        "id"@ != "input"@,
        "id"@ != "cache_control"@,
        "name"@ != "input"@,
        "name"@ != "cache_control"@,
        "input"@ != "cache_control"@,
        "tool_use_id"@ != "content"@,
        "tool_use_id"@ != "cache_control"@,
        "content"@ != "cache_control"@,
{
    reveal_strlit("type");
    assert("type"@.len() == 4);
    reveal_strlit("id");
    assert("id"@.len() == 2);
    reveal_strlit("name");
    assert("name"@.len() == 4);
    reveal_strlit("input");
    assert("input"@.len() == 5);
    reveal_strlit("cache_control");
    assert("cache_control"@.len() == 13);
    reveal_strlit("tool_use_id");
    assert("tool_use_id"@.len() == 11);
    reveal_strlit("content");
    assert("content"@.len() == 7);
    assert("type"@[0] == 't' && "name"@[0] == 'n');
}

/// The names of the members of a result differ from one another.
proof fn result_names_differ()
    ensures
        "type"@ != "url"@,
        "type"@ != "title"@,
        "type"@ != "encrypted_content"@,
        "url"@ != "title"@,
        "url"@ != "encrypted_content"@,
        "title"@ != "encrypted_content"@,
{
    reveal_strlit("type");
    assert("type"@.len() == 4);
    reveal_strlit("url");
    assert("url"@.len() == 3);
    reveal_strlit("title");
    assert("title"@.len() == 5);
    reveal_strlit("encrypted_content");
    assert("encrypted_content"@.len() == 17);
}

/// The names of the members of an action differ from one another, and so do
/// the kinds of actions.
proof fn action_names_differ()
    ensures
        "query"@ != "action"@,
        "query"@ != "url"@,
        "query"@ != "pattern"@,
        "action"@ != "url"@,
        "action"@ != "pattern"@,
        "url"@ != "pattern"@,
        "search"@ != "open_page"@,
        "search"@ != "find_in_page"@,
        "open_page"@ != "find_in_page"@,
{
    reveal_strlit("query");
    assert("query"@.len() == 5);
    reveal_strlit("action");
    assert("action"@.len() == 6);
    reveal_strlit("url");
    assert("url"@.len() == 3);
    reveal_strlit("pattern");
    assert("pattern"@.len() == 7);
    reveal_strlit("search");
    assert("search"@.len() == 6);
    reveal_strlit("open_page");
    assert("open_page"@.len() == 9);
    reveal_strlit("find_in_page");
    assert("find_in_page"@.len() == 12);
}

/// Text with a character that is no white space is not blank.
proof fn not_blank(s: Seq<char>, i: int)
    requires
        0 <= i < s.len(),
        !text::white(s[i]),
    ensures
        !text::blank(s),
{
    text::blank_is_all_white(s);
}

/// A digest is not blank.
proof fn digest_not_blank(id: Seq<char>, ordinal: nat, url: Seq<char>)
    ensures
        !text::blank(web_search_bridge::digest_of(id, ordinal, url)),
{
    reveal_strlit("ccs-ws1:");
    assert("ccs-ws1:"@.len() == 8);
    let d = web_search_bridge::digest_of(id, ordinal, url);
    assert(d[0] == RESULT_DIGEST_PREFIX@[0]);
    assert(d[0] == 'c');
    not_blank(d, 0);
}

/// Whether no title is blank.
pub open spec fn titles_shown(titles: Map<Seq<char>, Seq<char>>) -> bool {
    forall|url: Seq<char>| titles.contains_key(url) ==> !text::blank(#[trigger] titles[url])
}

proof fn annotation_titles_shown(titles: Map<Seq<char>, Seq<char>>, annotations: Seq<JsonView>, n: nat)
    requires
        titles_shown(titles),
    ensures
        titles_shown(
            seqs::walked(annotations, web_search_bridge::with_annotation(), titles, n),
        ),
    decreases n,
{
    if n > 0 {
        annotation_titles_shown(titles, annotations, (n - 1) as nat);
    }
}

proof fn part_titles_shown(titles: Map<Seq<char>, Seq<char>>, parts: Seq<JsonView>, n: nat)
    requires
        titles_shown(titles),
    ensures
        titles_shown(seqs::walked(parts, web_search_bridge::with_part(), titles, n)),
    decreases n,
{
    if n > 0 {
        part_titles_shown(titles, parts, (n - 1) as nat);
        let annotations = parts[n - 1].items_at("annotations"@);
        annotation_titles_shown(
            seqs::walked(parts, web_search_bridge::with_part(), titles, (n - 1) as nat),
            annotations,
            annotations.len(),
        );
    }
}

proof fn item_titles_shown(output: Seq<JsonView>, n: nat)
    ensures
        titles_shown(seqs::walked(output, web_search_bridge::with_item(), Map::empty(), n)),
    decreases n,
{
    if n > 0 {
        item_titles_shown(output, (n - 1) as nat);
        let parts = output[n - 1].items_at("content"@);
        part_titles_shown(
            seqs::walked(output, web_search_bridge::with_item(), Map::empty(), (n - 1) as nat),
            parts,
            parts.len(),
        );
    }
}

/// No URL is ever given a blank title by the citations of an output.
pub proof fn cited_titles_are_shown(output: Seq<JsonView>)
    ensures
        titles_shown(web_search_bridge::cited_titles(output)),
{
    item_titles_shown(output, output.len());
}

/// The sources of a search have URLs and titles that are not blank.
spec fn sources_shown(sources: Seq<(Seq<char>, Option<Seq<char>>)>) -> bool {
    forall|i: int|
        0 <= i < sources.len() ==> !text::blank((#[trigger] sources[i]).0) && (sources[i].1 matches Some(
            t,
        ) ==> !text::blank(t))
}

proof fn action_sources_shown(action: JsonView)
    requires
        web_search_bridge::shown_action(action) is Ok,
    ensures
        sources_shown(web_search_bridge::shown_action(action)->Ok_0.1),
{
    action_names_differ();
    if action.get_str("type"@) == Some("search"@) {
        if let Some(JsonView::Array(v)) = action.get("sources"@) {
            let f = web_search_bridge::source_reader();
            let sources = seqs::collected(v, f, v.len())->Ok_0;
            seqs::collected_len(v, f, v.len());
            assert forall|i: int| 0 <= i < sources.len() implies !text::blank(
                (#[trigger] sources[i]).0,
            ) && (sources[i].1 matches Some(t) ==> !text::blank(t)) by {
                seqs::collected_at(v, f, v.len(), i);
            }
        }
    }
}

/// A result as it is shown reads back as its URL.
proof fn shown_result_reads_back(
    id: Seq<char>,
    ordinal: nat,
    source: (Seq<char>, Option<Seq<char>>),
    titles: Map<Seq<char>, Seq<char>>,
)
    requires
        !text::blank(source.0),
        source.1 matches Some(t) ==> !text::blank(t),
        titles_shown(titles),
    ensures
        web_search_bridge::checked_result(
            web_search_bridge::shown_result(id, ordinal, source, titles),
            id,
            ordinal as int,
        ) == Ok::<Seq<char>, ErrorView>(source.0),
{
    result_names_differ();
    digest_not_blank(id, ordinal, source.0);
    let r = web_search_bridge::shown_result(id, ordinal, source, titles);
    let allowed = web_search_bridge::search_result_fields();
    assert(allowed[0] == "type"@ && allowed[1] == "url"@ && allowed[2] == "title"@ && allowed[3]
        == "encrypted_content"@);
    assert forall|k: Seq<char>| r->Object_0.contains_key(k) implies allowed.contains(k) by {}
    assert(!exists|k: Seq<char>| #[trigger] json::is_unknown(r->Object_0, allowed, k));
}

/// The results as they are shown read back as the URLs of the sources.
proof fn shown_results_read_back(
    id: Seq<char>,
    sources: Seq<(Seq<char>, Option<Seq<char>>)>,
    titles: Map<Seq<char>, Seq<char>>,
    n: nat,
)
    requires
        sources_shown(sources),
        titles_shown(titles),
        n <= sources.len(),
    ensures
        seqs::collected(
            web_search_bridge::shown_results(id, sources, titles),
            web_search_bridge::result_reader(id),
            n,
        ) == Ok::<Seq<Seq<char>>, ErrorView>(source_urls(sources).take(n as int)),
    decreases n,
{
    let urls = source_urls(sources);
    if n > 0 {
        shown_results_read_back(id, sources, titles, (n - 1) as nat);
        shown_result_reads_back(id, (n - 1) as nat, sources[n - 1], titles);
        assert(urls.take(n - 1).push(urls[n - 1]) =~= urls.take(n as int));
    } else {
        assert(urls.take(0) =~= Seq::empty());
    }
}

/// The URLs of sources.
pub open spec fn source_urls(sources: Seq<(Seq<char>, Option<Seq<char>>)>) -> Seq<Seq<char>> {
    Seq::new(sources.len(), |i: int| sources[i].0)
}

/// What is kept of an action when its item goes to the client and comes back:
/// what it was asked, and the URLs of its sources.
pub open spec fn kept_action(action: JsonView) -> JsonView {
    let kind = action.get_str("type"@);
    if kind == Some("search"@) {
        let sources = web_search_bridge::shown_action(action)->Ok_0.1;
        JsonView::object().with("type"@, JsonView::Str("search"@)).with(
            "query"@,
            JsonView::Str(action.get_str("query"@)->0),
        ).with(
            "sources"@,
            JsonView::Array(source_urls(sources).map_values(web_search_bridge::url_source())),
        )
    } else if kind == Some("open_page"@) {
        JsonView::object().with("type"@, JsonView::Str("open_page"@)).with(
            "url"@,
            JsonView::Str(action.get_str("url"@)->0),
        )
    } else {
        JsonView::object().with("type"@, JsonView::Str("find_in_page"@)).with(
            "url"@,
            JsonView::Str(action.get_str("url"@)->0),
        ).with("pattern"@, JsonView::Str(action.get_str("pattern"@)->0))
    }
}

/// What is kept of a web-search item when it goes to the client and comes back.
pub open spec fn kept_item(item: JsonView) -> JsonView {
    JsonView::object().with("type"@, JsonView::Str("web_search_call"@)).with(
        "id"@,
        JsonView::Str(item.get_str("id"@)->0),
    ).with("status"@, JsonView::Str("completed"@)).with(
        "action"@,
        kept_action(item.get("action"@)->0),
    )
}

/// The input of an action as it is shown folds back into the action.
proof fn shown_action_folds_back(
    id: Seq<char>,
    action: JsonView,
    titles: Map<Seq<char>, Seq<char>>,
)
    requires
        web_search_bridge::shown_action(action) is Ok,
        titles_shown(titles),
    ensures
        web_search_bridge::folded_action(
            id,
            web_search_bridge::shown_action(action)->Ok_0.0,
            web_search_bridge::shown_results(
                id,
                web_search_bridge::shown_action(action)->Ok_0.1,
                titles,
            ),
        ) == Ok::<JsonView, ErrorView>(kept_action(action)),
{
    action_names_differ();
    action_sources_shown(action);
    let input = web_search_bridge::shown_action(action)->Ok_0.0;
    let sources = web_search_bridge::shown_action(action)->Ok_0.1;
    let urls = source_urls(sources);
    shown_results_read_back(id, sources, titles, sources.len());
    assert(urls.take(urls.len() as int) =~= urls);
    let kind = action.get_str("type"@);
    let m = input->Object_0;
    if kind == Some("search"@) {
        let allowed = seq!["query"@];
        assert(allowed[0] == "query"@);
        assert forall|k: Seq<char>| m.contains_key(k) implies allowed.contains(k) by {}
        assert(!exists|k: Seq<char>| #[trigger] json::is_unknown(m, allowed, k));
    } else if kind == Some("open_page"@) {
        let allowed = seq!["query"@, "action"@, "url"@];
        assert(allowed[0] == "query"@ && allowed[1] == "action"@ && allowed[2] == "url"@);
        assert forall|k: Seq<char>| m.contains_key(k) implies allowed.contains(k) by {}
        assert(!exists|k: Seq<char>| #[trigger] json::is_unknown(m, allowed, k));
        assert(urls =~= seq![action.get_str("url"@)->0]);
    } else {
        let allowed = seq!["query"@, "action"@, "url"@, "pattern"@];
        assert(allowed[0] == "query"@ && allowed[1] == "action"@ && allowed[2] == "url"@
            && allowed[3] == "pattern"@);
        assert forall|k: Seq<char>| m.contains_key(k) implies allowed.contains(k) by {}
        assert(!exists|k: Seq<char>| #[trigger] json::is_unknown(m, allowed, k));
        assert(urls =~= seq![action.get_str("url"@)->0]);
    }
}

/// What the client is shown of a web-search item folds back into that item
/// when the client sends it again: whatever is shown is accepted, wherever it
/// stands among the blocks, and gives the item's id, its action and the URLs of
/// its sources.
pub proof fn shown_search_folds_back(
    item: JsonView,
    titles: Map<Seq<char>, Seq<char>>,
    blocks: Seq<JsonView>,
    index: int,
)
    requires
        titles_shown(titles),
        web_search_bridge::shown_search(item, titles) is Ok,
        0 <= index,
        index + 1 < blocks.len(),
        blocks[index] == web_search_bridge::shown_search(item, titles)->Ok_0.0,
        blocks[index + 1] == web_search_bridge::shown_search(item, titles)->Ok_0.1,
    ensures
        web_search_bridge::folded_history(blocks, index) == Ok::<
            Option<(JsonView, int)>,
            ErrorView,
        >(Some((kept_item(item), index + 2))),
{
    block_names_differ();
    let server = blocks[index];
    let result = blocks[index + 1];
    let action = item.get("action"@)->0;
    let id = item.get_str("id"@)->0;
    shown_action_folds_back(id, action, titles);
    let a = server->Object_0;
    let allowed = web_search_bridge::server_tool_fields();
    assert(allowed[0] == "type"@ && allowed[1] == "id"@ && allowed[2] == "name"@ && allowed[3]
        == "input"@);
    assert forall|k: Seq<char>| a.contains_key(k) implies allowed.contains(k) by {}
    assert(!exists|k: Seq<char>| #[trigger] json::is_unknown(a, allowed, k));
    let b = result->Object_0;
    let allowed2 = web_search_bridge::tool_result_fields();
    assert(allowed2[0] == "type"@ && allowed2[1] == "tool_use_id"@ && allowed2[2] == "content"@);
    assert forall|k: Seq<char>| b.contains_key(k) implies allowed2.contains(k) by {}
    assert(!exists|k: Seq<char>| #[trigger] json::is_unknown(b, allowed2, k));
    assert(web_search_bridge::shown_action(action) is Ok);
    assert(server.get("input"@) == Some(web_search_bridge::shown_action(action)->Ok_0.0));
}

} // verus!
