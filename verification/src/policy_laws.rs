//! What a client may ask of a hosted search, and what it may send back of one.
use crate::error::ErrorView;
use crate::json;
use crate::json::JsonView;
use crate::responses_input;
use crate::seqs;
use crate::text;
use crate::web_search_bridge;
use vstd::prelude::*;
use vstd::utf8::encode_utf8;

verus! {

/// Whether an object has no members but those that are named.
pub open spec fn has_only(v: JsonView, names: Seq<Seq<char>>) -> bool {
    forall|key: Seq<char>| #[trigger] v.get(key) is Some ==> names.contains(key)
}

/// Whether a member is a list of strings that are more than white space.
pub open spec fn lists_texts(v: JsonView) -> bool {
    v matches JsonView::Array(items) && forall|i: int|
        0 <= i < items.len() ==> (#[trigger] items[i] matches JsonView::Str(s) && !text::blank(s))
}

/// Whether a place is one that can be asked for.
pub open spec fn is_place(v: JsonView) -> bool {
    &&& v is Object
    &&& has_only(v, seq!["type"@, "city"@, "country"@, "region"@, "timezone"@])
    &&& v.says("type"@, "approximate"@)
    &&& v.get("city"@) is Some ==> v.get("city"@)->0 is Str || v.get("city"@)->0 is Null
    &&& v.get("country"@) is Some ==> v.get("country"@)->0 is Str || v.get("country"@)->0 is Null
    &&& v.get("region"@) is Some ==> v.get("region"@)->0 is Str || v.get("region"@)->0 is Null
    &&& v.get("timezone"@) is Some ==> v.get("timezone"@)->0 is Str || v.get("timezone"@)->0
        is Null
}

/// Whether a tool is a hosted search that can be asked for. No domain can be
/// blocked.
pub open spec fn is_hosted_search(tool: JsonView) -> bool {
    &&& tool is Object
    &&& has_only(
        tool,
        seq![
            "type"@,
            "name"@,
            "max_uses"@,
            "allowed_domains"@,
            "blocked_domains"@,
            "user_location"@,
            "cache_control"@,
        ],
    )
    &&& tool.says("type"@, "web_search_20250305"@)
    &&& tool.says("name"@, "web_search"@)
    &&& tool.get("cache_control"@) is Some ==> tool.get("cache_control"@)->0
        == JsonView::object().with("type"@, JsonView::Str("ephemeral"@))
    &&& tool.get("blocked_domains"@) is Some ==> tool.get("blocked_domains"@)->0 is Array
        && tool.items_at("blocked_domains"@).len() == 0
    &&& tool.get("allowed_domains"@) is Some ==> lists_texts(tool.get("allowed_domains"@)->0)
    &&& tool.get("user_location"@) is Some ==> is_place(tool.get("user_location"@)->0)
}

/// Members are known exactly where each is one of those that are named.
proof fn known_members(v: JsonView, names: Seq<Seq<char>>, what: Seq<char>)
    ensures
        web_search_bridge::checked_fields(v, names, what) is Ok <==> v is Object && has_only(
            v,
            names,
        ),
{
    if let JsonView::Object(m) = v {
        if has_only(v, names) {
            assert forall|k: Seq<char>| !(#[trigger] json::is_unknown(m, names, k)) by {
                assert(v.get(k) is Some ==> names.contains(k));
            }
        } else {
            let key = choose|key: Seq<char>| #[trigger] v.get(key) is Some && !names.contains(key);
            assert(json::is_unknown(m, names, key));
        }
    }
}

proof fn names_differ()
    ensures
        "type"@ != "filters"@,
        "type"@ != "user_location"@,
        "filters"@ != "user_location"@,
{
    reveal_strlit("type");
    reveal_strlit("filters");
    reveal_strlit("user_location");
    assert("type"@.len() == 4 && "filters"@.len() == 7 && "user_location"@.len() == 13);
}

/// A place is passed on as it is, exactly where it can be asked for.
proof fn places_are_passed_on(v: JsonView)
    ensures
        web_search_bridge::mapped_location(v) is Ok <==> is_place(v),
        web_search_bridge::mapped_location(v) is Ok ==> web_search_bridge::mapped_location(v)->Ok_0
            == v,
{
    known_members(
        v,
        seq!["type"@, "city"@, "country"@, "region"@, "timezone"@],
        "WebSearch user_location"@,
    );
}

/// A tool is passed on exactly where it is a hosted search that can be asked
/// for: as a search, with the domains it is limited to and the place it is made
/// from, and with nothing else.
pub proof fn hosted_searches_are_passed_on(tool: JsonView)
    ensures
        ({
            let r = web_search_bridge::mapped_tool(tool);
            let domains = tool.get("allowed_domains"@);
            let mapped = r->Ok_0;
            &&& r is Ok <==> is_hosted_search(tool)
            &&& r is Ok ==> {
                &&& mapped.says("type"@, "web_search"@)
                &&& mapped.get("user_location"@) == tool.get("user_location"@)
                &&& tool.items_at("allowed_domains"@).len() > 0 ==> mapped.get("filters"@) is Some
                    && mapped.get("filters"@)->0.get("allowed_domains"@) == domains && has_only(
                    mapped.get("filters"@)->0,
                    seq!["allowed_domains"@],
                )
                &&& tool.items_at("allowed_domains"@).len() == 0 ==> mapped.get("filters"@) is None
                &&& has_only(mapped, seq!["type"@, "filters"@, "user_location"@])
            }
        }),
{
    broadcast use vstd::map::group_map_axioms;

    names_differ();
    known_members(
        tool,
        seq![
            "type"@,
            "name"@,
            "max_uses"@,
            "allowed_domains"@,
            "blocked_domains"@,
            "user_location"@,
            "cache_control"@,
        ],
        "WebSearch tool"@,
    );
    if tool.get("user_location"@) is Some {
        places_are_passed_on(tool.get("user_location"@)->0);
    }
    if tool.get("blocked_domains"@) is Some {
        let blocked = tool.get("blocked_domains"@)->0;
        assert(blocked is Array && tool.items_at("blocked_domains"@).len() == 0
            ==> web_search_bridge::is_string_array(blocked->Array_0));
    }
    let r = web_search_bridge::mapped_tool(tool);
    if r is Ok {
        let names = seq!["type"@, "filters"@, "user_location"@];
        assert(names[0] == "type"@ && names[1] == "filters"@ && names[2] == "user_location"@);
        let one = seq!["allowed_domains"@];
        assert(one[0] == "allowed_domains"@);
        let mapped = r->Ok_0;
        assert forall|key: Seq<char>| #[trigger] mapped.get(key) is Some implies names.contains(
            key,
        ) by {}
        if mapped.get("filters"@) is Some {
            let filters = mapped.get("filters"@)->0;
            assert forall|key: Seq<char>| #[trigger] filters.get(key) is Some implies one.contains(
                key,
            ) by {}
        }
    }
}

// ---------------------------------------------------------------------------
// How many searches
// ---------------------------------------------------------------------------

/// Whether a tool asks for a search of the web, of whatever version.
pub open spec fn asks_for_search(tool: JsonView) -> bool {
    let kind = tool.get_str("type"@);
    kind is Some && (kind->0 == "web_search"@ || (kind->0.len() >= 11 && kind->0.take(11)
        == "web_search_"@))
}

proof fn searches_are_recognized(tool: JsonView)
    ensures
        web_search_bridge::looks_like_search(tool) == asks_for_search(tool),
{
    reveal_strlit("web_search_");
    assert("web_search_"@.len() == 11);
}

/// Whether a tool says how often it may be used, if it does, by a number that
/// is not zero.
pub open spec fn has_limit(tool: JsonView) -> bool {
    tool.get("max_uses"@) is Some ==> tool.get_u64("max_uses"@) is Some && tool.get_u64(
        "max_uses"@,
    )->0 > 0
}

/// A hosted search that can be asked for, and that says properly how often.
pub open spec fn is_good_search(tool: JsonView) -> bool {
    is_hosted_search(tool) && has_limit(tool)
}

proof fn policy_so_far(tools: Seq<JsonView>, n: nat)
    requires
        n <= tools.len(),
    ensures
        ({
            let r = seqs::folded(tools, web_search_bridge::policy_step(), None, n);
            &&& r == Ok::<Option<Option<u64>>, ErrorView>(None) <==> forall|i: int|
                0 <= i < n ==> !asks_for_search(#[trigger] tools[i])
            &&& (r is Ok && r->Ok_0 is Some) <==> exists|i: int| #[trigger] is_only_search(tools, n, i)
            &&& forall|i: int| #[trigger]
                is_only_search(tools, n, i) ==> r == Ok::<Option<Option<u64>>, ErrorView>(
                    Some(tools[i].get_u64("max_uses"@)),
                )
        }),
    decreases n,
{
    if n > 0 {
        let m = (n - 1) as nat;
        policy_so_far(tools, m);
        let last = tools[n - 1];
        searches_are_recognized(last);
        hosted_searches_are_passed_on(last);
        let before = seqs::folded(tools, web_search_bridge::policy_step(), None, m);
        let r = seqs::folded(tools, web_search_bridge::policy_step(), None, n);
        assert forall|i: int| 0 <= i < m implies #[trigger] is_only_search(tools, n, i) == (
        is_only_search(tools, m, i) && !asks_for_search(last)) by {}
        assert(is_only_search(tools, n, n - 1) <==> is_good_search(last) && asks_for_search(last)
            && forall|i: int| 0 <= i < m ==> !asks_for_search(#[trigger] tools[i]));
        if before is Ok && before->Ok_0 is Some {
            let i = choose|i: int| #[trigger] is_only_search(tools, m, i);
            assert(is_only_search(tools, n, i) == !asks_for_search(last));
            assert(asks_for_search(tools[i]));
        }
        if asks_for_search(last) {
            if exists|i: int| #[trigger] is_only_search(tools, n, i) {
                let i = choose|i: int| #[trigger] is_only_search(tools, n, i);
                assert(i == n - 1);
            }
        } else {
            if exists|i: int| #[trigger] is_only_search(tools, n, i) {
                let i = choose|i: int| #[trigger] is_only_search(tools, n, i);
                assert(i != n - 1);
                assert(is_only_search(tools, m, i));
            }
        }
    }
}

/// Whether a tool is the only search among the first tools, and a good one.
pub open spec fn is_only_search(tools: Seq<JsonView>, n: nat, i: int) -> bool {
    &&& 0 <= i < n
    &&& asks_for_search(tools[i])
    &&& is_good_search(tools[i])
    &&& forall|j: int| 0 <= j < n && j != i ==> !asks_for_search(#[trigger] tools[j])
}

/// A request has a policy exactly where it asks for one search that can be asked
/// for; the policy allows as many searches as the request says. It has none where
/// it asks for no search. All else is refused: a search that cannot be asked for,
/// and more than one.
pub proof fn requests_limit_their_searches(body: JsonView)
    ensures
        ({
            let tools = body.items_at("tools"@);
            let r = web_search_bridge::request_policy(body);
            &&& r == Ok::<Option<Option<u64>>, ErrorView>(None) <==> forall|i: int|
                0 <= i < tools.len() ==> !asks_for_search(#[trigger] tools[i])
            &&& (r is Ok && r->Ok_0 is Some) <==> exists|i: int| #[trigger]
                is_only_search(tools, tools.len(), i)
            &&& forall|i: int| #[trigger]
                is_only_search(tools, tools.len(), i) ==> r == Ok::<
                    Option<Option<u64>>,
                    ErrorView,
                >(Some(tools[i].get_u64("max_uses"@)))
        }),
{
    let tools = body.items_at("tools"@);
    policy_so_far(tools, tools.len());
}

// ---------------------------------------------------------------------------
// What comes back of a search
// ---------------------------------------------------------------------------

/// The seal of a result: that of the search it belongs to, its place among the
/// results and its URL.
pub open spec fn seal_of(id: Seq<char>, place: nat, url: Seq<char>) -> Seq<char> {
    "ccs-ws1:"@ + web_search_bridge::hex(
        web_search_bridge::sha256(
            encode_utf8(id) + seq![0u8] + encode_utf8(text::decimal(place)) + seq![0u8]
                + encode_utf8(url),
        ),
    )
}

/// Whether a result is one that the client was shown.
pub open spec fn is_own_result(result: JsonView, id: Seq<char>, place: nat) -> bool {
    let url = result.get_str("url"@);
    let title = result.get_str("title"@);
    let seal = result.get_str("encrypted_content"@);
    &&& result is Object
    &&& has_only(result, seq!["type"@, "url"@, "title"@, "encrypted_content"@])
    &&& result.says("type"@, "web_search_result"@)
    &&& url is Some && !text::blank(url->0)
    &&& title is Some && !text::blank(title->0)
    &&& seal is Some && !text::blank(seal->0)
    &&& seal->0 == seal_of(id, place, url->0)
}

/// A result that a client sends back is taken exactly where it is one that it
/// was shown: it has a URL, a title and nothing that results do not have, and its
/// seal is that of its search, its place and its URL. It counts for its URL.
pub proof fn only_own_results_are_taken(result: JsonView, id: Seq<char>, place: nat)
    ensures
        ({
            let r = web_search_bridge::checked_result(result, id, place as int);
            &&& r is Ok <==> is_own_result(result, id, place)
            &&& r is Ok ==> result.get_str("url"@) == Some(r->Ok_0)
        }),
{
    known_members(
        result,
        seq!["type"@, "url"@, "title"@, "encrypted_content"@],
        "web_search_result"@,
    );
}

/// The digits of a byte are the two that it is written with, the higher first.
pub proof fn bytes_are_written_in_hex(bytes: Seq<u8>, i: int)
    requires
        0 <= i < bytes.len(),
    ensures
        web_search_bridge::hex(bytes).len() == 2 * bytes.len(),
        "0123456789abcdef"@[bytes[i] as int / 16] == web_search_bridge::hex(bytes)[2 * i],
        "0123456789abcdef"@[bytes[i] as int % 16] == web_search_bridge::hex(bytes)[2 * i + 1],
    decreases bytes.len(),
{
    let front = bytes.drop_last();
    let n = bytes.len() - 1;
    hex_len(front);
    if i < n {
        bytes_are_written_in_hex(front, i);
        assert(web_search_bridge::hex(bytes)[2 * i] == web_search_bridge::hex(front)[2 * i]);
        assert(web_search_bridge::hex(bytes)[2 * i + 1] == web_search_bridge::hex(front)[2 * i + 1]);
    } else {
        digits_are(bytes[i] as int / 16);
        digits_are(bytes[i] as int % 16);
    }
}

proof fn hex_len(bytes: Seq<u8>)
    ensures
        web_search_bridge::hex(bytes).len() == 2 * bytes.len(),
    decreases bytes.len(),
{
    if bytes.len() > 0 {
        hex_len(bytes.drop_last());
    }
}

proof fn digits_are(d: int)
    requires
        0 <= d < 16,
    ensures
        "0123456789abcdef"@[d] == web_search_bridge::hex_digit(d),
{
    reveal_strlit("0123456789abcdef");
}

/// A search that a client sends back is taken with its id, its input and its
/// results, and only so: the result must follow at once and name that search.
pub proof fn searches_come_back_in_pairs(blocks: Seq<JsonView>, index: int)
    requires
        0 <= index < blocks.len(),
        blocks[index].says("type"@, "server_tool_use"@),
    ensures
        ({
            let r = web_search_bridge::folded_history(blocks, index);
            let id = blocks[index].get_str("id"@);
            &&& r is Ok ==> {
                &&& r->Ok_0 is Some
                &&& (r->Ok_0->Some_0).1 == index + 2
                &&& index + 1 < blocks.len()
                &&& blocks[index].says("name"@, "web_search"@)
                &&& id is Some && !text::blank(id->0)
                &&& blocks[index + 1].says("type"@, "web_search_tool_result"@)
                &&& blocks[index + 1].says("tool_use_id"@, id->0)
                &&& (r->Ok_0->Some_0).0.says("type"@, "web_search_call"@)
                &&& (r->Ok_0->Some_0).0.says("status"@, "completed"@)
                &&& (r->Ok_0->Some_0).0.says("id"@, id->0)
            }
        }),
{
    broadcast use vstd::map::group_map_axioms;

    reveal_strlit("type");
    reveal_strlit("id");
    reveal_strlit("status");
    reveal_strlit("action");
    assert("type"@.len() == 4 && "id"@.len() == 2 && "status"@.len() == 6 && "action"@.len() == 6);
    assert("status"@[0] == 's' && "action"@[0] == 'a');
}

// ---------------------------------------------------------------------------
// Which searches come back
// ---------------------------------------------------------------------------

/// Whether all results are ones that the client was shown, each in its place.
pub open spec fn are_own_results(content: Seq<JsonView>, id: Seq<char>) -> bool {
    forall|i: int| 0 <= i < content.len() ==> is_own_result(#[trigger] content[i], id, i as nat)
}

/// Whether a text is there and is more than white space.
pub open spec fn is_filled(v: JsonView, key: Seq<char>) -> bool {
    v.get_str(key) is Some && !text::blank(v.get_str(key)->0)
}

/// Whether the results are the one page that is named.
pub open spec fn is_only_page(content: Seq<JsonView>, url: Seq<char>) -> bool {
    content.len() == 1 && content[0].says("url"@, url)
}

/// Whether what a client sends back of a search is as it was shown.
pub open spec fn is_own_input(input: JsonView, content: Seq<JsonView>) -> bool {
    let kind = input.get_str("action"@);
    let url = input.str_or("url"@, ""@);
    let pattern = input.str_or("pattern"@, ""@);
    ||| {
        &&& kind is None || kind->0 == "search"@
        &&& has_only(input, seq!["query"@])
        &&& is_filled(input, "query"@)
    }
    ||| {
        &&& kind == Some("open_page"@)
        &&& has_only(input, seq!["query"@, "action"@, "url"@])
        &&& is_filled(input, "url"@)
        &&& input.says("query"@, url)
        &&& is_only_page(content, url)
    }
    ||| {
        &&& kind == Some("find_in_page"@)
        &&& has_only(input, seq!["query"@, "action"@, "url"@, "pattern"@])
        &&& is_filled(input, "url"@)
        &&& is_filled(input, "pattern"@)
        &&& input.says("query"@, pattern + " ("@ + url + ")"@)
        &&& is_only_page(content, url)
    }
}

/// Whether a member that tells how to cache is one that may be sent.
pub open spec fn may_be_cached(v: JsonView) -> bool {
    v.get("cache_control"@) is Some ==> v.get("cache_control"@)->0 == JsonView::object().with(
        "type"@,
        JsonView::Str("ephemeral"@),
    )
}

/// Whether two blocks are a search that the client was shown.
pub open spec fn is_own_search(server: JsonView, result: JsonView) -> bool {
    let id = server.get_str("id"@);
    let content = result.items_at("content"@);
    &&& server is Object
    &&& has_only(server, seq!["type"@, "id"@, "name"@, "input"@, "cache_control"@])
    &&& may_be_cached(server)
    &&& id is Some && !text::blank(id->0)
    &&& server.get("input"@) is Some && server.get("input"@)->0 is Object
    &&& result is Object
    &&& result.says("type"@, "web_search_tool_result"@)
    &&& has_only(result, seq!["type"@, "tool_use_id"@, "content"@, "cache_control"@])
    &&& may_be_cached(result)
    &&& result.says("tool_use_id"@, id->0)
    &&& result.get("content"@) is Some && result.get("content"@)->0 is Array
    &&& are_own_results(content, id->0)
    &&& is_own_input(server.get("input"@)->0, content)
}

proof fn results_are_taken(content: Seq<JsonView>, id: Seq<char>, n: nat)
    requires
        n <= content.len(),
    ensures
        ({
            let r = seqs::collected(content, web_search_bridge::result_reader(id), n);
            &&& r is Ok <==> forall|i: int|
                0 <= i < n ==> is_own_result(#[trigger] content[i], id, i as nat)
            &&& r is Ok ==> r->Ok_0.len() == n && forall|i: int|
                0 <= i < n ==> content[i].get_str("url"@) == Some(#[trigger] r->Ok_0[i])
        }),
    decreases n,
{
    if n > 0 {
        results_are_taken(content, id, (n - 1) as nat);
        only_own_results_are_taken(content[n - 1], id, (n - 1) as nat);
    }
}

proof fn actions_differ()
    ensures
        "search"@ != "open_page"@,
        "search"@ != "find_in_page"@,
        "open_page"@ != "find_in_page"@,
        "type"@ != "query"@,
        "type"@ != "url"@,
        "type"@ != "pattern"@,
        "type"@ != "sources"@,
        "query"@ != "sources"@,
        "url"@ != "pattern"@,
        "query"@ != "url"@,
        "query"@ != "pattern"@,
{
    reveal_strlit("search");
    reveal_strlit("open_page");
    reveal_strlit("find_in_page");
    reveal_strlit("type");
    reveal_strlit("query");
    reveal_strlit("url");
    reveal_strlit("pattern");
    reveal_strlit("sources");
    assert("search"@.len() == 6 && "open_page"@.len() == 9 && "find_in_page"@.len() == 12);
    assert("type"@.len() == 4 && "query"@.len() == 5 && "url"@.len() == 3);
    assert("pattern"@.len() == 7 && "sources"@.len() == 7);
    assert("pattern"@[0] == 'p' && "sources"@[0] == 's');
}

/// What a search did is taken from its input and its results: what it searched
/// for and the pages it came upon, the page it opened, or what it looked for in
/// which page.
pub open spec fn is_action_of(action: JsonView, input: JsonView, content: Seq<JsonView>) -> bool {
    let kind = input.str_or("action"@, "search"@);
    &&& action.says("type"@, kind)
    &&& kind == "search"@ ==> {
        &&& action.get("query"@) == input.get("query"@)
        &&& action.items_at("sources"@).len() == content.len()
        &&& forall|i: int|
            0 <= i < content.len() ==> {
                &&& (#[trigger] action.items_at("sources"@)[i]).says("type"@, "url"@)
                &&& action.items_at("sources"@)[i].get("url"@) == content[i].get("url"@)
            }
    }
    &&& kind == "open_page"@ ==> action.get("url"@) == input.get("url"@)
    &&& kind == "find_in_page"@ ==> action.get("url"@) == input.get("url"@) && action.get(
        "pattern"@,
    ) == input.get("pattern"@)
}

proof fn actions_come_back(id: Seq<char>, input: JsonView, content: Seq<JsonView>)
    requires
        input is Object,
    ensures
        ({
            let r = web_search_bridge::folded_action(id, input, content);
            &&& r is Ok <==> are_own_results(content, id) && is_own_input(input, content)
            &&& r is Ok ==> is_action_of(r->Ok_0, input, content)
        }),
{
    broadcast use vstd::map::group_map_axioms;

    actions_differ();
    results_are_taken(content, id, content.len());
    known_members(input, seq!["query"@], "WebSearch search input"@);
    known_members(input, seq!["query"@, "action"@, "url"@], "WebSearch open_page input"@);
    known_members(
        input,
        seq!["query"@, "action"@, "url"@, "pattern"@],
        "WebSearch find_in_page input"@,
    );
    let taken = web_search_bridge::checked_results(content, id);
    if taken is Ok {
        let urls = taken->Ok_0;
        let url = input.str_or("url"@, ""@);
        assert(urls == seq![url] <==> is_only_page(content, url)) by {
            if is_only_page(content, url) {
                assert(content[0].get_str("url"@) == Some(urls[0]));
                assert(urls =~= seq![url]);
            }
            if urls == seq![url] {
                assert(urls[0] == url);
                assert(content[0].get_str("url"@) == Some(urls[0]));
            }
        }
        let r = web_search_bridge::folded_action(id, input, content);
        if r is Ok && input.str_or("action"@, "search"@) == "search"@ {
            let sources = urls.map_values(web_search_bridge::url_source());
            assert(r->Ok_0.items_at("sources"@) == sources);
            assert forall|i: int| 0 <= i < content.len() implies {
                &&& (#[trigger] sources[i]).says("type"@, "url"@)
                &&& sources[i].get("url"@) == content[i].get("url"@)
            } by {
                assert(content[i].get_str("url"@) == Some(urls[i]));
                assert(sources[i] == web_search_bridge::url_source()(urls[i]));
            }
        }
    }
}

/// A search that a client sends back is taken exactly where it is one that it was
/// shown, and it is then the search with its id and with what it did.
pub proof fn only_own_searches_are_taken(server: JsonView, result: JsonView)
    ensures
        ({
            let r = web_search_bridge::folded_pair(server, Some(result));
            &&& r is Ok <==> is_own_search(server, result)
            &&& r is Ok ==> {
                &&& r->Ok_0.says("type"@, "web_search_call"@)
                &&& r->Ok_0.get("id"@) == server.get("id"@)
                &&& r->Ok_0.says("status"@, "completed"@)
                &&& r->Ok_0.get("action"@) is Some
                &&& is_action_of(
                    r->Ok_0.get("action"@)->0,
                    server.get("input"@)->0,
                    result.items_at("content"@),
                )
            }
        }),
        web_search_bridge::folded_pair(server, None) is Err,
{
    broadcast use vstd::map::group_map_axioms;

    known_members(
        server,
        seq!["type"@, "id"@, "name"@, "input"@, "cache_control"@],
        "server_tool_use"@,
    );
    known_members(
        result,
        seq!["type"@, "tool_use_id"@, "content"@, "cache_control"@],
        "web_search_tool_result"@,
    );
    reveal_strlit("type");
    reveal_strlit("id");
    reveal_strlit("status");
    reveal_strlit("action");
    assert("type"@.len() == 4 && "id"@.len() == 2 && "status"@.len() == 6 && "action"@.len() == 6);
    assert("status"@[0] == 's' && "action"@[0] == 'a');
    if server.get("input"@) is Some && server.get("input"@)->0 is Object && server.get_str("id"@)
        is Some {
        actions_come_back(
            server.get_str("id"@)->0,
            server.get("input"@)->0,
            result.items_at("content"@),
        );
    }
}

/// Whether the searches among the blocks of a message, from one on, are ones that
/// the client was shown, and no result stands without its search.
pub open spec fn searches_are_own(blocks: Seq<JsonView>, i: int) -> bool
    decreases blocks.len() - i,
{
    if i < 0 || i >= blocks.len() {
        true
    } else if blocks[i].says("type"@, "server_tool_use"@) && blocks[i].says("name"@, "web_search"@) {
        i + 1 < blocks.len() && is_own_search(blocks[i], blocks[i + 1]) && searches_are_own(
            blocks,
            i + 2,
        )
    } else {
        !blocks[i].says("type"@, "web_search_tool_result"@) && searches_are_own(blocks, i + 1)
    }
}

proof fn block_kinds_differ()
    ensures
        "server_tool_use"@ != "web_search_tool_result"@,
        "server_tool_use"@ != ""@,
        "web_search_tool_result"@ != ""@,
        "server_tool_use"@ != "text"@,
        "server_tool_use"@ != "image"@,
        "server_tool_use"@ != "document"@,
        "server_tool_use"@ != "tool_use"@,
        "server_tool_use"@ != "tool_result"@,
        "web_search_tool_result"@ != "text"@,
        "web_search_tool_result"@ != "image"@,
        "web_search_tool_result"@ != "document"@,
        "web_search_tool_result"@ != "tool_use"@,
        "web_search_tool_result"@ != "tool_result"@,
{
    reveal_strlit("server_tool_use");
    reveal_strlit("web_search_tool_result");
    reveal_strlit("");
    reveal_strlit("text");
    reveal_strlit("image");
    reveal_strlit("document");
    reveal_strlit("tool_use");
    reveal_strlit("tool_result");
    assert("server_tool_use"@.len() == 15 && "web_search_tool_result"@.len() == 22);
    assert(""@.len() == 0 && "text"@.len() == 4 && "image"@.len() == 5 && "document"@.len() == 8);
    assert("tool_use"@.len() == 8 && "tool_result"@.len() == 11);
}

proof fn blocks_are_accepted(
    role: Seq<char>,
    blocks: Seq<JsonView>,
    state: responses_input::InputState,
)
    requires
        0 <= state.next <= blocks.len(),
    ensures
        responses_input::after_blocks(role, blocks, true, state) is Ok <==> searches_are_own(
            blocks,
            state.next,
        ),
    decreases blocks.len() - state.next,
{
    if state.next < blocks.len() {
        block_kinds_differ();
        let i = state.next;
        let block = blocks[i];
        if i + 1 < blocks.len() {
            only_own_searches_are_taken(block, blocks[i + 1]);
        } else {
            only_own_searches_are_taken(block, JsonView::Null);
        }
        let after = responses_input::after_block(role, blocks, true, state);
        if block.says("type"@, "server_tool_use"@) && block.says("name"@, "web_search"@) {
            if after is Ok {
                assert(after->Ok_0.next == i + 2);
                blocks_are_accepted(role, blocks, after->Ok_0);
            }
        } else if after is Ok {
            assert(after->Ok_0.next == i + 1);
            blocks_are_accepted(role, blocks, after->Ok_0);
        }
    }
}

proof fn messages_are_accepted(messages: Seq<JsonView>, n: nat)
    requires
        n <= messages.len(),
    ensures
        seqs::folded(messages, responses_input::after_message(true), Seq::empty(), n) is Ok
            <==> forall|i: int|
            0 <= i < n ==> searches_are_own((#[trigger] messages[i]).items_at("content"@), 0),
    decreases n,
{
    if n > 0 {
        messages_are_accepted(messages, (n - 1) as nat);
        let message = messages[n - 1];
        let before = seqs::folded(
            messages,
            responses_input::after_message(true),
            Seq::empty(),
            (n - 1) as nat,
        );
        if before is Ok {
            if let Some(JsonView::Array(blocks)) = message.get("content"@) {
                blocks_are_accepted(
                    message.str_or("role"@, "user"@),
                    blocks,
                    responses_input::InputState {
                        items: before->Ok_0,
                        parts: Seq::empty(),
                        next: 0,
                    },
                );
            }
        }
    }
}

/// A conversation with searches is taken exactly where each search in it is one
/// that the client was shown, with its result right after it, and no result stands
/// alone.
pub proof fn conversations_with_own_searches_are_taken(messages: Seq<JsonView>)
    ensures
        responses_input::messages_input(messages, true) is Ok <==> forall|i: int|
            0 <= i < messages.len() ==> searches_are_own(
                (#[trigger] messages[i]).items_at("content"@),
                0,
            ),
{
    messages_are_accepted(messages, messages.len());
}

// ---------------------------------------------------------------------------
// What is shown of a search
// ---------------------------------------------------------------------------

/// The pages that a client is shown of a search are sealed, each for the search,
/// its place and its URL, so that they can be taken back.
pub proof fn shown_pages_are_sealed(
    id: Seq<char>,
    sources: Seq<(Seq<char>, Option<Seq<char>>)>,
    titles: Map<Seq<char>, Seq<char>>,
    i: int,
)
    requires
        0 <= i < sources.len(),
    ensures
        ({
            let page = web_search_bridge::shown_results(id, sources, titles)[i];
            &&& web_search_bridge::shown_results(id, sources, titles).len() == sources.len()
            &&& page.says("type"@, "web_search_result"@)
            &&& page.says("url"@, sources[i].0)
            &&& page.says("encrypted_content"@, seal_of(id, i as nat, sources[i].0))
        }),
{
    broadcast use vstd::map::group_map_axioms;

    reveal_strlit("type");
    reveal_strlit("url");
    reveal_strlit("title");
    reveal_strlit("encrypted_content");
    assert("type"@.len() == 4 && "url"@.len() == 3 && "title"@.len() == 5);
    assert("encrypted_content"@.len() == 17);
}

} // verus!
