//! What a text cites is what its readers are told.
use crate::citations;
use crate::json::JsonView;
use crate::seqs;
use crate::text;
use crate::transform_responses;
use crate::web_search_bridge;
use vstd::prelude::*;

verus! {

/// What a client or a provider is told of a citation.
#[verifier::ext_equal]
pub struct Cited {
    pub url: Seq<char>,
    pub title: Seq<char>,
    pub words: Seq<char>,
    pub index: Seq<char>,
}

/// What a client reads of a citation.
pub open spec fn citation_read() -> spec_fn(JsonView) -> Seq<Cited> {
    |citation: JsonView|
        if citation.says("type"@, "web_search_result_location"@) {
            seq![
                Cited {
                    url: citation.str_or("url"@, ""@),
                    title: citation.str_or("title"@, ""@),
                    words: citation.str_or("cited_text"@, ""@),
                    index: citation.str_or("encrypted_index"@, ""@),
                },
            ]
        } else {
            Seq::empty()
        }
}

/// The title that is told of something: its own, or its URL where that is blank
/// or missing.
pub open spec fn told_title(v: JsonView, url: Seq<char>) -> Seq<char> {
    if v.get_str("title"@) is Some && !text::blank(v.get_str("title"@)->0) {
        v.get_str("title"@)->0
    } else {
        url
    }
}

/// What an annotation of a text says.
pub open spec fn annotation_says(t: Seq<char>) -> spec_fn(JsonView) -> Seq<Cited> {
    |annotation: JsonView|
        if annotation.says("type"@, "url_citation"@) {
            let url = annotation.str_or("url"@, ""@);
            let start = annotation.get_u64("start_index"@)->0;
            let end = annotation.get_u64("end_index"@)->0;
            seq![
                Cited {
                    url,
                    title: told_title(annotation, url),
                    words: t.subrange(start as int, end as int),
                    index: "ccs-cit1:"@ + text::decimal(start as nat) + ":"@ + text::decimal(
                        end as nat,
                    ),
                },
            ]
        } else {
            Seq::empty()
        }
}

/// Whether an annotation can be told: it is of another kind, or it has a URL and
/// spans a part of the text.
pub open spec fn can_be_told(annotation: JsonView, t: Seq<char>) -> bool {
    annotation.says("type"@, "url_citation"@) ==> {
        &&& annotation.get_str("url"@) is Some
        &&& !text::blank(annotation.get_str("url"@)->0)
        &&& annotation.get_u64("start_index"@) is Some
        &&& annotation.get_u64("end_index"@) is Some
        &&& annotation.get_u64("start_index"@)->0 <= annotation.get_u64("end_index"@)->0
        &&& annotation.get_u64("end_index"@)->0 <= t.len()
        &&& annotation.get_u64("end_index"@)->0 <= usize::MAX
    }
}

proof fn names_differ()
    ensures
        "type"@ != "url"@,
        "type"@ != "title"@,
        "type"@ != "cited_text"@,
        "type"@ != "encrypted_index"@,
        "url"@ != "title"@,
        "url"@ != "cited_text"@,
        "url"@ != "encrypted_index"@,
        "title"@ != "cited_text"@,
        "title"@ != "encrypted_index"@,
        "cited_text"@ != "encrypted_index"@,
        "type"@ != "start_index"@,
        "type"@ != "end_index"@,
        "url"@ != "start_index"@,
        "url"@ != "end_index"@,
        "title"@ != "start_index"@,
        "title"@ != "end_index"@,
        "start_index"@ != "end_index"@,
{
    reveal_strlit("type");
    reveal_strlit("url");
    reveal_strlit("title");
    reveal_strlit("cited_text");
    reveal_strlit("encrypted_index");
    reveal_strlit("start_index");
    reveal_strlit("end_index");
    assert("type"@.len() == 4 && "url"@.len() == 3 && "title"@.len() == 5);
    assert("cited_text"@.len() == 10 && "encrypted_index"@.len() == 15);
    assert("start_index"@.len() == 11 && "end_index"@.len() == 9);
}

/// An annotation is shown exactly where it can be told, and is read as what it
/// says.
pub proof fn annotations_are_shown(annotation: JsonView, t: Seq<char>)
    ensures
        ({
            let r = web_search_bridge::shown_citation(annotation, t);
            &&& r is Ok <==> can_be_told(annotation, t)
            &&& r is Ok ==> annotation_says(t)(annotation) == (match r->Ok_0 {
                Some(citation) => citation_read()(citation),
                None => Seq::empty(),
            })
        }),
{
    broadcast use vstd::map::group_map_axioms;

    names_differ();
    let r = web_search_bridge::shown_citation(annotation, t);
    if r is Ok {
        if let Some(citation) = r->Ok_0 {
            assert(citation_read()(citation) =~= annotation_says(t)(annotation));
        }
    }
}

/// The citations of the first annotations of a text.
proof fn first_annotations_are_shown(annotations: Seq<JsonView>, t: Seq<char>, n: nat)
    requires
        n <= annotations.len(),
    ensures
        ({
            let r = seqs::folded(
                annotations,
                transform_responses::with_citation(t),
                Seq::empty(),
                n,
            );
            &&& r is Ok <==> forall|i: int| 0 <= i < n ==> can_be_told(#[trigger] annotations[i], t)
            &&& r is Ok ==> seqs::gathered(r->Ok_0, citation_read(), r->Ok_0.len())
                == seqs::gathered(annotations, annotation_says(t), n)
        }),
    decreases n,
{
    if n > 0 {
        first_annotations_are_shown(annotations, t, (n - 1) as nat);
        let annotation = annotations[n - 1];
        annotations_are_shown(annotation, t);
        let before = seqs::folded(
            annotations,
            transform_responses::with_citation(t),
            Seq::empty(),
            (n - 1) as nat,
        );
        if before is Ok && can_be_told(annotation, t) {
            match web_search_bridge::shown_citation(annotation, t)->Ok_0 {
                Some(citation) => {
                    seqs::gathered_push(before->Ok_0, citation, citation_read());
                },
                None => {},
            }
        }
    }
}

/// A client is told each thing that a text cites, in order, with the words of
/// the text that it stands for. That fails exactly where a citation has no URL
/// or spans no part of the text.
pub proof fn clients_are_told_what_is_cited(part: JsonView, t: Seq<char>)
    ensures
        ({
            let annotations = part.items_at("annotations"@);
            let r = transform_responses::shown_citations(part, t);
            &&& r is Ok <==> forall|i: int|
                0 <= i < annotations.len() ==> can_be_told(#[trigger] annotations[i], t)
            &&& r is Ok ==> seqs::gathered(r->Ok_0, citation_read(), r->Ok_0.len())
                == seqs::gathered(annotations, annotation_says(t), annotations.len())
        }),
{
    let annotations = part.items_at("annotations"@);
    first_annotations_are_shown(annotations, t, annotations.len());
}

// ---------------------------------------------------------------------------
// What the provider is told
// ---------------------------------------------------------------------------

/// Of the citations of a block those of search results are kept, in order.
pub proof fn citations_of_results_are_kept(citations: Seq<JsonView>, citation: JsonView)
    ensures
        ({
            let keep = citations::keep_result_citation();
            let more = citations.push(citation);
            seqs::gathered(more, keep, more.len()) == (if citation.says(
                "type"@,
                "web_search_result_location"@,
            ) {
                seqs::gathered(citations, keep, citations.len()).push(citation)
            } else {
                seqs::gathered(citations, keep, citations.len())
            })
        }),
{
    seqs::gathered_push(citations, citation, citations::keep_result_citation());
}

/// The places that are taken after citations.
pub open spec fn places_taken(cited: Seq<JsonView>, t: Seq<char>, found: bool) -> Map<
    Seq<char>,
    nat,
> {
    seqs::walked(cited, citations::annotate(t, found), (Seq::empty(), Map::empty()), cited.len()).1
}

/// Each citation with a URL gives the provider one annotation, after those
/// before it: a URL citation of that URL, with its title, at its place. One
/// without a URL gives none.
pub proof fn providers_are_told_what_is_cited(
    cited: Seq<JsonView>,
    citation: JsonView,
    t: Seq<char>,
    found: bool,
)
    ensures
        ({
            let before = citations::annotations(cited, t, found);
            let after = citations::annotations(cited.push(citation), t, found);
            let url = citation.get_str("url"@);
            if url is Some && !text::blank(url->0) {
                let place = citations::placed(
                    t,
                    found,
                    places_taken(cited, t, found),
                    citation,
                    url->0,
                );
                let annotation = after.last();
                &&& after == before.push(annotation)
                &&& annotation.says("type"@, "url_citation"@)
                &&& annotation.says("url"@, url->0)
                &&& annotation.says("title"@, told_title(citation, url->0))
                &&& annotation.get_u64("start_index"@) == Some((place.0).0)
                &&& annotation.get_u64("end_index"@) == Some((place.0).1)
                &&& places_taken(cited.push(citation), t, found) == place.1
            } else {
                &&& after == before
                &&& places_taken(cited.push(citation), t, found) == places_taken(cited, t, found)
            }
        }),
{
    broadcast use vstd::map::group_map_axioms;

    names_differ();
    let f = citations::annotate(t, found);
    let start = (Seq::<JsonView>::empty(), Map::<Seq<char>, nat>::empty());
    let more = cited.push(citation);
    seqs::walked_first(cited, more, f, start, cited.len());
    assert(more[cited.len() as int] == citation);
}

/// A citation that was shown before comes back to the place that it was shown
/// for.
pub proof fn carried_places_are_kept(
    t: Seq<char>,
    found: bool,
    used: Map<Seq<char>, nat>,
    citation: JsonView,
    url: Seq<char>,
    start: u64,
    end: u64,
)
    requires
        start <= end,
        citation.says(
            "encrypted_index"@,
            "ccs-cit1:"@ + text::decimal(start as nat) + ":"@ + text::decimal(end as nat),
        ),
    ensures
        citations::placed(t, found, used, citation, url) == ((start, end), used),
{
    citations::citation_index_reads_back(start, end);
}

/// Only what begins as a place is one, and only where it does not end before it
/// begins.
pub proof fn other_marks_carry_no_place(citation: JsonView, mark: Seq<char>)
    ensures
        citation.get_str("encrypted_index"@) is None ==> citations::carried_place(citation) is None,
        citation.says("encrypted_index"@, mark) && citations::carried_place(citation) is Some ==> {
            let place = citations::carried_place(citation)->Some_0;
            &&& mark.len() >= 9
            &&& mark.take(9) == "ccs-cit1:"@
            &&& place.0 <= place.1
        },
{
    reveal_strlit("ccs-cit1:");
    assert("ccs-cit1:"@.len() == 9);
}

/// Whether words stand in a text at a place.
pub open spec fn are_at(t: Seq<char>, words: Seq<char>, start: int) -> bool {
    0 <= start && start + words.len() <= t.len() && t.subrange(start, start + words.len()) == words
}

/// A citation that carries no place stands for words of the text: for those that
/// it cites, else for its URL, each time at the next place where they stand. It
/// stands for nothing only where neither is left in the text.
pub proof fn places_are_those_of_the_words(
    t: Seq<char>,
    used: Map<Seq<char>, nat>,
    citation: JsonView,
    url: Seq<char>,
)
    requires
        citations::carried_place(citation) is None,
        t.len() <= u64::MAX,
        url.len() > 0,
    ensures
        ({
            let r = citations::placed(t, true, used, citation, url);
            let start = (r.0).0;
            let end = (r.0).1;
            let words = citation.get_str("cited_text"@);
            let fresh = words is Some && words->0.len() > 0 && !used.contains_key(words->0);
            &&& (start, end) == (0u64, 0u64) || (are_at(t, url, start as int) && end == start
                + url.len()) || (words is Some && are_at(t, words->0, start as int) && end == start
                + words->0.len())
            &&& forall|i: int|
                fresh && #[trigger] are_at(t, words->0, i) ==> are_at(t, words->0, start as int)
                    && start <= i && end == start + words->0.len() && r.1.contains_key(words->0)
            &&& forall|i: int|
                (words is None || words->0.len() == 0) && !used.contains_key(url) && #[trigger]
                are_at(t, url, i) ==> are_at(t, url, start as int) && start <= i && end == start
                    + url.len()
        }),
{
    let words = citation.get_str("cited_text"@);
    if words is Some && words->0.len() > 0 {
        next_place_is(t, used, words->0);
    }
    next_place_is(t, used, url);
}

/// The next place of words: one where they stand, and the first such if none was
/// taken before.
proof fn next_place_is(t: Seq<char>, used: Map<Seq<char>, nat>, words: Seq<char>)
    requires
        words.len() > 0,
        t.len() <= u64::MAX,
    ensures
        ({
            let place = citations::next_place(t, true, used, Some(words));
            &&& place is Some ==> are_at(t, words, (place->Some_0).0 as int) && (place->Some_0).1
                == (place->Some_0).0 + words.len()
            &&& forall|i: int| #[trigger]
                are_at(t, words, i) && !used.contains_key(words) ==> place is Some && (
                place->Some_0).0 <= i
        }),
{
    let all = citations::occurrences(t, words);
    citations::occurrences_are(t, words, t.len());
    let k = citations::times_used(used, words);
    if k < all.len() {
        assert(all.contains(all[k as int]));
        assert(citations::stands_at(t, words, all[k as int]));
    }
    assert forall|i: int| #[trigger] are_at(t, words, i) && !used.contains_key(words) implies {
        let place = citations::next_place(t, true, used, Some(words));
        place is Some && (place->Some_0).0 <= i
    } by {
        assert(citations::stands_at(t, words, i));
        assert(all.contains(i));
        let j = choose|j: int| 0 <= j < all.len() && all[j] == i;
        if j > 0 {
            assert(all[0] < all[j]);
        }
    }
}

/// Words that are cited again stand for a later place.
pub proof fn later_citations_stand_later(t: Seq<char>, used: Map<Seq<char>, nat>, words: Seq<char>)
    requires
        words.len() > 0,
        t.len() <= u64::MAX,
    ensures
        ({
            let first = citations::next_place(t, true, used, Some(words));
            let second = citations::next_place(
                t,
                true,
                citations::with_use(used, words),
                Some(words),
            );
            &&& second is Some ==> first is Some && (first->Some_0).0 < (second->Some_0).0
            &&& forall|i: int|
                first is Some && (first->Some_0).0 < i && #[trigger] are_at(t, words, i)
                    ==> second is Some && (second->Some_0).0 <= i
        }),
{
    let all = citations::occurrences(t, words);
    citations::occurrences_are(t, words, t.len());
    let k = citations::times_used(used, words) as int;
    assert(citations::times_used(citations::with_use(used, words), words) == k + 1);
    if k < all.len() {
        assert(all.contains(all[k]));
    }
    if k + 1 < all.len() {
        assert(all.contains(all[k + 1]));
        assert(all[k] < all[k + 1]);
    }
    let first = citations::next_place(t, true, used, Some(words));
    let second = citations::next_place(t, true, citations::with_use(used, words), Some(words));
    assert forall|i: int|
        first is Some && (first->Some_0).0 < i && #[trigger] are_at(t, words, i) implies second
        is Some && (second->Some_0).0 <= i by {
        assert(citations::stands_at(t, words, i));
        assert(all.contains(i));
        let j = choose|j: int| 0 <= j < all.len() && all[j] == i;
        if j < k {
            assert(all[j] < all[k]);
        }
        assert(j > k);
        if j > k + 1 {
            assert(all[k + 1] < all[j]);
        }
    }
}

// ---------------------------------------------------------------------------
// Titles
// ---------------------------------------------------------------------------

/// The annotations of a part of an item.
pub open spec fn part_annotations() -> spec_fn(JsonView) -> Seq<JsonView> {
    |part: JsonView| part.items_at("annotations"@)
}

/// The annotations of an item.
pub open spec fn item_annotations() -> spec_fn(JsonView) -> Seq<JsonView> {
    |item: JsonView|
        seqs::gathered(
            item.items_at("content"@),
            part_annotations(),
            item.items_at("content"@).len(),
        )
}

/// Whether an annotation gives a URL a title.
pub open spec fn gives_title(annotation: JsonView, url: Seq<char>) -> bool {
    &&& annotation.says("type"@, "url_citation"@)
    &&& annotation.says("url"@, url)
    &&& annotation.get_str("title"@) is Some
    &&& !text::blank(annotation.get_str("title"@)->0)
}

proof fn parts_walk(titles: Map<Seq<char>, Seq<char>>, parts: Seq<JsonView>, n: nat)
    requires
        n <= parts.len(),
    ensures
        ({
            let all = seqs::gathered(parts, part_annotations(), n);
            seqs::walked(parts, web_search_bridge::with_part(), titles, n) == seqs::walked(
                all,
                web_search_bridge::with_annotation(),
                titles,
                all.len(),
            )
        }),
    decreases n,
{
    if n > 0 {
        parts_walk(titles, parts, (n - 1) as nat);
        seqs::walked_append(
            seqs::gathered(parts, part_annotations(), (n - 1) as nat),
            part_annotations()(parts[n - 1]),
            web_search_bridge::with_annotation(),
            titles,
        );
    }
}

proof fn items_walk(titles: Map<Seq<char>, Seq<char>>, items: Seq<JsonView>, n: nat)
    requires
        n <= items.len(),
    ensures
        ({
            let all = seqs::gathered(items, item_annotations(), n);
            seqs::walked(items, web_search_bridge::with_item(), titles, n) == seqs::walked(
                all,
                web_search_bridge::with_annotation(),
                titles,
                all.len(),
            )
        }),
    decreases n,
{
    if n > 0 {
        items_walk(titles, items, (n - 1) as nat);
        let so_far = seqs::walked(items, web_search_bridge::with_item(), titles, (n - 1) as nat);
        let parts = items[n - 1].items_at("content"@);
        parts_walk(so_far, parts, parts.len());
        seqs::walked_append(
            seqs::gathered(items, item_annotations(), (n - 1) as nat),
            item_annotations()(items[n - 1]),
            web_search_bridge::with_annotation(),
            titles,
        );
    }
}

/// The title of a URL after the first annotations.
proof fn titles_walk(all: Seq<JsonView>, url: Seq<char>, n: nat)
    requires
        n <= all.len(),
    ensures
        ({
            let titles = seqs::walked(
                all,
                web_search_bridge::with_annotation(),
                Map::<Seq<char>, Seq<char>>::empty(),
                n,
            );
            match web_search_bridge::title_of(titles, url) {
                None => forall|i: int| 0 <= i < n ==> !gives_title(#[trigger] all[i], url),
                Some(title) => exists|i: int|
                    {
                        &&& 0 <= i < n
                        &&& gives_title(#[trigger] all[i], url)
                        &&& all[i].says("title"@, title)
                        &&& forall|j: int| 0 <= j < i ==> !gives_title(#[trigger] all[j], url)
                    },
            }
        }),
    decreases n,
{
    broadcast use vstd::map::group_map_axioms;

    if n > 0 {
        titles_walk(all, url, (n - 1) as nat);
        let last = all[n - 1];
        assert(gives_title(last, url) || !gives_title(last, url));
    }
}

/// The title of a URL is the first that the output gives it in a citation,
/// wherever in the output that stands; blank titles count for nothing.
pub proof fn first_titles_count(output: Seq<JsonView>, url: Seq<char>)
    ensures
        ({
            let all = seqs::gathered(output, item_annotations(), output.len());
            match web_search_bridge::title_of(web_search_bridge::cited_titles(output), url) {
                None => forall|i: int| 0 <= i < all.len() ==> !gives_title(#[trigger] all[i], url),
                Some(title) => exists|i: int|
                    {
                        &&& 0 <= i < all.len()
                        &&& gives_title(#[trigger] all[i], url)
                        &&& all[i].says("title"@, title)
                        &&& forall|j: int| 0 <= j < i ==> !gives_title(#[trigger] all[j], url)
                    },
            }
        }),
{
    let all = seqs::gathered(output, item_annotations(), output.len());
    items_walk(Map::empty(), output, output.len());
    titles_walk(all, url, all.len());
}

} // verus!
