//! What holds of citations as a whole: what the client is shown comes back.
use crate::citations;
use crate::json::JsonView;
use crate::seqs;
use crate::transform_responses;
use crate::web_search_bridge;
use vstd::prelude::*;

verus! {

/// The lengths of the names of the members of a citation.
proof fn name_lengths()
    ensures
        "type"@.len() == 4,
        "url"@.len() == 3,
        "title"@.len() == 5,
        "cited_text"@.len() == 10,
        "encrypted_index"@.len() == 15,
{
    reveal_strlit("type");
    reveal_strlit("url");
    reveal_strlit("title");
    reveal_strlit("cited_text");
    reveal_strlit("encrypted_index");
}

/// What an annotation says, in the form that this library gives it: the URL and
/// its title, which may be the URL, at its place. Other annotations say nothing.
pub open spec fn kept_annotation() -> spec_fn(JsonView) -> Seq<JsonView> {
    |annotation: JsonView|
        if annotation.says("type"@, "url_citation"@) {
            let url = annotation.str_or("url"@, ""@);
            let title = match web_search_bridge::shown_title(annotation) {
                Some(t) => t,
                None => url,
            };
            seq![
                citations::url_citation(
                    (
                        annotation.get_u64("start_index"@)->0,
                        annotation.get_u64("end_index"@)->0,
                    ),
                    title,
                    url,
                ),
            ]
        } else {
            Seq::empty()
        }
}

/// A citation that the client is shown quotes the text at its place, and carries
/// that place.
pub proof fn shown_citations_carry_their_place(
    annotation: JsonView,
    t: Seq<char>,
    citation: JsonView,
)
    requires
        web_search_bridge::shown_citation(annotation, t) == Ok::<
            Option<JsonView>,
            crate::error::ErrorView,
        >(Some(citation)),
    ensures
        ({
            let start = annotation.get_u64("start_index"@)->0;
            let end = annotation.get_u64("end_index"@)->0;
            &&& start <= end <= t.len()
            &&& citations::carried_place(citation) == Some((start, end))
            &&& citation.get_str("cited_text"@) == Some(t.subrange(start as int, end as int))
            &&& citation.get_str("url"@) == annotation.get_str("url"@)
            &&& citations::is_result_citation(citation)
        }),
{
    broadcast use vstd::map::group_map_axioms;

    name_lengths();
    let start = annotation.get_u64("start_index"@)->0;
    let end = annotation.get_u64("end_index"@)->0;
    citations::citation_index_reads_back(start, end);
}

/// A citation that the client is shown and sends back is read as the annotation
/// that it was made of, whatever the text is by then.
pub proof fn a_citation_comes_back(
    annotation: JsonView,
    t: Seq<char>,
    citation: JsonView,
    later: Seq<char>,
    found: bool,
    state: (Seq<JsonView>, Map<Seq<char>, nat>),
)
    requires
        web_search_bridge::shown_citation(annotation, t) == Ok::<
            Option<JsonView>,
            crate::error::ErrorView,
        >(Some(citation)),
    ensures
        citations::annotate(later, found)(state, citation) == (
            state.0 + kept_annotation()(annotation),
            state.1,
        ),
{
    broadcast use vstd::map::group_map_axioms;

    name_lengths();
    shown_citations_carry_their_place(annotation, t, citation);
    let url = annotation.str_or("url"@, ""@);
    let title = match web_search_bridge::shown_title(annotation) {
        Some(title) => title,
        None => url,
    };
    assert(citation.get_str("title"@) == Some(title));
    assert(web_search_bridge::shown_title(citation) == Some(title));
    let start = annotation.get_u64("start_index"@)->0;
    let end = annotation.get_u64("end_index"@)->0;
    assert(state.0.push(citations::url_citation((start, end), title, url)) =~= state.0
        + kept_annotation()(annotation));
}

proof fn walked_prefix<A, S>(s: Seq<A>, t: Seq<A>, f: spec_fn(S, A) -> S, start: S, n: nat)
    requires
        n <= s.len(),
        n <= t.len(),
        forall|k: int| 0 <= k < n ==> s[k] == t[k],
    ensures
        seqs::walked(s, f, start, n) == seqs::walked(t, f, start, n),
    decreases n,
{
    if n > 0 {
        walked_prefix(s, t, f, start, (n - 1) as nat);
        assert(s[n - 1] == t[n - 1]);
    }
}

/// The citations of the first `n` annotations come back.
proof fn first_citations_come_back(
    annotations: Seq<JsonView>,
    t: Seq<char>,
    later: Seq<char>,
    found: bool,
    n: nat,
)
    requires
        n <= annotations.len(),
        seqs::folded(
            annotations,
            transform_responses::with_citation(t),
            Seq::empty(),
            n,
        ) is Ok,
    ensures
        ({
            let shown = seqs::folded(
                annotations,
                transform_responses::with_citation(t),
                Seq::empty(),
                n,
            )->Ok_0;
            &&& forall|i: int| 0 <= i < shown.len() ==> citations::is_result_citation(#[trigger] shown[i])
            &&& seqs::walked(
                shown,
                citations::annotate(later, found),
                (Seq::empty(), Map::empty()),
                shown.len(),
            ) == (
                seqs::gathered(annotations, kept_annotation(), n),
                Map::<Seq<char>, nat>::empty(),
            )
        }),
    decreases n,
{
    let f = transform_responses::with_citation(t);
    let g = citations::annotate(later, found);
    let start = (Seq::<JsonView>::empty(), Map::<Seq<char>, nat>::empty());
    if n > 0 {
        let m = (n - 1) as nat;
        first_citations_come_back(annotations, t, later, found, m);
        let before = seqs::folded(annotations, f, Seq::empty(), m)->Ok_0;
        let annotation = annotations[n - 1];
        let kept = seqs::gathered(annotations, kept_annotation(), m);
        match web_search_bridge::shown_citation(annotation, t) {
            Err(_) => {},
            Ok(None) => {
                assert(!annotation.says("type"@, "url_citation"@));
                assert(kept + Seq::<JsonView>::empty() =~= kept);
            },
            Ok(Some(c)) => {
                let shown = before.push(c);
                shown_citations_carry_their_place(annotation, t, c);
                walked_prefix(shown, before, g, start, before.len());
                a_citation_comes_back(annotation, t, c, later, found, (kept, Map::empty()));
            },
        }
    }
}

proof fn all_kept(shown: Seq<JsonView>, n: nat)
    requires
        n <= shown.len(),
        forall|i: int| 0 <= i < shown.len() ==> citations::is_result_citation(#[trigger] shown[i]),
    ensures
        seqs::gathered(shown, citations::keep_result_citation(), n) == shown.take(n as int),
    decreases n,
{
    if n > 0 {
        all_kept(shown, (n - 1) as nat);
        assert(citations::is_result_citation(shown[n - 1]));
        assert(shown.take(n as int) =~= shown.take(n - 1) + seq![shown[n - 1]]);
    } else {
        assert(shown.take(0) =~= Seq::<JsonView>::empty());
    }
}

/// The citations of a text that the client is shown and sends back are read as
/// the annotations that they were made of, each once and in their order.
pub proof fn citations_come_back(
    block: JsonView,
    t: Seq<char>,
    shown: Seq<JsonView>,
    sent_back: JsonView,
    found: bool,
)
    requires
        transform_responses::shown_citations(block, t) == Ok::<
            Seq<JsonView>,
            crate::error::ErrorView,
        >(shown),
        sent_back.items_at("citations"@) == shown,
    ensures
        ({
            let own = block.items_at("annotations"@);
            citations::annotations(citations::result_citations(sent_back), t, found)
                == seqs::gathered(own, kept_annotation(), own.len())
        }),
{
    let own = block.items_at("annotations"@);
    first_citations_come_back(own, t, t, found, own.len());
    all_kept(shown, shown.len());
    assert(shown.take(shown.len() as int) =~= shown);
}

} // verus!
