//! Citations that a client sends back with an assistant's text, as annotations
//! of that text.
//!
//! A citation that this library made carries its place in the text. Of any
//! other, the place is sought: the text that it cites, else its URL. Where
//! several citations seek the same text, each takes the next place where it
//! stands.
use crate::char_offsets;
use crate::json;
use crate::json::{Json, JsonView};
use crate::seqs;
use crate::text;
use crate::web_search_bridge;
use crate::web_search_bridge::CITATION_INDEX_PREFIX;
use vstd::prelude::*;
use vstd::string::*;
use vstd::utf8::*;

verus! {

// ---------------------------------------------------------------------------
// The place that a citation carries
// ---------------------------------------------------------------------------

/// The place that a mark of this library stands for.
pub open spec fn decoded_index(index: Seq<char>) -> Option<(u64, u64)> {
    match text::after_prefix(index, CITATION_INDEX_PREFIX@) {
        None => None,
        Some(indices) => match text::split_at_first(indices, ':') {
            None => None,
            Some((first, last)) => match (text::parsed_u64(first), text::parsed_u64(last)) {
                (Some(start), Some(end)) => if end >= start {
                    Some((start, end))
                } else {
                    None
                },
                _ => None,
            },
        },
    }
}

/// The place that a citation carries.
pub open spec fn carried_place(citation: JsonView) -> Option<(u64, u64)> {
    match citation.get_str("encrypted_index"@) {
        Some(index) => decoded_index(index),
        None => None,
    }
}

pub fn decode_responses_citation_index(citation: &Json) -> (r: Option<(u64, u64)>)
    ensures
        r == carried_place(citation@),
{
    let encoded = match citation.get_str("encrypted_index") {
        Some(s) => s,
        None => {
            return None;
        },
    };
    let indices = match text::strip_prefix(encoded, CITATION_INDEX_PREFIX) {
        Some(s) => s,
        None => {
            return None;
        },
    };
    let (first, last) = match text::split_once(indices.as_str(), ':') {
        Some(p) => p,
        None => {
            return None;
        },
    };
    match (text::parse_u64(first.as_str()), text::parse_u64(last.as_str())) {
        (Some(start), Some(end)) => {
            if end >= start {
                Some((start, end))
            } else {
                None
            }
        },
        _ => None,
    }
}

/// A mark that this library makes reads back as the place it was made of.
pub proof fn citation_index_reads_back(start: u64, end: u64)
    requires
        start <= end,
    ensures
        decoded_index(web_search_bridge::citation_index(start, end)) == Some((start, end)),
{
    let mark = web_search_bridge::citation_index(start, end);
    let prefix = CITATION_INDEX_PREFIX@;
    let a = text::decimal(start as nat);
    let b = text::decimal(end as nat);
    reveal_strlit(":");
    assert(":"@ =~= seq![':']);
    assert(mark.take(prefix.len() as int) =~= prefix);
    let rest = mark.skip(prefix.len() as int);
    assert(rest =~= a + seq![':'] + b);
    text::decimal_is_digits(start as nat);
    text::position_from_is_first(rest, ':', 0);
    let p = text::position(rest, ':');
    assert(rest[a.len() as int] == ':');
    assert forall|i: int| 0 <= i < a.len() implies #[trigger] rest[i] != ':' by {
        assert(rest[i] == a[i]);
    }
    assert(p == a.len());
    assert(rest.take(p) =~= a);
    assert(rest.skip(p + 1) =~= b);
    text::decimal_parses_back(start);
    text::decimal_parses_back(end);
}

// ---------------------------------------------------------------------------
// Where a text stands in another
// ---------------------------------------------------------------------------

/// Whether `pattern` stands in `t` from the character `i` on.
pub open spec fn stands_at(t: Seq<char>, pattern: Seq<char>, i: int) -> bool {
    0 <= i && i + pattern.len() <= t.len() && t.subrange(i, i + pattern.len()) == pattern
}

/// The first of the first `n` characters of `t` from which `pattern` stands
/// there, in order.
pub open spec fn occurrences_upto(t: Seq<char>, pattern: Seq<char>, n: nat) -> Seq<int>
    decreases n,
{
    if n == 0 {
        Seq::empty()
    } else {
        let before = occurrences_upto(t, pattern, (n - 1) as nat);
        if stands_at(t, pattern, n - 1) {
            before.push(n - 1)
        } else {
            before
        }
    }
}

/// Where `pattern` stands in `t`, in order. The places may overlap.
pub open spec fn occurrences(t: Seq<char>, pattern: Seq<char>) -> Seq<int> {
    occurrences_upto(t, pattern, t.len())
}

/// Whether numbers grow from one to the next.
pub open spec fn increasing(s: Seq<int>) -> bool {
    forall|i: int, j: int| 0 <= i < j < s.len() ==> #[trigger] s[i] < #[trigger] s[j]
}

pub proof fn occurrences_are(t: Seq<char>, pattern: Seq<char>, n: nat)
    ensures
        increasing(occurrences_upto(t, pattern, n)),
        forall|x: int| #[trigger]
            occurrences_upto(t, pattern, n).contains(x) <==> 0 <= x < n && stands_at(
                t,
                pattern,
                x,
            ),
    decreases n,
{
    if n > 0 {
        let before = occurrences_upto(t, pattern, (n - 1) as nat);
        let all = occurrences_upto(t, pattern, n);
        occurrences_are(t, pattern, (n - 1) as nat);
        assert forall|i: int, j: int| 0 <= i < j < all.len() implies #[trigger] all[i]
            < #[trigger] all[j] by {
            assert(before.contains(before[i]));
        }
        assert forall|x: int| #[trigger] all.contains(x) <==> 0 <= x < n && stands_at(
            t,
            pattern,
            x,
        ) by {
            if all.contains(x) {
                let k = choose|k: int| 0 <= k < all.len() && all[k] == x;
                if k < before.len() {
                    assert(before.contains(before[k]));
                }
            }
            if 0 <= x < n && stands_at(t, pattern, x) {
                if x < n - 1 {
                    assert(before.contains(x));
                    let k = choose|k: int| 0 <= k < before.len() && before[k] == x;
                    assert(all[k] == x);
                } else {
                    assert(all[all.len() - 1] == x);
                }
            }
        }
    }
}

/// Numbers that grow from one to the next are given by which they are.
proof fn increasing_same(a: Seq<int>, b: Seq<int>)
    requires
        increasing(a),
        increasing(b),
        forall|x: int| a.contains(x) <==> b.contains(x),
    ensures
        a == b,
    decreases a.len(),
{
    if a.len() == 0 {
        if b.len() > 0 {
            assert(b.contains(b[0]));
            assert(a.contains(b[0]));
        }
        assert(a =~= b);
    } else {
        let x = a[a.len() - 1];
        assert(a.contains(x));
        assert(b.contains(x));
        let y = b[b.len() - 1];
        assert(b.contains(y));
        assert(a.contains(y));
        let i = choose|i: int| 0 <= i < a.len() && a[i] == y;
        let j = choose|j: int| 0 <= j < b.len() && b[j] == x;
        assert(x == y);
        let a2 = a.drop_last();
        let b2 = b.drop_last();
        assert forall|v: int| a2.contains(v) <==> b2.contains(v) by {
            if a2.contains(v) {
                let k = choose|k: int| 0 <= k < a2.len() && a2[k] == v;
                assert(a[k] == v && a[k] < x);
                assert(b.contains(v));
                let l = choose|l: int| 0 <= l < b.len() && b[l] == v;
                assert(b2[l] == v);
            }
            if b2.contains(v) {
                let k = choose|k: int| 0 <= k < b2.len() && b2[k] == v;
                assert(b[k] == v && b[k] < x);
                assert(a.contains(v));
                let l = choose|l: int| 0 <= l < a.len() && a[l] == v;
                assert(a2[l] == v);
            }
        }
        increasing_same(a2, b2);
        assert(a =~= a2.push(x));
        assert(b =~= b2.push(x));
    }
}

// ---------------------------------------------------------------------------
// Finding texts
// ---------------------------------------------------------------------------

/// Whether the encoding of a pattern stands among the bytes of a text.
pub open spec fn bytes_match(
    patterns: Seq<Seq<char>>,
    t: Seq<char>,
    p: int,
    s: int,
    e: int,
) -> bool {
    &&& 0 <= p < patterns.len()
    &&& 0 <= s <= e <= encode_utf8(t).len()
    &&& encode_utf8(t).subrange(s, e) == encode_utf8(patterns[p])
}

/// Whether `m` lists each place where a pattern stands among the bytes of a
/// text, as the pattern's number, the first byte and the byte behind the last:
/// all of them, each once, in the order in which they end.
pub open spec fn lists_matches(
    m: Seq<(usize, usize, usize)>,
    patterns: Seq<Seq<char>>,
    t: Seq<char>,
) -> bool {
    &&& forall|k: int|
        0 <= k < m.len() ==> bytes_match(
            patterns,
            t,
            (#[trigger] m[k]).0 as int,
            m[k].1 as int,
            m[k].2 as int,
        )
    &&& forall|p: int, s: int, e: int| #[trigger]
        bytes_match(patterns, t, p, s, e) ==> is_listed(m, p, s, e)
    &&& forall|j: int, k: int|
        0 <= j < k < m.len() ==> (#[trigger] m[j]).2 <= (#[trigger] m[k]).2 && m[j] != m[k]
}

pub open spec fn is_listed(m: Seq<(usize, usize, usize)>, p: int, s: int, e: int) -> bool {
    exists|k: int| 0 <= k < m.len() && (#[trigger] m[k]).0 == p && m[k].1 == s && m[k].2 == e
}

/// Whether `aho_corasick` builds an automaton for these patterns: there is a
/// limit on its size.
pub uninterp spec fn automaton_builds(patterns: Seq<Seq<char>>) -> bool;

/// `aho_corasick::AhoCorasick::new` and `find_overlapping_iter`: where the
/// automaton can be built, all matches of the patterns in the text, overlapping
/// ones too, in the order in which they end.
#[verifier::external_body]
fn find_overlapping(patterns: &Vec<String>, t: &str) -> (r: Option<Vec<(usize, usize, usize)>>)
    requires
        forall|p: int| 0 <= p < patterns@.len() ==> (#[trigger] patterns@[p])@.len() > 0,
    ensures
        r is Some <==> automaton_builds(text::texts(patterns@)),
        r matches Some(m) ==> lists_matches(m@, text::texts(patterns@), t@),
{
    let matcher = aho_corasick::AhoCorasick::new(patterns).ok()?;
    let found = matcher.find_overlapping_iter(t);
    Some(found.map(|m| (m.pattern().as_usize(), m.start(), m.end())).collect())
}

/// The first bytes of the first `n` matches that are of the pattern `p`.
spec fn starts_of(m: Seq<(usize, usize, usize)>, p: int, n: nat) -> Seq<int>
    decreases n,
{
    if n == 0 {
        Seq::empty()
    } else {
        let before = starts_of(m, p, (n - 1) as nat);
        if m[n - 1].0 == p {
            before.push(m[n - 1].1 as int)
        } else {
            before
        }
    }
}

/// The places where a pattern stands, by their first bytes.
spec fn occurrence_offsets(t: Seq<char>, pattern: Seq<char>) -> Seq<int> {
    occurrences(t, pattern).map_values(|i: int| char_offsets::offset(t, i))
}

proof fn starts_are(
    m: Seq<(usize, usize, usize)>,
    patterns: Seq<Seq<char>>,
    t: Seq<char>,
    p: int,
    n: nat,
)
    requires
        lists_matches(m, patterns, t),
        0 <= p < patterns.len(),
        n <= m.len(),
    ensures
        increasing(starts_of(m, p, n)),
        forall|s: int| #[trigger]
            starts_of(m, p, n).contains(s) <==> exists|k: int|
                0 <= k < n && (#[trigger] m[k]).0 == p && m[k].1 == s,
        forall|i: int|
            0 <= i < starts_of(m, p, n).len() ==> 0 <= #[trigger] starts_of(m, p, n)[i]
                <= usize::MAX,
    decreases n,
{
    if n > 0 {
        let before = starts_of(m, p, (n - 1) as nat);
        let all = starts_of(m, p, n);
        starts_are(m, patterns, t, p, (n - 1) as nat);
        let x = m[n - 1];
        if x.0 == p {
            assert forall|i: int, j: int| 0 <= i < j < all.len() implies #[trigger] all[i]
                < #[trigger] all[j] by {
                if j == before.len() {
                    assert(before.contains(before[i]));
                    let k = choose|k: int|
                        0 <= k < n - 1 && (#[trigger] m[k]).0 == p && m[k].1 == before[i];
                    assert(bytes_match(patterns, t, p, m[k].1 as int, m[k].2 as int));
                    assert(bytes_match(patterns, t, p, x.1 as int, x.2 as int));
                    let size = encode_utf8(patterns[p]).len();
                    assert(m[k].2 - m[k].1 == size);
                    assert(x.2 - x.1 == size);
                    assert(m[k] != m[n - 1]);
                }
            }
        }
        assert forall|s: int| #[trigger] all.contains(s) <==> exists|k: int|
            0 <= k < n && (#[trigger] m[k]).0 == p && m[k].1 == s by {
            if all.contains(s) {
                let i = choose|i: int| 0 <= i < all.len() && all[i] == s;
                if i < before.len() {
                    assert(before.contains(before[i]));
                    let k = choose|k: int|
                        0 <= k < n - 1 && (#[trigger] m[k]).0 == p && m[k].1 == s;
                    assert(m[k].0 == p && m[k].1 == s);
                } else {
                    assert(m[n - 1].0 == p && m[n - 1].1 == s);
                }
            }
            if exists|k: int| 0 <= k < n && (#[trigger] m[k]).0 == p && m[k].1 == s {
                let k = choose|k: int| 0 <= k < n && (#[trigger] m[k]).0 == p && m[k].1 == s;
                if k < n - 1 {
                    assert(before.contains(s));
                    let i = choose|i: int| 0 <= i < before.len() && before[i] == s;
                    assert(all[i] == s);
                } else {
                    assert(all[all.len() - 1] == s);
                }
            }
        }
    }
}

/// The matches of a pattern are the places where it stands.
proof fn starts_are_occurrences(
    m: Seq<(usize, usize, usize)>,
    patterns: Seq<Seq<char>>,
    t: Seq<char>,
    p: int,
)
    requires
        lists_matches(m, patterns, t),
        0 <= p < patterns.len(),
        patterns[p].len() > 0,
    ensures
        starts_of(m, p, m.len()) == occurrence_offsets(t, patterns[p]),
{
    let pattern = patterns[p];
    let a = starts_of(m, p, m.len());
    let o = occurrences(t, pattern);
    let b = occurrence_offsets(t, pattern);
    starts_are(m, patterns, t, p, m.len());
    occurrences_are(t, pattern, t.len());
    assert forall|i: int, j: int| 0 <= i < j < b.len() implies #[trigger] b[i] < #[trigger] b[j] by {
        assert(o.contains(o[i]) && o.contains(o[j]));
        char_offsets::offset_increases(t, o[i], o[j]);
    }
    assert forall|x: int| a.contains(x) <==> b.contains(x) by {
        if a.contains(x) {
            let k = choose|k: int| 0 <= k < m.len() && (#[trigger] m[k]).0 == p && m[k].1 == x;
            assert(bytes_match(patterns, t, p, m[k].1 as int, m[k].2 as int));
            let i = char_offsets::occurrence_of_bytes(t, pattern, m[k].1 as int, m[k].2 as int);
            assert(stands_at(t, pattern, i));
            assert(o.contains(i));
            let j = choose|j: int| 0 <= j < o.len() && o[j] == i;
            assert(b[j] == x);
        }
        if b.contains(x) {
            let j = choose|j: int| 0 <= j < b.len() && b[j] == x;
            assert(o.contains(o[j]));
            let i = o[j];
            let e = (i + pattern.len()) as int;
            char_offsets::encode_between(t, i, e);
            assert(bytes_match(patterns, t, p, x, char_offsets::offset(t, e)));
            assert(is_listed(m, p, x, char_offsets::offset(t, e)));
        }
    }
    increasing_same(a, b);
}

// ---------------------------------------------------------------------------
// Offsets and characters
// ---------------------------------------------------------------------------

/// How many bytes the encoding of a character takes.
fn encoded_size(c: char) -> (r: usize)
    ensures
        r == encode_scalar(c as u32).len(),
{
    let u: u32 = c as u32;
    if u < 0x80 {
        1
    } else if u < 0x800 {
        2
    } else if u < 0x10000 {
        3
    } else {
        4
    }
}

/// The offset of each character of a text, and of its end.
pub fn unicode_scalar_boundaries(t: &str) -> (r: Vec<usize>)
    ensures
        r@.len() == t@.len() + 1,
        forall|i: int| 0 <= i <= t@.len() ==> #[trigger] r@[i] == char_offsets::offset(t@, i),
{
    let size: usize = t.as_bytes().len();
    let cs = text::chars_of(t);
    let mut out: Vec<usize> = Vec::new();
    let mut at: usize = 0;
    let mut i: usize = 0;
    out.push(0);
    assert(t@.take(0) =~= Seq::<char>::empty());
    while i < cs.len()
        invariant
            i <= cs@.len(),
            cs@ == t@,
            size == encode_utf8(t@).len(),
            at == char_offsets::offset(t@, i as int),
            out@.len() == i + 1,
            forall|k: int| 0 <= k <= i ==> #[trigger] out@[k] == char_offsets::offset(t@, k),
        decreases cs@.len() - i,
    {
        proof {
            char_offsets::offset_grows(t@, i as int);
            char_offsets::encode_between(t@, i + 1, i + 1);
        }
        at = at + encoded_size(cs[i]);
        out.push(at);
        i = i + 1;
    }
    out
}

/// The character at an offset.
fn char_at_offset(bounds: &Vec<usize>, at: usize, Ghost(t): Ghost<Seq<char>>, Ghost(
    i,
): Ghost<int>) -> (r: usize)
    requires
        bounds@.len() == t.len() + 1,
        forall|k: int| 0 <= k <= t.len() ==> #[trigger] bounds@[k] == char_offsets::offset(t, k),
        0 <= i <= t.len(),
        at == char_offsets::offset(t, i),
    ensures
        r == i,
{
    let mut low: usize = 0;
    let mut high: usize = bounds.len() - 1;
    while low < high
        invariant
            bounds@.len() == t.len() + 1,
            forall|k: int|
                0 <= k <= t.len() ==> #[trigger] bounds@[k] == char_offsets::offset(t, k),
            0 <= i <= t.len(),
            at == char_offsets::offset(t, i),
            low <= i <= high < bounds@.len(),
        decreases high - low,
    {
        let middle: usize = low + (high - low) / 2;
        if bounds[middle] < at {
            proof {
                if i <= middle {
                    if i < middle {
                        char_offsets::offset_increases(t, i, middle as int);
                    }
                }
            }
            low = middle + 1;
        } else {
            proof {
                if i > middle {
                    char_offsets::offset_increases(t, middle as int, i);
                }
            }
            high = middle;
        }
    }
    low
}

// ---------------------------------------------------------------------------
// Annotations
// ---------------------------------------------------------------------------

/// Whether a citation is one of a search result.
pub open spec fn is_result_citation(citation: JsonView) -> bool {
    citation.says("type"@, "web_search_result_location"@)
}

pub open spec fn keep_result_citation() -> spec_fn(JsonView) -> Seq<JsonView> {
    |citation: JsonView|
        if is_result_citation(citation) {
            seq![citation]
        } else {
            Seq::empty()
        }
}

/// The citations of search results of a text block.
pub open spec fn result_citations(block: JsonView) -> Seq<JsonView> {
    let all = block.items_at("citations"@);
    seqs::gathered(all, keep_result_citation(), all.len())
}

/// The patterns with one more, unless it is empty or among them.
pub open spec fn with_pattern(patterns: Seq<Seq<char>>, pattern: Option<Seq<char>>) -> Seq<
    Seq<char>,
> {
    match pattern {
        Some(p) if p.len() > 0 && !patterns.contains(p) => patterns.push(p),
        _ => patterns,
    }
}

/// The patterns with those that a citation may be sought by.
pub open spec fn with_citation() -> spec_fn(Seq<Seq<char>>, JsonView) -> Seq<Seq<char>> {
    |patterns: Seq<Seq<char>>, citation: JsonView|
        with_pattern(
            with_pattern(patterns, citation.get_str("cited_text"@)),
            citation.get_str("url"@),
        )
}

/// The texts that citations may be sought by.
pub open spec fn sought_patterns(citations: Seq<JsonView>) -> Seq<Seq<char>> {
    seqs::walked(citations, with_citation(), Seq::empty(), citations.len())
}

/// How often a pattern has been found so far.
pub open spec fn times_used(used: Map<Seq<char>, nat>, pattern: Seq<char>) -> nat {
    if used.contains_key(pattern) {
        used[pattern]
    } else {
        0
    }
}

/// The next place of a pattern that is not taken.
pub open spec fn next_place(
    t: Seq<char>,
    found: bool,
    used: Map<Seq<char>, nat>,
    pattern: Option<Seq<char>>,
) -> Option<(u64, u64)> {
    match pattern {
        Some(p) if found && p.len() > 0 && times_used(used, p) < occurrences(t, p).len() => {
            let i = occurrences(t, p)[times_used(used, p) as int];
            Some((i as u64, (i + p.len()) as u64))
        },
        _ => None,
    }
}

pub open spec fn with_use(used: Map<Seq<char>, nat>, pattern: Seq<char>) -> Map<Seq<char>, nat> {
    used.insert(pattern, times_used(used, pattern) + 1)
}

/// The place of a citation, and the places taken after it: the one that it
/// carries, else the next of the text that it cites, else the next of its URL,
/// else the start of the text.
pub open spec fn placed(
    t: Seq<char>,
    found: bool,
    used: Map<Seq<char>, nat>,
    citation: JsonView,
    url: Seq<char>,
) -> ((u64, u64), Map<Seq<char>, nat>) {
    match carried_place(citation) {
        Some(place) => (place, used),
        None => {
            let cited = citation.get_str("cited_text"@);
            match next_place(t, found, used, cited) {
                Some(place) => (place, with_use(used, cited->0)),
                None => match next_place(t, found, used, Some(url)) {
                    Some(place) => (place, with_use(used, url)),
                    None => ((0, 0), used),
                },
            }
        },
    }
}

/// The annotation of a URL at a place.
pub open spec fn url_citation(place: (u64, u64), title: Seq<char>, url: Seq<char>) -> JsonView {
    JsonView::object().with("type"@, JsonView::Str("url_citation"@)).with(
        "start_index"@,
        JsonView::number(place.0),
    ).with("end_index"@, JsonView::number(place.1)).with("title"@, JsonView::Str(title)).with(
        "url"@,
        JsonView::Str(url),
    )
}

/// A URL that is more than white space.
pub open spec fn shown_url(citation: JsonView) -> Option<Seq<char>> {
    match citation.get_str("url"@) {
        Some(url) if !text::blank(url) => Some(url),
        _ => None,
    }
}

/// The annotations so far, and the places taken, after one citation more. A
/// citation without a URL gives no annotation and takes no place.
pub open spec fn annotate(t: Seq<char>, found: bool) -> spec_fn(
    (Seq<JsonView>, Map<Seq<char>, nat>),
    JsonView,
) -> (Seq<JsonView>, Map<Seq<char>, nat>) {
    |state: (Seq<JsonView>, Map<Seq<char>, nat>), citation: JsonView|
        match shown_url(citation) {
            None => state,
            Some(url) => {
                let title = match web_search_bridge::shown_title(citation) {
                    Some(title) => title,
                    None => url,
                };
                let (place, used) = placed(t, found, state.1, citation, url);
                (state.0.push(url_citation(place, title, url)), used)
            },
        }
}

/// The annotations of a text, from its citations. `found` says whether texts
/// could be sought.
pub open spec fn annotations(citations: Seq<JsonView>, t: Seq<char>, found: bool) -> Seq<JsonView> {
    seqs::walked(citations, annotate(t, found), (Seq::empty(), Map::empty()), citations.len()).0
}

/// The number of a pattern.
fn pattern_number(patterns: &Vec<String>, pattern: &str) -> (r: Option<usize>)
    ensures
        match r {
            Some(p) => p < patterns@.len() && patterns@[p as int]@ == pattern@,
            None => !text::texts(patterns@).contains(pattern@),
        },
{
    let mut i: usize = 0;
    while i < patterns.len()
        invariant
            i <= patterns@.len(),
            forall|k: int| 0 <= k < i ==> (#[trigger] patterns@[k])@ != pattern@,
        decreases patterns@.len() - i,
    {
        if text::same_text(patterns[i].as_str(), pattern) {
            return Some(i);
        }
        i = i + 1;
    }
    None
}

fn add_pattern(patterns: &mut Vec<String>, pattern: Option<&str>)
    ensures
        text::texts(final(patterns)@) == with_pattern(
            text::texts(old(patterns)@),
            text::opt_text(pattern),
        ),
{
    if let Some(p) = pattern {
        if !p.is_empty() {
            match pattern_number(patterns, p) {
                Some(n) => {
                    assert(text::texts(patterns@)[n as int] == p@);
                },
                None => {
                    let owned = p.to_owned();
                    proof {
                        text::texts_push(patterns@, owned);
                    }
                    patterns.push(owned);
                },
            }
        }
    }
}

/// The texts that citations may be sought by.
fn citation_patterns(citations: &Vec<&Json>) -> (r: Vec<String>)
    ensures
        text::texts(r@) == sought_patterns(refs_view(citations@)),
{
    let ghost views = refs_view(citations@);
    let mut patterns: Vec<String> = Vec::new();
    let mut i: usize = 0;
    assert(text::texts(patterns@) =~= Seq::<Seq<char>>::empty());
    while i < citations.len()
        invariant
            i <= citations@.len(),
            views == refs_view(citations@),
            text::texts(patterns@) == seqs::walked(
                views,
                with_citation(),
                Seq::empty(),
                i as nat,
            ),
        decreases citations@.len() - i,
    {
        let citation = citations[i];
        assert(views[i as int] == citation@);
        add_pattern(&mut patterns, citation.get_str("cited_text"));
        add_pattern(&mut patterns, citation.get_str("url"));
        i = i + 1;
    }
    patterns
}

/// The views of values.
pub open spec fn refs_view(v: Seq<&Json>) -> Seq<JsonView> {
    v.map_values(|j: &Json| j@)
}

/// What is known of the patterns that citations are sought by.
proof fn sought_patterns_are(citations: Seq<JsonView>, n: nat)
    requires
        n <= citations.len(),
    ensures
        ({
            let ps = seqs::walked(citations, with_citation(), Seq::empty(), n);
            &&& forall|p: int| 0 <= p < ps.len() ==> (#[trigger] ps[p]).len() > 0
            &&& ps.no_duplicates()
            &&& forall|k: int, pattern: Seq<char>|
                0 <= k < n && pattern.len() > 0 && (#[trigger] citations[k].get_str("cited_text"@)
                    == Some(pattern) || citations[k].get_str("url"@) == Some(pattern))
                    ==> #[trigger] ps.contains(pattern)
        }),
    decreases n,
{
    if n > 0 {
        sought_patterns_are(citations, (n - 1) as nat);
        let before = seqs::walked(citations, with_citation(), Seq::empty(), (n - 1) as nat);
        let c = citations[n - 1];
        let middle = with_pattern(before, c.get_str("cited_text"@));
        let ps = with_pattern(middle, c.get_str("url"@));
        pattern_added(before, c.get_str("cited_text"@));
        pattern_added(middle, c.get_str("url"@));
        assert forall|k: int, pattern: Seq<char>|
            0 <= k < n && pattern.len() > 0 && (#[trigger] citations[k].get_str("cited_text"@)
                == Some(pattern) || citations[k].get_str("url"@) == Some(
                pattern,
            )) implies #[trigger] ps.contains(pattern) by {
            if k < n - 1 {
                assert(before.contains(pattern));
                assert(middle.contains(pattern));
            } else if c.get_str("cited_text"@) == Some(pattern) {
                assert(middle.contains(pattern));
            }
        }
    }
}

proof fn pattern_added(before: Seq<Seq<char>>, pattern: Option<Seq<char>>)
    requires
        before.no_duplicates(),
        forall|p: int| 0 <= p < before.len() ==> (#[trigger] before[p]).len() > 0,
    ensures
        ({
            let ps = with_pattern(before, pattern);
            &&& ps.no_duplicates()
            &&& forall|p: int| 0 <= p < ps.len() ==> (#[trigger] ps[p]).len() > 0
            &&& forall|q: Seq<char>| before.contains(q) ==> #[trigger] ps.contains(q)
            &&& pattern is Some && pattern->0.len() > 0 ==> ps.contains(pattern->0)
        }),
{
    let ps = with_pattern(before, pattern);
    assert forall|q: Seq<char>| before.contains(q) implies #[trigger] ps.contains(q) by {
        let k = choose|k: int| 0 <= k < before.len() && before[k] == q;
        assert(ps[k] == q);
    }
    if let Some(q) = pattern {
        if q.len() > 0 {
            if !before.contains(q) {
                assert(ps[before.len() as int] == q);
                assert(ps.no_duplicates());
            }
            assert(ps.contains(q));
        }
    }
}

/// The places where each pattern stands that is still to be taken.
struct Places {
    patterns: Vec<String>,
    starts: Vec<Vec<usize>>,
    used: Vec<usize>,
    bounds: Vec<usize>,
}

impl Places {
    /// Whether this says where the patterns stand in `t` and how often each was
    /// found.
    spec fn holds(&self, t: Seq<char>, found: bool, used: Map<Seq<char>, nat>) -> bool {
        let ps = text::texts(self.patterns@);
        &&& ps.no_duplicates()
        &&& forall|p: int| 0 <= p < ps.len() ==> (#[trigger] ps[p]).len() > 0
        &&& self.starts@.len() == ps.len()
        &&& self.used@.len() == ps.len()
        &&& self.bounds@.len() == t.len() + 1
        &&& forall|i: int|
            0 <= i <= t.len() ==> #[trigger] self.bounds@[i] == char_offsets::offset(t, i)
        &&& forall|p: int|
            0 <= p < ps.len() ==> self.used@[p] == times_used(used, #[trigger] ps[p])
        &&& forall|p: int| 0 <= p < ps.len() ==> starts_fit(t, found, #[trigger] ps[p], self.starts@[p]@)
        &&& forall|p: int| 0 <= p < ps.len() ==> self.used@[p] <= (#[trigger] self.starts@[p])@.len()
    }

    /// The next place of a pattern, which is then taken.
    fn take_place(&mut self, pattern: &str, Ghost(t): Ghost<Seq<char>>, Ghost(found): Ghost<bool>, Ghost(
        used,
    ): Ghost<Map<Seq<char>, nat>>) -> (r: Option<(u64, u64)>)
        requires
            old(self).holds(t, found, used),
            pattern@.len() > 0 ==> text::texts(old(self).patterns@).contains(pattern@),
        ensures
            r == next_place(t, found, used, Some(pattern@)),
            final(self).holds(
                t,
                found,
                if r is Some {
                    with_use(used, pattern@)
                } else {
                    used
                },
            ),
            final(self).patterns@ == old(self).patterns@,
    {
        let ghost ps = text::texts(self.patterns@);
        if pattern.is_empty() {
            return None;
        }
        let p: usize = match pattern_number(&self.patterns, pattern) {
            Some(p) => p,
            None => {
                return None;
            },
        };
        assert(ps[p as int] == pattern@);
        let n: usize = self.used[p];
        if n >= self.starts[p].len() {
            assert(starts_fit(t, found, ps[p as int], self.starts@[p as int]@));
            return None;
        }
        let at: usize = self.starts[p][n];
        let ghost o = occurrences(t, pattern@);
        proof {
            assert(starts_fit(t, found, ps[p as int], self.starts@[p as int]@));
            occurrences_are(t, pattern@, t.len());
            assert(o.contains(o[n as int]));
            assert(at == char_offsets::offset(t, o[n as int]));
        }
        let from: usize = char_at_offset(&self.bounds, at, Ghost(t), Ghost(o[n as int]));
        let size: usize = text::chars_of(pattern).len();
        let last: usize = self.bounds.len() - 1;
        assert(o[n as int] + pattern@.len() <= last);
        self.used.set(p, n + 1);
        proof {
            let more = with_use(used, pattern@);
            assert forall|q: int| 0 <= q < ps.len() implies self.used@[q] == times_used(
                more,
                #[trigger] ps[q],
            ) by {
                if q != p {
                    assert(ps[q] != ps[p as int]);
                }
            }
        }
        Some((from as u64, (from + size) as u64))
    }
}

/// Whether the first bytes are those of the places where a pattern stands; none
/// where texts could not be sought.
spec fn starts_fit(t: Seq<char>, found: bool, pattern: Seq<char>, starts: Seq<usize>) -> bool {
    if found {
        &&& starts.len() == occurrences(t, pattern).len()
        &&& forall|i: int|
            0 <= i < starts.len() ==> #[trigger] starts[i] == char_offsets::offset(
                t,
                occurrences(t, pattern)[i],
            )
    } else {
        starts.len() == 0
    }
}

/// The first bytes of the matches of each pattern.
fn starts_by_pattern(m: &Vec<(usize, usize, usize)>, count: usize) -> (r: Vec<Vec<usize>>)
    requires
        forall|k: int| 0 <= k < m@.len() ==> (#[trigger] m@[k]).0 < count,
    ensures
        r@.len() == count,
        forall|p: int| 0 <= p < count ==> ints((#[trigger] r@[p])@) == starts_of(m@, p, m@.len()),
{
    let mut out: Vec<Vec<usize>> = Vec::new();
    let mut p: usize = 0;
    while p < count
        invariant
            p <= count,
            out@.len() == p,
            forall|q: int| 0 <= q < p ==> (#[trigger] out@[q])@ == Seq::<usize>::empty(),
        decreases count - p,
    {
        out.push(Vec::new());
        p = p + 1;
    }
    let mut i: usize = 0;
    assert forall|q: int| 0 <= q < count implies ints((#[trigger] out@[q])@) == starts_of(
        m@,
        q,
        0,
    ) by {
        assert(ints(out@[q]@) =~= Seq::<int>::empty());
    }
    while i < m.len()
        invariant
            i <= m@.len(),
            out@.len() == count,
            forall|k: int| 0 <= k < m@.len() ==> (#[trigger] m@[k]).0 < count,
            forall|q: int|
                0 <= q < count ==> ints((#[trigger] out@[q])@) == starts_of(m@, q, i as nat),
        decreases m@.len() - i,
    {
        let (n, at, _) = m[i];
        let ghost before = out@;
        assert(m@[i as int].0 == n);
        out[n].push(at);
        proof {
            assert forall|q: int| 0 <= q < count implies ints((#[trigger] out@[q])@) == starts_of(
                m@,
                q,
                (i + 1) as nat,
            ) by {
                assert(ints(before[q]@) == starts_of(m@, q, i as nat));
                if q == n {
                    assert(out@[q]@ == before[q]@.push(at));
                    assert(ints(out@[q]@) =~= ints(before[q]@).push(at as int));
                } else {
                    assert(out@[q] == before[q]);
                }
            }
        }
        i = i + 1;
    }
    out
}

spec fn ints(s: Seq<usize>) -> Seq<int> {
    s.map_values(|x: usize| x as int)
}

/// The citations of search results of a text block.
fn take_result_citations<'a>(block: &'a Json) -> (r: Vec<&'a Json>)
    ensures
        refs_view(r@) == result_citations(block@),
{
    let mut out: Vec<&'a Json> = Vec::new();
    assert(refs_view(out@) =~= Seq::<JsonView>::empty());
    if let Some(all) = block.get_array("citations") {
        let ghost views = json::items_view(all@);
        let mut i: usize = 0;
        while i < all.len()
            invariant
                i <= all@.len(),
                views == json::items_view(all@),
                refs_view(out@) == seqs::gathered(views, keep_result_citation(), i as nat),
            decreases all@.len() - i,
        {
            let citation = &all[i];
            assert(views[i as int] == citation@);
            let ghost before = refs_view(out@);
            if citation.says("type", "web_search_result_location") {
                assert(refs_view(out@.push(citation)) =~= before + seq![citation@]);
                out.push(citation);
            } else {
                assert(before + Seq::<JsonView>::empty() =~= before);
            }
            i = i + 1;
        }
    }
    out
}

/// One annotation, with its place.
fn make_url_citation(place: (u64, u64), title: &str, url: &str) -> (r: Json)
    ensures
        r@ == url_citation(place, title@, url@),
{
    Json::object().with("type", Json::string("url_citation")).with(
        "start_index",
        Json::number(place.0),
    ).with("end_index", Json::number(place.1)).with("title", Json::string(title)).with(
        "url",
        Json::string(url),
    )
}

/// The URL of a citation, where it is more than white space.
fn get_shown_url(citation: &Json) -> (r: Option<&str>)
    ensures
        text::opt_text(r) == shown_url(citation@),
{
    match citation.get_str("url") {
        Some(url) => {
            if text::is_blank(url) {
                None
            } else {
                Some(url)
            }
        },
        None => None,
    }
}

/// Text that is not blank is not empty.
proof fn not_blank_not_empty(s: Seq<char>)
    requires
        !text::blank(s),
    ensures
        s.len() > 0,
{
    text::blank_is_all_white(s);
}

/// Places one citation.
fn place_citation(
    places: &mut Places,
    citation: &Json,
    url: &str,
    Ghost(t): Ghost<Seq<char>>,
    Ghost(found): Ghost<bool>,
    Ghost(used): Ghost<Map<Seq<char>, nat>>,
) -> (r: (u64, u64))
    requires
        old(places).holds(t, found, used),
        url@.len() > 0 ==> text::texts(old(places).patterns@).contains(url@),
        citation@.get_str("cited_text"@) is Some && citation@.get_str("cited_text"@)->0.len() > 0
            ==> text::texts(old(places).patterns@).contains(citation@.get_str("cited_text"@)->0),
    ensures
        r == placed(t, found, used, citation@, url@).0,
        final(places).holds(t, found, placed(t, found, used, citation@, url@).1),
        final(places).patterns@ == old(places).patterns@,
{
    match decode_responses_citation_index(citation) {
        Some(place) => place,
        None => {
            if let Some(cited) = citation.get_str("cited_text") {
                if let Some(place) = places.take_place(cited, Ghost(t), Ghost(found), Ghost(used)) {
                    return place;
                }
            }
            match places.take_place(url, Ghost(t), Ghost(found), Ghost(used)) {
                Some(place) => place,
                None => (0, 0),
            }
        },
    }
}

/// The annotations of a text, from its citations and from the matches of the
/// patterns that they may be sought by; `None` where no matches could be had.
pub fn annotations_from_matches(
    citations: &Vec<&Json>,
    t: &str,
    matches: Option<Vec<(usize, usize, usize)>>,
) -> (r: Vec<Json>)
    requires
        matches matches Some(m) ==> lists_matches(
            m@,
            sought_patterns(refs_view(citations@)),
            t@,
        ),
    ensures
        json::items_view(r@) == annotations(refs_view(citations@), t@, matches is Some),
{
    let ghost views = refs_view(citations@);
    let ghost found = matches is Some;
    let patterns = citation_patterns(citations);
    let ghost ps = text::texts(patterns@);
    proof {
        sought_patterns_are(views, views.len());
    }
    let starts: Vec<Vec<usize>> = match matches {
        Some(m) => {
            assert forall|k: int| 0 <= k < m@.len() implies (#[trigger] m@[k]).0
                < patterns@.len() by {
                assert(bytes_match(ps, t@, m@[k].0 as int, m@[k].1 as int, m@[k].2 as int));
            }
            let starts = starts_by_pattern(&m, patterns.len());
            proof {
                assert forall|p: int| 0 <= p < ps.len() implies starts_fit(
                    t@,
                    found,
                    #[trigger] ps[p],
                    starts@[p]@,
                ) by {
                    starts_are_occurrences(m@, ps, t@, p);
                    let o = occurrence_offsets(t@, ps[p]);
                    assert(ints(starts@[p]@) == o);
                    assert(ints(starts@[p]@).len() == starts@[p]@.len());
                    assert forall|i: int| 0 <= i < starts@[p]@.len() implies #[trigger] starts@[p]@[i]
                        == char_offsets::offset(t@, occurrences(t@, ps[p])[i]) by {
                        assert(ints(starts@[p]@)[i] == o[i]);
                    }
                }
            }
            starts
        },
        None => {
            let none: Vec<(usize, usize, usize)> = Vec::new();
            let starts = starts_by_pattern(&none, patterns.len());
            proof {
                assert forall|p: int| 0 <= p < ps.len() implies starts_fit(
                    t@,
                    found,
                    #[trigger] ps[p],
                    starts@[p]@,
                ) by {
                    assert(ints(starts@[p]@).len() == starts@[p]@.len());
                    assert(starts_of(none@, p, 0).len() == 0);
                }
            }
            starts
        },
    };
    let bounds = unicode_scalar_boundaries(t);
    let mut used: Vec<usize> = Vec::new();
    let mut p: usize = 0;
    while p < patterns.len()
        invariant
            p <= patterns@.len(),
            used@.len() == p,
            forall|q: int| 0 <= q < p ==> #[trigger] used@[q] == 0,
        decreases patterns@.len() - p,
    {
        used.push(0);
        p = p + 1;
    }
    let mut places = Places { patterns, starts, used, bounds };
    let mut out: Vec<Json> = Vec::new();
    let ghost f = annotate(t@, found);
    let ghost start = (Seq::<JsonView>::empty(), Map::<Seq<char>, nat>::empty());
    assert(json::items_view(out@) =~= Seq::<JsonView>::empty());
    let mut i: usize = 0;
    while i < citations.len()
        invariant
            i <= citations@.len(),
            views == refs_view(citations@),
            f == annotate(t@, found),
            start == (Seq::<JsonView>::empty(), Map::<Seq<char>, nat>::empty()),
            ps == sought_patterns(views),
            text::texts(places.patterns@) == ps,
            places.holds(t@, found, seqs::walked(views, f, start, i as nat).1),
            json::items_view(out@) == seqs::walked(views, f, start, i as nat).0,
        decreases citations@.len() - i,
    {
        let citation = citations[i];
        assert(views[i as int] == citation@);
        let ghost state = seqs::walked(views, f, start, i as nat);
        assert(seqs::walked(views, f, start, (i + 1) as nat) == f(state, citation@));
        if let Some(url) = get_shown_url(citation) {
            let title = match web_search_bridge::get_title(citation) {
                Some(title) => title,
                None => url,
            };
            proof {
                sought_patterns_are(views, views.len());
                not_blank_not_empty(url@);
                assert(views[i as int].get_str("url"@) == Some(url@));
                assert(ps.contains(url@));
                if citation@.get_str("cited_text"@) is Some {
                    let cited = citation@.get_str("cited_text"@)->0;
                    if cited.len() > 0 {
                        assert(views[i as int].get_str("cited_text"@) == Some(cited));
                        assert(ps.contains(cited));
                    }
                }
            }
            let place = place_citation(
                &mut places,
                citation,
                url,
                Ghost(t@),
                Ghost(found),
                Ghost(state.1),
            );
            let annotation = make_url_citation(place, title, url);
            proof {
                json::items_push(out@, annotation);
            }
            out.push(annotation);
        }
        i = i + 1;
    }
    out
}

/// The annotations that stand for the citations of an assistant's text.
pub fn responses_annotations_from_anthropic_text(block: &Json, t: &str) -> (r: Vec<Json>)
    ensures
        json::items_view(r@) == annotations(
            result_citations(block@),
            t@,
            automaton_builds(sought_patterns(result_citations(block@))),
        ),
{
    let citations = take_result_citations(block);
    let patterns = citation_patterns(&citations);
    proof {
        let views = refs_view(citations@);
        sought_patterns_are(views, views.len());
        assert forall|p: int| 0 <= p < patterns@.len() implies (#[trigger] patterns@[p])@.len()
            > 0 by {
            assert(text::texts(patterns@)[p].len() > 0);
        }
    }
    let matches = find_overlapping(&patterns, t);
    annotations_from_matches(&citations, t, matches)
}

} // verus!
