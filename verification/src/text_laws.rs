//! How texts are put together and taken apart.
use crate::text;
use vstd::prelude::*;

verus! {

/// A text that begins or ends with another does so, and what follows the
/// beginning is the rest.
pub proof fn beginnings_and_ends(a: Seq<char>, b: Seq<char>)
    ensures
        text::has_prefix(a + b, a),
        text::has_suffix(a + b, b),
        text::after_prefix(a + b, a) == Some(b),
{
    assert((a + b).take(a.len() as int) =~= a);
    assert((a + b).skip(a.len() as int) =~= b);
    assert((a + b).skip((a + b).len() - b.len()) =~= b);
}

/// Only what begins so is taken for it.
pub proof fn beginnings_are_kept(s: Seq<char>, p: Seq<char>)
    ensures
        text::after_prefix(s, p) matches Some(rest) ==> s == p + rest,
        text::has_prefix(s, p) ==> exists|rest: Seq<char>| s == #[trigger] (p + rest),
{
    if text::has_prefix(s, p) {
        let rest = s.skip(p.len() as int);
        assert(s =~= p + rest);
    }
}

/// A text is split at the first of a character.
pub proof fn texts_are_split(a: Seq<char>, c: char, b: Seq<char>)
    requires
        forall|i: int| 0 <= i < a.len() ==> #[trigger] a[i] != c,
    ensures
        text::split_at_first(a + seq![c] + b, c) == Some((a, b)),
        text::split_at_first(a, c) is None,
        text::before_first(a + seq![c] + b, c) == a,
        text::before_first(a, c) == a,
{
    let all = a + seq![c] + b;
    text::position_from_is_first(all, c, 0);
    text::position_from_is_first(a, c, 0);
    assert(all[a.len() as int] == c);
    let p = text::position(all, c);
    if p < a.len() {
        assert(all[p] == a[p]);
    }
    assert(all.take(p) =~= a);
    assert(all.skip(p + 1) =~= b);
    assert(a.take(a.len() as int) =~= a);
}

/// Texts are joined in their order, with what separates them between each two.
pub proof fn texts_are_joined(parts: Seq<Seq<char>>, part: Seq<char>, sep: Seq<char>)
    ensures
        text::joined(Seq::empty(), sep).len() == 0,
        text::joined(seq![part], sep) == part,
        parts.len() > 0 ==> text::joined(parts.push(part), sep) == text::joined(parts, sep) + sep
            + part,
{
    assert(parts.push(part).drop_last() =~= parts);
}

/// The value of digits grows by tens: each digit more makes ten times what stands
/// before it.
pub proof fn numbers_are_written_in_tens(n: nat, d: nat)
    requires
        d < 10,
    ensures
        d > 0 ==> text::decimal(d) == seq![((48 + d) as u32) as char],
        n > 0 ==> text::decimal(10 * n + d) == text::decimal(n).push(((48 + d) as u32) as char),
        text::decimal(0) == seq!['0'],
{
    if n > 0 {
        assert((10 * n + d) / 10 == n);
        assert((10 * n + d) % 10 == d as int);
    }
}

/// A number is read as what its digits stand for; nothing else is a number.
pub proof fn numbers_are_read(n: u64, s: Seq<char>)
    ensures
        text::parsed_u64(text::decimal(n as nat)) == Some(n),
        text::parsed_u64(Seq::empty()) is None,
        s.len() > 0 && text::parsed_u64(s) is Some ==> s[0] == '+' || ('0' <= s[0] && s[0] <= '9'),
{
    text::decimal_parses_back(n);
    if s.len() > 0 && s[0] != '+' && text::parsed_u64(s) is Some {
        assert(text::is_digit(s[0]));
    }
}

/// Whether a text is one word.
pub open spec fn is_word(s: Seq<char>) -> bool {
    s.len() > 0 && forall|i: int| 0 <= i < s.len() ==> !text::white(#[trigger] s[i])
}

/// A run of one kind of characters ends where the first of the other kind stands.
proof fn run_end_is(s: Seq<char>, from: int, of_white: bool, end: int)
    requires
        0 <= from <= end <= s.len(),
        forall|i: int| from <= i < end ==> text::white(#[trigger] s[i]) == of_white,
        end < s.len() ==> text::white(s[end]) != of_white,
    ensures
        text::run_end(s, from, of_white) == end,
    decreases end - from,
{
    if from < end {
        assert(text::white(s[from]) == of_white);
        run_end_is(s, from + 1, of_white, end);
    }
}

proof fn words_from_skip(s: Seq<char>, from: int)
    requires
        0 <= from <= s.len(),
    ensures
        text::words_from(s, from) == text::words_of(s.skip(from)),
    decreases s.len() - from,
{
    let rest = s.skip(from);
    if from < s.len() {
        run_end_shifts(s, from, from, true);
        let start = text::run_end(s, from, true);
        text::run_end_bounds(s, from, true);
        text::run_end_stops(s, from, true);
        run_end_shifts(s, from, start, false);
        let end = text::run_end(s, start, false);
        text::run_end_bounds(s, start, false);
        assert(text::run_end(rest, 0, true) == start - from);
        if start < s.len() {
            assert(text::run_end(rest, start - from, false) == end - from);
            assert(rest.subrange(start - from, end - from) =~= s.subrange(start, end));
            words_from_skip(s, end);
            words_from_skip(rest, end - from);
            assert(rest.skip(end - from) =~= s.skip(end));
        }
    } else {
        assert(rest =~= Seq::<char>::empty());
    }
}

proof fn run_end_shifts(s: Seq<char>, by: int, from: int, of_white: bool)
    requires
        0 <= by <= from <= s.len(),
    ensures
        text::run_end(s.skip(by), from - by, of_white) == text::run_end(s, from, of_white) - by,
    decreases s.len() - from,
{
    if from < s.len() {
        assert(s.skip(by)[from - by] == s[from]);
        if text::white(s[from]) == of_white {
            run_end_shifts(s, by, from + 1, of_white);
        }
    }
}

/// The words of a text are what stands between its white space.
pub proof fn words_are_found(before: Seq<char>, word: Seq<char>, rest: Seq<char>)
    requires
        forall|i: int| 0 <= i < before.len() ==> text::white(#[trigger] before[i]),
        is_word(word),
        rest.len() == 0 || text::white(rest[0]),
    ensures
        text::words_of(before + word + rest) == seq![word] + text::words_of(rest),
        text::words_of(before).len() == 0,
{
    let all = before + word + rest;
    let start = before.len() as int;
    let end = start + word.len();
    assert forall|i: int| 0 <= i < start implies text::white(#[trigger] all[i]) == true by {
        assert(all[i] == before[i]);
    }
    assert(all[start] == word[0]);
    run_end_is(all, 0, true, start);
    assert forall|i: int| start <= i < end implies text::white(#[trigger] all[i]) == false by {
        assert(all[i] == word[i - start]);
    }
    assert(end < all.len() ==> all[end] == rest[0]);
    run_end_is(all, start, false, end);
    assert(all.subrange(start, end) =~= word);
    words_from_skip(all, end);
    assert(all.skip(end) =~= rest);
    run_end_is(before, 0, true, before.len() as int);
}

} // verus!
