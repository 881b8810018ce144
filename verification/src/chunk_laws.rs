//! The text of a stream does not depend on how its bytes are cut into chunks.
use crate::char_offsets;
use crate::sse;
use vstd::prelude::*;
use vstd::utf8::*;

verus! {

/// The text of bytes in a row is the texts in a row.
proof fn decode_concat(a: Seq<u8>, b: Seq<u8>)
    requires
        valid_utf8(a),
        valid_utf8(b),
    ensures
        valid_utf8(a + b),
        decode_utf8(a + b) == decode_utf8(a) + decode_utf8(b),
{
    valid_utf8_concat(a, b);
    decode_utf8_encode_utf8(a);
    decode_utf8_encode_utf8(b);
    char_offsets::encode_concat(decode_utf8(a), decode_utf8(b));
    encode_utf8_decode_utf8(decode_utf8(a) + decode_utf8(b));
}

/// Which bytes may begin a character that takes two bytes or more.
proof fn first_bytes(s: Seq<u8>)
    requires
        s.len() > 0,
        valid_first_scalar(s),
    ensures
        length_of_first_scalar(s) <= s.len(),
        length_of_first_scalar(s) == 1 ==> s[0] < 0x80,
        length_of_first_scalar(s) == 2 ==> 0xC2 <= s[0] <= 0xDF && sse::continues(s[1]),
        length_of_first_scalar(s) == 3 ==> 0xE0 <= s[0] <= 0xEF && sse::begins_longer(s[0], s[1])
            && sse::continues(s[1]) && sse::continues(s[2]),
        length_of_first_scalar(s) == 4 ==> 0xF0 <= s[0] <= 0xF4 && sse::begins_longer(s[0], s[1])
            && sse::continues(s[1]) && sse::continues(s[2]) && sse::continues(s[3]),
        1 <= length_of_first_scalar(s) <= 4,
{
    if is_leading_byte_width_1(s[0]) {
    } else if is_leading_byte_width_2(s[0]) {
        let a = s[0];
        let b = s[1];
        assert(0xC0 <= a <= 0xDF && 0x80 <= codepoint_width_2(a, b) ==> 0xC2 <= a) by (bit_vector);
    } else if is_leading_byte_width_3(s[0]) {
        let a = s[0];
        let b = s[1];
        let c = s[2];
        assert(a == 0xE0 && 0x800 <= codepoint_width_3(a, b, c) && 0x80 <= b <= 0xBF ==> 0xA0 <= b)
            by (bit_vector);
        assert(a == 0xED && !(0xD800 <= codepoint_width_3(a, b, c) <= 0xDFFF) && 0x80 <= b <= 0xBF
            ==> b <= 0x9F) by (bit_vector);
    } else {
        let a = s[0];
        let b = s[1];
        let c = s[2];
        let d = s[3];
        assert(0xF0 <= a <= 0xF7 && codepoint_width_4(a, b, c, d) <= 0x10FFFF ==> a <= 0xF4)
            by (bit_vector);
        assert(a == 0xF0 && 0x10000 <= codepoint_width_4(a, b, c, d) && 0x80 <= b <= 0xBF ==> 0x90
            <= b) by (bit_vector);
        assert(a == 0xF4 && codepoint_width_4(a, b, c, d) <= 0x10FFFF && 0x80 <= b <= 0xBF ==> b
            <= 0x8F) by (bit_vector);
    }
}

/// What waits at the end of the first `k` bytes does not depend on a whole
/// character at the beginning.
proof fn first_character_does_not_wait(s: Seq<u8>, k: int)
    requires
        valid_utf8(s),
        s.len() > 0,
        length_of_first_scalar(s) <= k <= s.len(),
    ensures
        sse::pending_len(s.take(k)) == sse::pending_len(
            pop_first_scalar(s).take(k - length_of_first_scalar(s)),
        ),
{
    first_bytes(s);
    let n = length_of_first_scalar(s);
    let rest = pop_first_scalar(s);
    let t = s.take(k);
    let u = rest.take(k - n);
    assert(forall|i: int| 0 <= i < u.len() ==> u[i] == t[i + n]);
    if u.len() > 0 {
        assert(valid_utf8(rest));
        first_bytes(rest);
        assert(u[0] == rest[0]);
    }
}

/// Of the first bytes of a text, those that wait are the beginning of a
/// character: what comes before them is text, and so is what they begin.
proof fn cut_before_what_waits(s: Seq<u8>, k: int)
    requires
        valid_utf8(s),
        0 <= k <= s.len(),
    ensures
        sse::pending_len(s.take(k)) <= k,
        valid_utf8(sse::whole(s.take(k))),
        valid_utf8(s.skip(k - sse::pending_len(s.take(k)))),
    decreases s.len(),
{
    let t = s.take(k);
    if k == 0 {
        assert(sse::whole(t) =~= Seq::<u8>::empty());
        assert(s.skip(0) =~= s);
    } else {
        first_bytes(s);
        let n = length_of_first_scalar(s);
        if k < n {
            assert(sse::pending_len(t) == k);
            assert(sse::whole(t) =~= Seq::<u8>::empty());
            assert(s.skip(0) =~= s);
        } else {
            let rest = pop_first_scalar(s);
            first_character_does_not_wait(s, k);
            cut_before_what_waits(rest, k - n);
            let p = sse::pending_len(t);
            let w = sse::whole(t);
            assert(w.len() == k - p);
            assert(w.subrange(n, w.len() as int) =~= sse::whole(rest.take(k - n)));
            assert(pop_first_scalar(w) =~= sse::whole(rest.take(k - n)));
            assert(s.skip(k - p) =~= rest.skip(k - n - p));
        }
    }
}

/// What waits does not depend on whole text before it.
proof fn text_does_not_wait(s: Seq<u8>, p: int, k: int)
    requires
        valid_utf8(s),
        0 <= p <= k <= s.len(),
        valid_utf8(s.take(p)),
    ensures
        sse::pending_len(s.take(k)) == sse::pending_len(s.skip(p).take(k - p)),
    decreases s.len(),
{
    if p == 0 {
        assert(s.skip(0) =~= s);
    } else {
        let n = length_of_first_scalar(s);
        let head = s.take(p);
        first_bytes(s);
        first_bytes(head);
        assert(head[0] == s[0]);
        assert(length_of_first_scalar(head) == n);
        let rest = pop_first_scalar(s);
        assert(pop_first_scalar(head) =~= rest.take(p - n));
        first_character_does_not_wait(s, k);
        text_does_not_wait(rest, p - n, k - n);
        assert(rest.skip(p - n) =~= s.skip(p));
    }
}

/// Cutting the beginning of a text does not matter, whatever text it is.
#[verifier::rlimit(60)]
proof fn cuts_of_text_do_not_matter(a: Seq<u8>, b: Seq<u8>, c: Seq<u8>)
    requires
        valid_utf8(a + b + c),
    ensures
        sse::strict_text(a) is Some,
        sse::strict_text(sse::pending(a) + b) is Some,
        sse::strict_text(a + b) == Some(
            sse::strict_text(a)->0 + sse::strict_text(sse::pending(a) + b)->0,
        ),
        sse::pending(sse::pending(a) + b) == sse::pending(a + b),
{
    let s = a + b + c;
    let ab = a + b;
    assert(s.take(a.len() as int) =~= a);
    assert(s.take(ab.len() as int) =~= ab);
    cut_before_what_waits(s, a.len() as int);
    cut_before_what_waits(s, ab.len() as int);
    let p = a.len() - sse::pending_len(a);
    let w = sse::whole(a);
    assert(s.take(p) =~= w);
    text_does_not_wait(s, p, ab.len() as int);
    let later = sse::pending(a) + b;
    assert(s.skip(p).take(ab.len() - p) =~= later);
    cut_before_what_waits(s.skip(p), ab.len() - p);
    assert(sse::whole(ab) =~= w + sse::whole(later));
    assert(sse::pending(ab) =~= sse::pending(later));
    decode_concat(w, sse::whole(later));
}

/// Bytes that complete what waits at the end of `b`.
pub open spec fn completion(b: Seq<u8>) -> Seq<u8> {
    let p = sse::pending(b);
    if p.len() == 0 {
        Seq::empty()
    } else if p.len() == 1 {
        if p[0] < 0xE0 {
            seq![0x80u8]
        } else if p[0] == 0xE0 {
            seq![0xA0u8, 0x80u8]
        } else if p[0] < 0xF0 {
            seq![0x80u8, 0x80u8]
        } else if p[0] == 0xF0 {
            seq![0x90u8, 0x80u8, 0x80u8]
        } else {
            seq![0x80u8, 0x80u8, 0x80u8]
        }
    } else if p.len() == 2 {
        if p[0] < 0xF0 {
            seq![0x80u8]
        } else {
            seq![0x80u8, 0x80u8]
        }
    } else {
        seq![0x80u8]
    }
}

/// The bytes of one character are text.
proof fn one_character(s: Seq<u8>)
    requires
        s.len() > 0,
        valid_first_scalar(s),
        length_of_first_scalar(s) == s.len(),
    ensures
        valid_utf8(s),
{
    let rest = pop_first_scalar(s);
    assert(rest.len() == 0);
    assert(valid_utf8(rest));
}

/// What waits can always be completed: there are bytes with which it is text.
pub proof fn what_waits_can_be_completed(b: Seq<u8>)
    ensures
        valid_utf8(sse::pending(b) + completion(b)),
{
    let p = sse::pending(b);
    let s = p + completion(b);
    if p.len() == 0 {
        assert(s =~= Seq::<u8>::empty());
    } else {
        let n = b.len();
        assert(forall|i: int| 0 <= i < p.len() ==> p[i] == b[n - p.len() + i]);
        let s0 = s[0];
        if s0 < 0xE0 {
            let s1 = s[1];
            assert(0xC2 <= s0 <= 0xDF ==> 0x80 <= codepoint_width_2(s0, s1) < 0x800)
                by (bit_vector);
        } else if s0 < 0xF0 {
            let s1 = s[1];
            let s2 = s[2];
            assert(sse::begins_longer(s0, s1));
            assert(0xE0 <= s0 <= 0xEF && 0x80 <= s1 <= 0xBF && (s0 == 0xE0 ==> 0xA0 <= s1)
                ==> 0x800 <= codepoint_width_3(s0, s1, s2)) by (bit_vector);
            assert(0xE0 <= s0 <= 0xEF && 0x80 <= s1 <= 0xBF && (s0 == 0xED ==> s1 <= 0x9F) && 0x80
                <= s2 <= 0xBF ==> !(0xD800 <= codepoint_width_3(s0, s1, s2) <= 0xDFFF))
                by (bit_vector);
        } else {
            let s1 = s[1];
            let s2 = s[2];
            let s3 = s[3];
            assert(sse::begins_longer(s0, s1));
            assert(0xF0 <= s0 <= 0xF4 && 0x80 <= s1 <= 0xBF && (s0 == 0xF0 ==> 0x90 <= s1) && (s0
                == 0xF4 ==> s1 <= 0x8F) ==> 0x10000 <= codepoint_width_4(s0, s1, s2, s3)
                <= 0x10FFFF) by (bit_vector);
        }
        one_character(s);
    }
}

/// What was read as text is text with the bytes that complete what waits.
proof fn completed_reading_is_text(b: Seq<u8>, c: Seq<u8>)
    requires
        sse::strict_text(b) is Some,
        valid_utf8(sse::pending(b) + c),
    ensures
        valid_utf8(b + c),
{
    valid_utf8_concat(sse::whole(b), sse::pending(b) + c);
    assert(sse::whole(b) + (sse::pending(b) + c) =~= b + c);
}

/// The text of a stream does not depend on how its bytes are cut into chunks:
/// whether two chunks come one after the other or as one, they are text or they
/// are not, and where they are, the same text is added and the same bytes wait.
pub proof fn cuts_do_not_matter(a: Seq<u8>, b: Seq<u8>)
    ensures
        sse::strict_text(a + b) is Some <==> sse::strict_text(a) is Some && sse::strict_text(
            sse::pending(a) + b,
        ) is Some,
        sse::strict_text(a + b) is Some ==> sse::strict_text(a + b) == Some(
            sse::strict_text(a)->0 + sse::strict_text(sse::pending(a) + b)->0,
        ),
        sse::strict_text(a + b) is Some ==> sse::pending(sse::pending(a) + b) == sse::pending(
            a + b,
        ),
{
    let later = sse::pending(a) + b;
    if sse::strict_text(a + b) is Some {
        let c = completion(a + b);
        what_waits_can_be_completed(a + b);
        completed_reading_is_text(a + b, c);
        cuts_of_text_do_not_matter(a, b, c);
    }
    if sse::strict_text(a) is Some && sse::strict_text(later) is Some {
        let c = completion(later);
        what_waits_can_be_completed(later);
        completed_reading_is_text(later, c);
        assert(later + c =~= sse::pending(a) + (b + c));
        completed_reading_is_text(a, b + c);
        assert(a + (b + c) =~= a + b + c);
        cuts_of_text_do_not_matter(a, b, c);
    }
}

/// A text that has come whole leaves nothing waiting, and is what was read.
pub proof fn whole_text_is_read(s: Seq<u8>)
    requires
        valid_utf8(s),
    ensures
        sse::strict_text(s) == Some(decode_utf8(s)),
        sse::pending(s).len() == 0,
{
    cut_before_what_waits(s, s.len() as int);
    assert(s.take(s.len() as int) =~= s);
    nothing_waits(s);
    assert(sse::whole(s) =~= s);
}

proof fn nothing_waits(s: Seq<u8>)
    requires
        valid_utf8(s),
    ensures
        sse::pending_len(s) == 0,
    decreases s.len(),
{
    if s.len() > 0 {
        first_bytes(s);
        let n = length_of_first_scalar(s);
        first_character_does_not_wait(s, s.len() as int);
        assert(s.take(s.len() as int) =~= s);
        assert(pop_first_scalar(s).take(s.len() - n) =~= pop_first_scalar(s));
        nothing_waits(pop_first_scalar(s));
    }
}

} // verus!
