//! Where the characters of a text stand among the bytes of its encoding.
use vstd::prelude::*;
use vstd::string::*;
use vstd::utf8::*;

verus! {

/// How many bytes the first `i` characters take.
pub open spec fn offset(t: Seq<char>, i: int) -> int {
    encode_utf8(t.take(i)).len() as int
}

/// The encoding of a text is that of its parts in a row.
pub proof fn encode_concat(a: Seq<char>, b: Seq<char>)
    ensures
        encode_utf8(a + b) == encode_utf8(a) + encode_utf8(b),
    decreases a.len(),
{
    if a.len() == 0 {
        assert(a + b =~= b);
        assert(encode_utf8(a) + encode_utf8(b) =~= encode_utf8(b));
    } else {
        encode_concat(a.drop_first(), b);
        assert((a + b).drop_first() =~= a.drop_first() + b);
        assert(encode_scalar(a[0] as u32) + (encode_utf8(a.drop_first()) + encode_utf8(b))
            =~= encode_scalar(a[0] as u32) + encode_utf8(a.drop_first()) + encode_utf8(b));
    }
}

/// The bytes between two offsets encode the characters between them.
pub proof fn encode_between(t: Seq<char>, i: int, j: int)
    requires
        0 <= i <= j <= t.len(),
    ensures
        0 <= offset(t, i) <= offset(t, j) <= encode_utf8(t).len(),
        encode_utf8(t).subrange(offset(t, i), offset(t, j)) == encode_utf8(t.subrange(i, j)),
        encode_utf8(t).skip(offset(t, i)) == encode_utf8(t.skip(i)),
        i == t.len() ==> offset(t, i) == encode_utf8(t).len(),
{
    let a = t.take(i);
    let b = t.subrange(i, j);
    let c = t.skip(j);
    assert(t =~= a + (b + c));
    assert(t.take(j) =~= a + b);
    assert(t.skip(i) =~= b + c);
    encode_concat(a, b + c);
    encode_concat(b, c);
    encode_concat(a, b);
    assert(encode_utf8(t).subrange(offset(t, i), offset(t, j)) =~= encode_utf8(b));
    assert(encode_utf8(t).skip(offset(t, i)) =~= encode_utf8(t.skip(i)));
    if i == t.len() {
        assert(a =~= t);
    }
}

/// One character more takes at least one byte more.
pub proof fn offset_grows(t: Seq<char>, i: int)
    requires
        0 <= i < t.len(),
    ensures
        offset(t, i + 1) == offset(t, i) + encode_scalar(t[i] as u32).len(),
        offset(t, i) < offset(t, i + 1),
{
    let one = seq![t[i]];
    assert(t.take(i + 1) =~= t.take(i) + one);
    encode_concat(t.take(i), one);
    assert(one.drop_first() =~= Seq::<char>::empty());
    assert(encode_utf8(one.drop_first()) =~= Seq::<u8>::empty());
    assert(encode_utf8(one) =~= encode_scalar(t[i] as u32));
}

/// Offsets stand in the order of the characters.
pub proof fn offset_increases(t: Seq<char>, i: int, j: int)
    requires
        0 <= i < j <= t.len(),
    ensures
        offset(t, i) < offset(t, j),
    decreases j - i,
{
    offset_grows(t, j - 1);
    if i < j - 1 {
        offset_increases(t, i, j - 1);
    }
}

/// Where the encoding of one text begins another's, the text begins the other.
pub proof fn encoded_prefix(p: Seq<char>, t: Seq<char>)
    requires
        encode_utf8(p).len() <= encode_utf8(t).len(),
        encode_utf8(t).take(encode_utf8(p).len() as int) == encode_utf8(p),
    ensures
        p.len() <= t.len(),
        t.take(p.len() as int) == p,
    decreases p.len(),
{
    if p.len() == 0 {
        assert(t.take(0) =~= p);
    } else {
        let bp = encode_utf8(p);
        let bt = encode_utf8(t);
        encode_utf8_first_scalar(p);
        assert(bp.len() > 0);
        if t.len() == 0 {
            assert(false);
        }
        encode_utf8_first_scalar(t);
        assert forall|x: int| 0 <= x < bp.len() implies bt[x] == #[trigger] bp[x] by {
            assert(bt.take(bp.len() as int)[x] == bp[x]);
        }
        assert(bt[0] == bp[0]);
        assert(decode_first_scalar(bt) == decode_first_scalar(bp));
        char_u32_cast(p[0], p[0] as u32);
        char_u32_cast(t[0], t[0] as u32);
        assert(t[0] == p[0]);
        let e = encode_scalar(p[0] as u32);
        let rp = encode_utf8(p.drop_first());
        let rt = encode_utf8(t.drop_first());
        assert(bp =~= e + rp);
        assert(bt =~= e + rt);
        assert forall|x: int| 0 <= x < rp.len() implies rt[x] == #[trigger] rp[x] by {
            assert(bp[e.len() + x] == rp[x]);
            assert(bt[e.len() + x] == rt[x]);
        }
        assert(rt.take(rp.len() as int) =~= rp);
        encoded_prefix(p.drop_first(), t.drop_first());
        assert(t.take(p.len() as int) =~= p) by {
            assert forall|x: int| 0 <= x < p.len() implies t[x] == #[trigger] p[x] by {
                if x > 0 {
                    assert(t.drop_first().take(p.len() - 1)[x - 1] == p.drop_first()[x - 1]);
                }
            }
        }
    }
}

/// A boundary between characters is the offset of some character, or the end.
pub proof fn boundary_offset(t: Seq<char>, s: int) -> (i: int)
    requires
        valid_utf8(encode_utf8(t)),
        is_char_boundary(encode_utf8(t), s),
        0 <= s <= encode_utf8(t).len(),
    ensures
        0 <= i <= t.len(),
        offset(t, i) == s,
    decreases t.len(),
{
    if s == 0 {
        assert(t.take(0) =~= Seq::<char>::empty());
        0
    } else {
        let b = encode_utf8(t);
        encode_utf8_first_scalar(t);
        let k = length_of_first_scalar(b);
        let rest = t.drop_first();
        assert(pop_first_scalar(b) =~= encode_utf8(rest));
        encode_utf8_valid_utf8(rest);
        assert(is_char_boundary(encode_utf8(rest), s - k));
        assert(s - k >= 0) by {
            reveal_with_fuel(is_char_boundary, 2);
        }
        let i = boundary_offset(rest, s - k);
        assert(t.take(i + 1).drop_first() =~= rest.take(i));
        i + 1
    }
}

/// Where the encoding of a text that is not empty stands among the bytes of
/// another, the text stands among its characters.
pub proof fn occurrence_of_bytes(t: Seq<char>, p: Seq<char>, s: int, e: int) -> (i: int)
    requires
        p.len() > 0,
        0 <= s <= e <= encode_utf8(t).len(),
        encode_utf8(t).subrange(s, e) == encode_utf8(p),
    ensures
        0 <= i,
        i + p.len() <= t.len(),
        offset(t, i) == s,
        offset(t, (i + p.len()) as int) == e,
        t.subrange(i, (i + p.len()) as int) == p,
{
    let b = encode_utf8(t);
    let bp = encode_utf8(p);
    encode_utf8_valid_utf8(t);
    encode_utf8_valid_utf8(p);
    encode_utf8_first_scalar(p);
    assert(bp.len() > 0);
    is_char_boundary_start_end_of_seq(bp);
    is_char_boundary_iff_not_is_continuation_byte(bp, 0);
    assert(b[s] == bp[0]) by {
        assert(b.subrange(s, e)[0] == bp[0]);
    }
    is_char_boundary_iff_not_is_continuation_byte(b, s);
    let i = boundary_offset(t, s);
    encode_between(t, i, i);
    let rest = t.skip(i);
    assert(encode_utf8(rest) == b.skip(s));
    assert(b.skip(s).take(bp.len() as int) =~= b.subrange(s, e));
    encoded_prefix(p, rest);
    assert(t.subrange(i, (i + p.len()) as int) =~= p) by {
        assert forall|x: int| 0 <= x < p.len() implies t[i + x] == #[trigger] p[x] by {
            assert(rest.take(p.len() as int)[x] == p[x]);
        }
    }
    encode_between(t, i, (i + p.len()) as int);
    i
}

} // verus!
