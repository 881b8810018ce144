//! Server-sent events: bytes into text, text into blocks, blocks into fields.
use crate::json_codec;
use crate::json::{Json, JsonView};
use crate::text;
use vstd::prelude::*;
use vstd::string::*;
use vstd::utf8::{decode_utf8, valid_utf8};

verus! {

// ---------------------------------------------------------------------------
// Bytes into text
// ---------------------------------------------------------------------------

/// Whether a byte continues the encoding of a character.
pub open spec fn continues(b: u8) -> bool {
    0x80 <= b <= 0xBF
}

/// Whether two bytes begin the encoding of a character that takes more than
/// two.
pub open spec fn begins_longer(a: u8, b: u8) -> bool {
    ||| a == 0xE0 && 0xA0 <= b <= 0xBF
    ||| 0xE1 <= a <= 0xEC && continues(b)
    ||| a == 0xED && 0x80 <= b <= 0x9F
    ||| 0xEE <= a <= 0xEF && continues(b)
    ||| a == 0xF0 && 0x90 <= b <= 0xBF
    ||| 0xF1 <= a <= 0xF3 && continues(b)
    ||| a == 0xF4 && 0x80 <= b <= 0x8F
}

/// How many bytes at the end of `b` begin the encoding of a character that the
/// bytes to come may complete.
pub open spec fn pending_len(b: Seq<u8>) -> nat {
    let n = b.len();
    if n >= 1 && 0xC2 <= b[n - 1] <= 0xF4 {
        1
    } else if n >= 2 && begins_longer(b[n - 2], b[n - 1]) {
        2
    } else if n >= 3 && 0xF0 <= b[n - 3] && begins_longer(b[n - 3], b[n - 2]) && continues(
        b[n - 1],
    ) {
        3
    } else {
        0
    }
}

/// The bytes of whole characters, and those that wait for more.
pub open spec fn whole(b: Seq<u8>) -> Seq<u8> {
    b.take(b.len() - pending_len(b))
}

pub open spec fn pending(b: Seq<u8>) -> Seq<u8> {
    b.skip(b.len() - pending_len(b))
}

fn is_begin_of_longer(a: u8, b: u8) -> (r: bool)
    ensures
        r == begins_longer(a, b),
{
    (a == 0xE0 && 0xA0 <= b && b <= 0xBF) || (0xE1 <= a && a <= 0xEC && 0x80 <= b && b <= 0xBF) || (a
        == 0xED && 0x80 <= b && b <= 0x9F) || (0xEE <= a && a <= 0xEF && 0x80 <= b && b <= 0xBF)
        || (a == 0xF0 && 0x90 <= b && b <= 0xBF) || (0xF1 <= a && a <= 0xF3 && 0x80 <= b && b
        <= 0xBF) || (a == 0xF4 && 0x80 <= b && b <= 0x8F)
}

fn count_pending(b: &Vec<u8>) -> (r: usize)
    ensures
        r == pending_len(b@),
        r <= b@.len(),
{
    let n: usize = b.len();
    if n >= 1 && 0xC2 <= b[n - 1] && b[n - 1] <= 0xF4 {
        1
    } else if n >= 2 && is_begin_of_longer(b[n - 2], b[n - 1]) {
        2
    } else if n >= 3 && 0xF0 <= b[n - 3] && is_begin_of_longer(b[n - 3], b[n - 2]) && 0x80 <= b[n
        - 1] && b[n - 1] <= 0xBF {
        3
    } else {
        0
    }
}

/// The bytes `from..to` of `b`.
pub fn bytes_between(b: &Vec<u8>, from: usize, to: usize) -> (r: Vec<u8>)
    requires
        from <= to <= b@.len(),
    ensures
        r@ == b@.subrange(from as int, to as int),
{
    let mut out: Vec<u8> = Vec::new();
    let mut i: usize = from;
    while i < to
        invariant
            from <= i <= to <= b@.len(),
            out@ == b@.subrange(from as int, i as int),
        decreases to - i,
    {
        out.push(b[i]);
        assert(b@.subrange(from as int, i + 1) =~= b@.subrange(from as int, i as int).push(
            b@[i as int],
        ));
        i = i + 1;
    }
    out
}

/// Adds the characters that bytes complete to `buffer`; what is no character
/// counts as U+FFFD. Bytes that wait for more stay in `remainder`.
pub fn append_utf8_safe(buffer: &mut String, remainder: &mut Vec<u8>, new_bytes: &[u8])
    ensures
        final(buffer)@ == old(buffer)@ + text::lossy_text(whole(old(remainder)@ + new_bytes@)),
        final(remainder)@ == pending(old(remainder)@ + new_bytes@),
{
    text::append_bytes(remainder, new_bytes);
    let count: usize = remainder.len() - count_pending(remainder);
    let head = bytes_between(remainder, 0, count);
    let tail = bytes_between(remainder, count, remainder.len());
    let ghost all = remainder@;
    assert(head@ =~= whole(all));
    assert(tail@ =~= pending(all));
    let s = text::utf8_lossy(head.as_slice());
    buffer.append(s.as_str());
    *remainder = tail;
}

/// The text that bytes add, or nothing where some of them are no characters.
pub open spec fn strict_text(b: Seq<u8>) -> Option<Seq<char>> {
    if valid_utf8(whole(b)) {
        Some(decode_utf8(whole(b)))
    } else {
        None
    }
}

/// Adds the characters that bytes complete to `buffer`. Bytes that wait for
/// more stay in `remainder`. Where some are no characters, nothing is added and
/// nothing waits.
pub fn append_whole_utf8(buffer: &mut String, remainder: &mut Vec<u8>, new_bytes: &[u8]) -> (r: bool)
    ensures
        r == (strict_text(old(remainder)@ + new_bytes@) is Some),
        final(buffer)@ == (match strict_text(old(remainder)@ + new_bytes@) {
            Some(s) => old(buffer)@ + s,
            None => old(buffer)@,
        }),
        final(remainder)@ == (if r {
            pending(old(remainder)@ + new_bytes@)
        } else {
            Seq::empty()
        }),
{
    text::append_bytes(remainder, new_bytes);
    let count: usize = remainder.len() - count_pending(remainder);
    let head = bytes_between(remainder, 0, count);
    let tail = bytes_between(remainder, count, remainder.len());
    let ghost all = remainder@;
    assert(head@ =~= whole(all));
    assert(tail@ =~= pending(all));
    match text::utf8_text(head.as_slice()) {
        Some(s) => {
            buffer.append(s.as_str());
            *remainder = tail;
            true
        },
        None => {
            *remainder = Vec::new();
            assert(remainder@ =~= Seq::<u8>::empty());
            false
        },
    }
}

// ---------------------------------------------------------------------------
// Text into blocks
// ---------------------------------------------------------------------------

/// How many characters the end of a block takes at `i`: an empty line, after a
/// line that ends with a line feed, with or without carriage returns. Zero
/// where no block ends.
pub open spec fn break_len(s: Seq<char>, i: int) -> int {
    if 0 <= i && i + 2 <= s.len() && s[i] == '\n' && s[i + 1] == '\n' {
        2
    } else if 0 <= i && i + 4 <= s.len() && s[i] == '\r' && s[i + 1] == '\n' && s[i + 2] == '\r'
        && s[i + 3] == '\n' {
        4
    } else {
        0
    }
}

/// Where the first block from `i` on ends; the length where none does.
pub open spec fn break_from(s: Seq<char>, i: int) -> int
    decreases s.len() - i,
{
    if i < 0 || i >= s.len() || break_len(s, i) > 0 {
        i
    } else {
        break_from(s, i + 1)
    }
}

/// The first block of a text, and what follows it.
pub open spec fn first_block(s: Seq<char>) -> Option<(Seq<char>, Seq<char>)> {
    let p = break_from(s, 0);
    if p < s.len() {
        Some((s.take(p), s.skip(p + break_len(s, p))))
    } else {
        None
    }
}

/// A block is shorter than the text it was taken from.
pub proof fn first_block_shortens(s: Seq<char>)
    ensures
        first_block(s) matches Some(p) ==> p.0.len() + 2 + p.1.len() <= s.len(),
{
    break_from_stops(s, 0);
}

proof fn break_from_stops(s: Seq<char>, i: int)
    requires
        0 <= i <= s.len(),
    ensures
        i <= break_from(s, i) <= s.len(),
        break_from(s, i) < s.len() ==> break_len(s, break_from(s, i)) > 0,
    decreases s.len() - i,
{
    if i < s.len() && break_len(s, i) == 0 {
        break_from_stops(s, i + 1);
    }
}

/// Takes the first block out of a text.
pub fn take_sse_block(buffer: &mut String) -> (r: Option<String>)
    ensures
        match r {
            Some(block) => first_block(old(buffer)@) == Some((block@, final(buffer)@)),
            None => first_block(old(buffer)@) is None && final(buffer)@ == old(buffer)@,
        },
{
    let cs = text::chars_of(buffer.as_str());
    let n: usize = cs.len();
    let mut i: usize = 0;
    while i < n
        invariant
            i <= n,
            n == cs@.len(),
            cs@ == old(buffer)@,
            buffer@ == old(buffer)@,
            break_from(cs@, 0) == break_from(cs@, i as int),
        decreases n - i,
    {
        let len: usize = if cs[i] == '\n' && n - i >= 2 && cs[i + 1] == '\n' {
            2
        } else if cs[i] == '\r' && n - i >= 4 && cs[i + 1] == '\n' && cs[i + 2] == '\r' && cs[i + 3]
            == '\n' {
            4
        } else {
            0
        };
        assert(len == break_len(cs@, i as int));
        if len > 0 {
            let block = text::string_of(&cs, 0, i);
            let rest = text::string_of(&cs, i + len, n);
            assert(block@ =~= cs@.take(i as int));
            assert(rest@ =~= cs@.skip(i + len));
            *buffer = rest;
            return Some(block);
        }
        i = i + 1;
    }
    None
}

// ---------------------------------------------------------------------------
// Blocks into fields
// ---------------------------------------------------------------------------

/// The value of a field, where the line holds that field.
pub open spec fn field_value(line: Seq<char>, field: Seq<char>) -> Option<Seq<char>> {
    match text::after_prefix(line, field + ": "@) {
        Some(v) => Some(v),
        None => text::after_prefix(line, field + ":"@),
    }
}

pub fn strip_sse_field(line: &str, field: &str) -> (r: Option<String>)
    ensures
        text::opt_string(r) == field_value(line@, field@),
{
    let spaced = text::concat2(field, ": ");
    match text::strip_prefix(line, spaced.as_str()) {
        Some(v) => Some(v),
        None => {
            let tight = text::concat2(field, ":");
            text::strip_prefix(line, tight.as_str())
        },
    }
}

/// The event and the data lines so far.
#[verifier::ext_equal]
pub struct FieldsView {
    pub event: Option<Seq<char>>,
    pub data: Seq<Seq<char>>,
}

/// The fields after one line more. A later event takes the place of an earlier
/// one; data lines add up.
pub open spec fn with_line() -> spec_fn(FieldsView, Seq<char>) -> FieldsView {
    |fields: FieldsView, line: Seq<char>|
        match field_value(line, "event"@) {
            Some(v) => FieldsView { event: Some(text::trimmed(v)), ..fields },
            None => match field_value(line, "data"@) {
                Some(v) => FieldsView { data: fields.data.push(v), ..fields },
                None => fields,
            },
        }
}

/// The fields of a block.
pub open spec fn block_fields(block: Seq<char>) -> FieldsView {
    let lines = text::lines_of(block);
    crate::seqs::walked(
        lines,
        with_line(),
        FieldsView { event: None, data: Seq::empty() },
        lines.len(),
    )
}

/// The fields of a block.
#[derive(Debug)]
pub struct Fields {
    pub event: Option<String>,
    pub data: Vec<String>,
}

impl View for Fields {
    type V = FieldsView;

    open spec fn view(&self) -> FieldsView {
        FieldsView { event: text::opt_string(self.event), data: text::texts(self.data@) }
    }
}

pub fn read_fields(block: &str) -> (r: Fields)
    ensures
        r@ == block_fields(block@),
{
    let lines = text::lines(block);
    let ghost views = text::texts(lines@);
    let ghost start = FieldsView { event: None, data: Seq::empty() };
    let mut fields = Fields { event: None, data: Vec::new() };
    let mut i: usize = 0;
    assert(fields@ =~= start);
    while i < lines.len()
        invariant
            i <= lines@.len(),
            views == text::texts(lines@),
            start == (FieldsView { event: None, data: Seq::empty() }),
            fields@ == crate::seqs::walked(views, with_line(), start, i as nat),
        decreases lines@.len() - i,
    {
        let line = lines[i].as_str();
        assert(views[i as int] == line@);
        let ghost before = fields@;
        match strip_sse_field(line, "event") {
            Some(v) => {
                fields.event = Some(text::trim(v.as_str()));
            },
            None => {
                if let Some(v) = strip_sse_field(line, "data") {
                    proof {
                        text::texts_push(fields.data@, v);
                    }
                    fields.data.push(v);
                }
            },
        }
        assert(fields@ =~= with_line()(before, line@));
        i = i + 1;
    }
    fields
}

/// An event as it is sent.
pub open spec fn event_text(event: Seq<char>, payload: JsonView) -> Seq<char> {
    "event: "@ + event + "\ndata: "@ + json_codec::written(payload) + "\n\n"@
}

pub fn anthropic_sse(event: &str, payload: &Json) -> (r: String)
    ensures
        r@ == event_text(event@, payload@),
{
    let data = json_codec::write(payload);
    text::concat5("event: ", event, "\ndata: ", data.as_str(), "\n\n")
}

} // verus!
