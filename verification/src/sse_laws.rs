//! Server-sent events are read as they were written.
use crate::json::JsonView;
use crate::json_codec;
use crate::seqs;
use crate::sse;
use crate::sse::FieldsView;
use crate::text;
use vstd::prelude::*;

verus! {

/// White space at either end is taken off, and nothing else.
pub proof fn white_space_is_trimmed(before: Seq<char>, s: Seq<char>, after: Seq<char>)
    requires
        forall|i: int| 0 <= i < before.len() ==> text::white(#[trigger] before[i]),
        forall|i: int| 0 <= i < after.len() ==> text::white(#[trigger] after[i]),
        s.len() > 0,
        !text::white(s[0]),
        !text::white(s.last()),
    ensures
        text::trimmed(before + s + after) == s,
{
    let all = before + s + after;
    text::trimmed_start_shape(all);
    let t = text::trimmed_start(all);
    let k = all.len() - t.len();
    assert(all[before.len() as int] == s[0]);
    if k < before.len() {
        assert(t[0] == all[k]);
        assert(all[k] == before[k]);
    }
    assert(k == before.len());
    assert(t =~= s + after);
    text::trimmed_end_shape(t);
    let e = text::trimmed_end(t);
    assert(t[s.len() - 1] == s.last());
    if e.len() > s.len() {
        assert(e.last() == t[e.len() - 1]);
        assert(t[e.len() - 1] == after[e.len() - 1 - s.len()]);
    }
    assert(e.len() == s.len());
    assert(e =~= s);
}

/// The characters that count as white space among those of ASCII.
pub proof fn white_space_of_ascii(c: char)
    requires
        c as u32 <= 0x7F,
    ensures
        text::white(c) <==> c == ' ' || c == '\t' || c == '\n' || c == '\r' || c as u32 == 0xB
            || c as u32 == 0xC,
{
}

// ---------------------------------------------------------------------------
// Lines
// ---------------------------------------------------------------------------

/// Whether a text is one line.
pub open spec fn is_line(s: Seq<char>) -> bool {
    forall|i: int| 0 <= i < s.len() ==> #[trigger] s[i] != '\n' && s[i] != '\r'
}

/// The lines after a place are those of what follows it.
proof fn lines_from_skip(s: Seq<char>, from: int)
    requires
        0 <= from <= s.len(),
    ensures
        text::lines_from(s, from) == text::lines_of(s.skip(from)),
    decreases s.len() - from,
{
    let rest = s.skip(from);
    if from < s.len() {
        text::position_from_is_first(s, '\n', from);
        text::position_from_is_first(rest, '\n', 0);
        let p = text::position_from(s, '\n', from);
        let q = text::position_from(rest, '\n', 0);
        if q < rest.len() {
            assert(s[from + q] == '\n');
        }
        if p < s.len() {
            assert(rest[p - from] == '\n');
        }
        assert(p == from + q) by {
            if p < from + q {
                assert(rest[p - from] != '\n');
            }
            if p > from + q {
                assert(s[from + q] != '\n');
            }
        }
        assert(rest.subrange(0, q) =~= s.subrange(from, p));
        if p < s.len() {
            lines_from_skip(s, p + 1);
            lines_from_skip(rest, q + 1);
            assert(rest.skip(q + 1) =~= s.skip(p + 1));
        } else {
            assert(rest.subrange(0, rest.len() as int) =~= s.subrange(from, s.len() as int));
        }
    } else {
        assert(rest =~= Seq::<char>::empty());
    }
}

/// A line ends at a line feed, or at a carriage return and a line feed; what
/// follows is read as lines of its own. The last line needs no end.
pub proof fn lines_are_read(line: Seq<char>, rest: Seq<char>)
    requires
        is_line(line),
    ensures
        text::lines_of(line + seq!['\n'] + rest) == seq![line] + text::lines_of(rest),
        text::lines_of(line + seq!['\r', '\n'] + rest) == seq![line] + text::lines_of(rest),
        line.len() > 0 ==> text::lines_of(line) == seq![line],
        text::lines_of(Seq::empty()).len() == 0,
{
    let n = line.len() as int;
    let a = line + seq!['\n'] + rest;
    text::position_from_is_first(a, '\n', 0);
    assert(a[n] == '\n');
    let p = text::position_from(a, '\n', 0);
    if p < n {
        assert(a[p] == line[p]);
    }
    assert(p == n);
    assert(a.subrange(0, n) =~= line);
    assert(n > 0 ==> line.last() == line[n - 1]);
    lines_from_skip(a, n + 1);
    assert(a.skip(n + 1) =~= rest);
    let b = line + seq!['\r', '\n'] + rest;
    text::position_from_is_first(b, '\n', 0);
    assert(b[n] == '\r');
    assert(b[n + 1] == '\n');
    let q = text::position_from(b, '\n', 0);
    if q < n {
        assert(b[q] == line[q]);
    }
    assert(q == n + 1);
    assert(b.subrange(0, n + 1) =~= line.push('\r'));
    assert(line.push('\r').drop_last() =~= line);
    lines_from_skip(b, n + 2);
    assert(b.skip(n + 2) =~= rest);
    text::position_from_is_first(line, '\n', 0);
    assert(line.subrange(0, n) =~= line);
}

// ---------------------------------------------------------------------------
// Blocks
// ---------------------------------------------------------------------------

/// Whether every line feed of a block is followed by a line that is not empty.
pub open spec fn is_sse_block(block: Seq<char>) -> bool {
    forall|i: int|
        0 <= i < block.len() && #[trigger] block[i] == '\n' ==> i + 1 < block.len() && block[i + 1]
            != '\n' && block[i + 1] != '\r'
}

proof fn no_break_before(s: Seq<char>, i: int, n: int)
    requires
        0 <= i <= n < s.len(),
        forall|k: int| i <= k < n ==> #[trigger] sse::break_len(s, k) == 0,
        sse::break_len(s, n) > 0,
    ensures
        sse::break_from(s, i) == n,
    decreases n - i,
{
    if i < n {
        assert(sse::break_len(s, i) == 0);
        no_break_before(s, i + 1, n);
    }
}

/// A block ends at an empty line, with or without carriage returns, and what
/// follows it is left.
pub proof fn blocks_are_read(block: Seq<char>, rest: Seq<char>)
    requires
        is_sse_block(block),
    ensures
        sse::first_block(block + seq!['\n', '\n'] + rest) == Some((block, rest)),
        sse::first_block(block + seq!['\r', '\n', '\r', '\n'] + rest) == Some((block, rest)),
{
    let n = block.len() as int;
    let a = block + seq!['\n', '\n'] + rest;
    assert(a[n] == '\n' && a[n + 1] == '\n');
    assert forall|k: int| 0 <= k < n implies #[trigger] sse::break_len(a, k) == 0 by {
        assert(a[k] == block[k]);
        assert(k + 1 < n ==> a[k + 1] == block[k + 1]);
        assert(k + 2 < n ==> a[k + 2] == block[k + 2]);
    }
    no_break_before(a, 0, n);
    assert(a.take(n) =~= block);
    assert(a.skip(n + 2) =~= rest);
    let b = block + seq!['\r', '\n', '\r', '\n'] + rest;
    assert(b[n] == '\r' && b[n + 1] == '\n' && b[n + 2] == '\r' && b[n + 3] == '\n');
    assert forall|k: int| 0 <= k < n implies #[trigger] sse::break_len(b, k) == 0 by {
        assert(b[k] == block[k]);
        assert(k + 1 < n ==> b[k + 1] == block[k + 1]);
        assert(k + 2 < n ==> b[k + 2] == block[k + 2]);
    }
    no_break_before(b, 0, n);
    assert(b.take(n) =~= block);
    assert(b.skip(n + 4) =~= rest);
}

/// Without an empty line there is no block yet.
pub proof fn unfinished_blocks_wait(s: Seq<char>)
    requires
        is_line(s),
    ensures
        sse::first_block(s) is None,
{
    no_break_in_line(s, 0);
}

proof fn no_break_in_line(s: Seq<char>, i: int)
    requires
        is_line(s),
        0 <= i <= s.len(),
    ensures
        sse::break_from(s, i) == s.len(),
    decreases s.len() - i,
{
    if i < s.len() {
        no_break_in_line(s, i + 1);
    }
}

// ---------------------------------------------------------------------------
// Fields
// ---------------------------------------------------------------------------

/// The value of a field is what follows its name and a colon, without one space
/// after the colon.
pub proof fn fields_are_read(field: Seq<char>, value: Seq<char>)
    ensures
        sse::field_value(field + ": "@ + value, field) == Some(value),
        value.len() == 0 || value[0] != ' ' ==> sse::field_value(field + ":"@ + value, field)
            == Some(value),
{
    reveal_strlit(": ");
    reveal_strlit(":");
    let a = field + ": "@ + value;
    assert(a.take((field + ": "@).len() as int) =~= field + ": "@);
    assert(a.skip((field + ": "@).len() as int) =~= value);
    let b = field + ":"@ + value;
    assert(b.take((field + ":"@).len() as int) =~= field + ":"@);
    assert(b.skip((field + ":"@).len() as int) =~= value);
    let spaced = field + ": "@;
    if value.len() > 0 && value[0] != ' ' {
        assert(b[field.len() as int + 1] == value[0]);
        assert(spaced[field.len() as int + 1] == ' ');
        if text::has_prefix(b, spaced) {
            assert(b.take(spaced.len() as int)[field.len() as int + 1] == ' ');
        }
    }
}

/// The fields of a block after one line more, by the line's name.
proof fn line_is_taken(fields: FieldsView, value: Seq<char>)
    ensures
        sse::with_line()(fields, "data"@ + ": "@ + value) == (FieldsView {
            data: fields.data.push(value),
            ..fields
        }),
        sse::with_line()(fields, "event"@ + ": "@ + value) == (FieldsView {
            event: Some(text::trimmed(value)),
            ..fields
        }),
{
    fields_are_read("data"@, value);
    fields_are_read("event"@, value);
    reveal_strlit("data");
    reveal_strlit("event");
    reveal_strlit(": ");
    reveal_strlit(":");
    let line = "data"@ + ": "@ + value;
    assert(line[0] == 'd');
    let long = "event"@ + ": "@;
    let short = "event"@ + ":"@;
    assert(long[0] == 'e' && short[0] == 'e');
    if text::has_prefix(line, long) {
        assert(line.take(long.len() as int)[0] == 'e');
    }
    if text::has_prefix(line, short) {
        assert(line.take(short.len() as int)[0] == 'e');
    }
}

/// A line of data, as one that is sent, adds to the data; a line of an event
/// names the event.
pub proof fn a_line_of_data_adds_up(block: Seq<char>, value: Seq<char>)
    requires
        is_line(block),
        block.len() > 0,
        is_line(value),
    ensures
        ({
            let more = block + seq!['\n'] + ("data"@ + ": "@ + value);
            &&& sse::block_fields(more).data == sse::block_fields(block).data.push(value)
            &&& sse::block_fields(more).event == sse::block_fields(block).event
        }),
{
    reveal_strlit("data");
    reveal_strlit(": ");
    let line = "data"@ + ": "@ + value;
    assert forall|i: int| 0 <= i < line.len() implies #[trigger] line[i] != '\n' && line[i]
        != '\r' by {
        if i >= 6 {
            assert(line[i] == value[i - 6]);
        }
    }
    lines_are_read(block, line);
    lines_are_read(line, Seq::empty());
    assert(text::lines_of(block + seq!['\n'] + line) =~= seq![block, line]);
    reveal_with_fuel(seqs::walked, 3);
    let start = FieldsView { event: None, data: Seq::empty() };
    let lines = seq![block, line];
    assert(seq![block][0] == lines[0]);
    line_is_taken(sse::with_line()(start, block), value);
}

/// Any other line changes nothing.
pub proof fn other_lines_are_passed_over(fields: FieldsView, line: Seq<char>)
    requires
        line.len() == 0 || (line[0] != 'd' && line[0] != 'e'),
    ensures
        sse::with_line()(fields, line) == fields,
{
    reveal_strlit("data");
    reveal_strlit("event");
    reveal_strlit(": ");
    reveal_strlit(":");
    let names = seq!["event"@ + ": "@, "event"@ + ":"@, "data"@ + ": "@, "data"@ + ":"@];
    assert forall|i: int| 0 <= i < 4 implies !text::has_prefix(line, #[trigger] names[i]) by {
        if text::has_prefix(line, names[i]) {
            assert(line.take(names[i].len() as int)[0] == names[i][0]);
            assert(line[0] == names[i][0]);
        }
    }
    assert(!text::has_prefix(line, names[0]));
    assert(!text::has_prefix(line, names[1]));
    assert(!text::has_prefix(line, names[2]));
    assert(!text::has_prefix(line, names[3]));
}

// ---------------------------------------------------------------------------
// Events
// ---------------------------------------------------------------------------

/// The block of an event.
pub open spec fn sent_block(event: Seq<char>, data: Seq<char>) -> Seq<char> {
    "event"@ + ": "@ + event + seq!['\n'] + ("data"@ + ": "@ + data)
}

proof fn sent_block_lines(event: Seq<char>, data: Seq<char>)
    requires
        is_line(event),
        is_line(data),
    ensures
        is_sse_block(sent_block(event, data)),
        text::lines_of(sent_block(event, data)) == seq![
            "event"@ + ": "@ + event,
            "data"@ + ": "@ + data,
        ],
{
    reveal_strlit("data");
    reveal_strlit("event");
    reveal_strlit(": ");
    let a = "event"@ + ": "@ + event;
    let b = "data"@ + ": "@ + data;
    let block = sent_block(event, data);
    assert(block =~= a + seq!['\n'] + b);
    assert forall|i: int| 0 <= i < a.len() implies #[trigger] a[i] != '\n' && a[i] != '\r' by {
        if i >= 7 {
            assert(a[i] == event[i - 7]);
        }
    }
    assert forall|i: int| 0 <= i < b.len() implies #[trigger] b[i] != '\n' && b[i] != '\r' by {
        if i >= 6 {
            assert(b[i] == data[i - 6]);
        }
    }
    lines_are_read(a, b);
    lines_are_read(b, Seq::empty());
    assert(seq![a] + seq![b] =~= seq![a, b]);
    assert forall|i: int| 0 <= i < block.len() && #[trigger] block[i] == '\n' implies i + 1
        < block.len() && block[i + 1] != '\n' && block[i + 1] != '\r' by {
        if i < a.len() {
            assert(block[i] == a[i]);
        } else if i > a.len() {
            assert(block[i] == b[i - a.len() - 1]);
        } else {
            assert(block[i + 1] == b[0]);
        }
    }
}

/// An event that is sent is read as one block with its name and its data, and
/// what is sent after it follows.
pub proof fn events_are_read_back(event: Seq<char>, payload: JsonView, rest: Seq<char>)
    requires
        is_line(event),
        text::trimmed(event) == event,
        is_line(json_codec::written(payload)),
    ensures
        sse::first_block(sse::event_text(event, payload) + rest) == Some(
            (sent_block(event, json_codec::written(payload)), rest),
        ),
        sse::block_fields(sent_block(event, json_codec::written(payload))) == (FieldsView {
            event: Some(event),
            data: seq![json_codec::written(payload)],
        }),
{
    let data = json_codec::written(payload);
    let block = sent_block(event, data);
    sent_block_lines(event, data);
    blocks_are_read(block, rest);
    reveal_strlit("data");
    reveal_strlit("event");
    reveal_strlit(": ");
    reveal_strlit("event: ");
    reveal_strlit("\ndata: ");
    reveal_strlit("\n\n");
    assert("event: "@ =~= "event"@ + ": "@);
    assert("\ndata: "@ =~= seq!['\n'] + "data"@ + ": "@);
    assert("\n\n"@ =~= seq!['\n', '\n']);
    assert(sse::event_text(event, payload) + rest =~= block + seq!['\n', '\n'] + rest);
    let start = FieldsView { event: None, data: Seq::empty() };
    reveal_with_fuel(seqs::walked, 3);
    line_is_taken(start, event);
    line_is_taken(FieldsView { event: Some(event), ..start }, data);
    assert(sse::block_fields(block).data =~= seq![data]);
}

} // verus!
