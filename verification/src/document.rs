//! Editing the text of a document by lines and characters.
//!
//! A place is told by its line and by its byte within the line, both from
//! zero.

use crate::framing::lemma_encode_concat;
use crate::lean_client::LeanClient;
use crate::lsp::{LspPosition, LspRange};
use crate::text::{decimal, decimal_text, lemma_same_bytes, result_view};
use vstd::prelude::*;
use vstd::string::*;
use vstd::utf8::*;

verus! {

/// The lines of a text in bytes: what stands between the line feeds.
pub open spec fn byte_lines(bytes: Seq<u8>) -> Seq<Seq<u8>>
    decreases bytes.len(),
{
    if bytes.len() == 0 {
        seq![Seq::empty()]
    } else {
        let front = byte_lines(bytes.drop_last());
        if bytes.last() == 10 {
            front.push(Seq::empty())
        } else {
            front.drop_last().push(front.last().push(bytes.last()))
        }
    }
}

/// The lengths of the lines of a text.
pub open spec fn line_lengths(bytes: Seq<u8>) -> Seq<nat> {
    byte_lines(bytes).map_values(|line: Seq<u8>| line.len())
}

/// The byte at which a place stands, given the lengths of the lines. A
/// character behind the end of its line stands at that end, and a line behind
/// the last one a byte behind the end of the text.
pub open spec fn offset_at(lengths: Seq<nat>, line: nat, character: nat) -> nat
    decreases lengths.len(),
{
    if lengths.len() == 0 {
        0
    } else if line == 0 {
        if character < lengths[0] {
            character
        } else {
            lengths[0]
        }
    } else {
        lengths[0] + 1 + offset_at(lengths.drop_first(), (line - 1) as nat, character)
    }
}

/// The lengths of texts in bytes.
pub open spec fn text_lengths(lines: Seq<&str>) -> Seq<nat> {
    lines.map_values(|line: &str| line.spec_bytes().len())
}

/// There is at least one line, and the lines and the line feeds between them
/// are all of the text.
pub proof fn lemma_byte_lines(bytes: Seq<u8>)
    ensures
        byte_lines(bytes).len() > 0,
        byte_lines(bytes).len() <= bytes.len() + 1,
        offset_at(
            line_lengths(bytes),
            (byte_lines(bytes).len() - 1) as nat,
            byte_lines(bytes).last().len(),
        ) == bytes.len(),
    decreases bytes.len(),
{
    let lines = byte_lines(bytes);
    let lengths = line_lengths(bytes);
    if bytes.len() == 0 {
        assert(lengths.len() == 1 && lengths[0] == 0);
    } else {
        let rest = bytes.drop_last();
        let front = byte_lines(rest);
        let before = line_lengths(rest);
        lemma_byte_lines(rest);
        let n = before.len();
        lemma_offset_split(before, (n - 1) as nat, front.last().len());
        lemma_offset_split(lengths, (lengths.len() - 1) as nat, lines.last().len());
        if bytes.last() == 10 {
            assert(lengths =~= before.push(0));
            assert(lengths.take(n as int) =~= before);
            assert(before =~= before.take(n - 1).push(before[n - 1]));
            lemma_span_push(before.take(n - 1), before[n - 1]);
        } else {
            assert(lengths.take(n - 1) =~= before.take(n - 1));
        }
    }
}

/// The length of some lines together with a line feed behind each.
pub open spec fn span(lengths: Seq<nat>) -> nat
    decreases lengths.len(),
{
    if lengths.len() == 0 {
        0
    } else {
        lengths[0] + 1 + span(lengths.drop_first())
    }
}

proof fn lemma_span_push(lengths: Seq<nat>, last: nat)
    ensures
        span(lengths.push(last)) == span(lengths) + last + 1,
    decreases lengths.len(),
{
    if lengths.len() == 0 {
        assert(lengths.push(last).drop_first() =~= Seq::<nat>::empty());
        assert(span(Seq::<nat>::empty()) == 0);
    } else {
        assert(lengths.push(last).drop_first() =~= lengths.drop_first().push(last));
        lemma_span_push(lengths.drop_first(), last);
    }
}

/// A place in a line that there is stands behind the lines before it, and
/// within its line.
pub proof fn lemma_offset_split(lengths: Seq<nat>, line: nat, character: nat)
    ensures
        line < lengths.len() ==> offset_at(lengths, line, character) == span(
            lengths.take(line as int),
        ) + (if character < lengths[line as int] {
            character
        } else {
            lengths[line as int]
        }),
        line >= lengths.len() ==> offset_at(lengths, line, character) == span(lengths),
    decreases lengths.len(),
{
    if lengths.len() > 0 && line > 0 {
        let rest = lengths.drop_first();
        lemma_offset_split(rest, (line - 1) as nat, character);
        if line < lengths.len() {
            assert(lengths.take(line as int).drop_first() =~= rest.take(line - 1));
        }
    } else if lengths.len() > 0 {
        assert(lengths.take(0).len() == 0);
    }
}

/// The lines before one are no longer than all lines.
proof fn lemma_span_take(lengths: Seq<nat>, n: int)
    requires
        0 <= n < lengths.len(),
    ensures
        span(lengths.take(n)) + lengths[n] + 1 <= span(lengths),
    decreases lengths.len(),
{
    if n == 0 {
        assert(lengths.take(0).len() == 0);
    } else {
        let rest = lengths.drop_first();
        lemma_span_take(rest, n - 1);
        assert(lengths.take(n).drop_first() =~= rest.take(n - 1));
    }
}

/// No place stands further than a byte behind the end of the text, and one in
/// a line that there is stands within the text.
pub proof fn offset_within_text(bytes: Seq<u8>, line: nat, character: nat)
    ensures
        line < byte_lines(bytes).len() ==> offset_at(line_lengths(bytes), line, character)
            <= bytes.len(),
        line >= byte_lines(bytes).len() ==> offset_at(line_lengths(bytes), line, character)
            == bytes.len() + 1,
{
    let lengths = line_lengths(bytes);
    let n = lengths.len();
    lemma_byte_lines(bytes);
    lemma_offset_split(lengths, line, character);
    lemma_offset_split(lengths, (n - 1) as nat, lengths[n - 1]);
    assert(lengths =~= lengths.take(n - 1).push(lengths[n - 1]));
    lemma_span_push(lengths.take(n - 1), lengths[n - 1]);
    if line < n {
        lemma_span_take(lengths, line as int);
    }
}

/// The lines of a text, without the line feeds between them.
pub fn split_lines<'a>(text: &'a str) -> (lines: Vec<&'a str>)
    ensures
        lines@.len() == byte_lines(encode_utf8(text@)).len(),
        forall|i: int|
            0 <= i < lines@.len() ==> (#[trigger] lines@[i]).spec_bytes() == byte_lines(
                encode_utf8(text@),
            )[i],
{
    let bytes = text.as_bytes();
    let mut lines: Vec<&'a str> = Vec::new();
    let mut rest: &'a str = text;
    let mut start: usize = 0;
    assert(bytes@.take(0).len() == 0);
    assert(bytes@.skip(0) =~= bytes@);
    for i in 0..bytes.len()
        invariant
            bytes@ == encode_utf8(text@),
            start <= i,
            i <= bytes@.len(),
            rest.spec_bytes() == bytes@.skip(start as int),
            byte_lines(bytes@.take(i as int)).len() == lines@.len() + 1,
            byte_lines(bytes@.take(i as int)).last() =~= bytes@.subrange(start as int, i as int),
            forall|k: int|
                0 <= k < lines@.len() ==> (#[trigger] lines@[k]).spec_bytes() == byte_lines(
                    bytes@.take(i as int),
                )[k],
    {
        assert(bytes@.take(i + 1).drop_last() =~= bytes@.take(i as int));
        if bytes[i] == 10 {
            proof {
                encode_utf8_valid_utf8(rest@);
                is_char_boundary_iff_not_is_continuation_byte(rest.spec_bytes(), i - start);
            }
            let (line, tail) = rest.split_at(i - start);
            assert(line.spec_bytes() =~= bytes@.subrange(start as int, i as int));
            assert(tail.spec_bytes() =~= bytes@.skip(i as int));
            proof {
                encode_utf8_valid_utf8(tail@);
                reveal_with_fuel(is_char_boundary, 2);
                assert(tail.spec_bytes()[0] == 10);
            }
            let (feed, next) = tail.split_at(1);
            lines.push(line);
            rest = next;
            start = i + 1;
            assert(rest.spec_bytes() =~= bytes@.skip(start as int));
        }
    }
    assert(bytes@.take(bytes@.len() as int) =~= bytes@);
    assert(rest.spec_bytes() =~= bytes@.subrange(start as int, bytes@.len() as int));
    lines.push(rest);
    lines
}

/// Where an edit begins and ends in a text, in bytes.
pub open spec fn edit_offsets(text: Seq<char>, range: LspRange) -> (nat, nat) {
    let lengths = line_lengths(encode_utf8(text));
    (
        offset_at(lengths, range.start.line as nat, range.start.character as nat),
        offset_at(lengths, range.end.line as nat, range.end.character as nat),
    )
}

/// Whether an edit begins and ends in lines of the text.
pub open spec fn edit_in_bounds(text: Seq<char>, range: LspRange) -> bool {
    let n = byte_lines(encode_utf8(text)).len();
    range.start.line < n && range.end.line < n
}

/// Whether an edit begins and ends between characters of the text.
pub open spec fn edit_on_characters(text: Seq<char>, range: LspRange) -> bool {
    let bytes = encode_utf8(text);
    let (start, end) = edit_offsets(text, range);
    is_char_boundary(bytes, start as int) && is_char_boundary(bytes, end as int)
}

/// A text after an edit, or why the edit is refused.
pub open spec fn edited(text: Seq<char>, range: LspRange, new_text: Seq<char>) -> Result<
    Seq<char>,
    Seq<char>,
> {
    let bytes = encode_utf8(text);
    let (start, end) = edit_offsets(text, range);
    if !edit_in_bounds(text, range) {
        Err(
            "Edit range out of bounds: lines "@ + decimal(range.start.line as nat) + "-"@ + decimal(
                range.end.line as nat,
            ) + ", document has "@ + decimal(byte_lines(bytes).len()) + " lines"@,
        )
    } else if start > end {
        Err(
            "Invalid edit range: start offset ("@ + decimal(start) + ") > end offset ("@ + decimal(
                end,
            ) + ")"@,
        )
    } else if !edit_on_characters(text, range) {
        Err(
            "Invalid edit range: start offset ("@ + decimal(start) + ") or end offset ("@ + decimal(
                end,
            ) + ") is inside a character"@,
        )
    } else {
        Ok(
            decode_utf8(bytes.take(start as int)) + new_text + decode_utf8(bytes.skip(end as int)),
        )
    }
}

/// The lengths of the lines of a text, measured on the lines themselves.
proof fn lemma_split_lengths(lines: Seq<&str>, bytes: Seq<u8>)
    requires
        lines.len() == byte_lines(bytes).len(),
        forall|i: int|
            0 <= i < lines.len() ==> (#[trigger] lines[i]).spec_bytes() == byte_lines(bytes)[i],
    ensures
        text_lengths(lines) == line_lengths(bytes),
{
    assert(text_lengths(lines) =~= line_lengths(bytes));
}

/// The byte at which a place in a line of a text stands.
fn offset_in(lines: &Vec<&str>, text: &str, place: LspPosition) -> (offset: usize)
    requires
        lines@.len() == byte_lines(encode_utf8(text@)).len(),
        forall|i: int|
            0 <= i < lines@.len() ==> (#[trigger] lines@[i]).spec_bytes() == byte_lines(
                encode_utf8(text@),
            )[i],
        place.line < lines@.len(),
    ensures
        offset == offset_at(
            line_lengths(encode_utf8(text@)),
            place.line as nat,
            place.character as nat,
        ),
        offset <= encode_utf8(text@).len(),
{
    proof {
        lemma_split_lengths(lines@, encode_utf8(text@));
        offset_within_text(encode_utf8(text@), place.line as nat, place.character as nat);
    }
    // The length of a text that is in memory can be told.
    let _length: usize = text.as_bytes().len();
    LeanClient::position_to_offset(lines.as_slice(), place.line, place.character)
}

/// Puts new text in the place of a stretch of a text.
pub fn edit_text(text: &str, range: LspRange, new_text: &str) -> (result: Result<String, String>)
    ensures
        result_view(result) == edited(text@, range, new_text@),
{
    let lines = split_lines(text);
    let count: u64 = lines.len() as u64;
    if range.start.line >= count || range.end.line >= count {
        let mut error = "Edit range out of bounds: lines ".to_owned();
        error.append(decimal_text(range.start.line as u128).as_str());
        error.append("-");
        error.append(decimal_text(range.end.line as u128).as_str());
        error.append(", document has ");
        error.append(decimal_text(count as u128).as_str());
        error.append(" lines");
        return Err(error);
    }
    let start: usize = offset_in(&lines, text, range.start);
    let end: usize = offset_in(&lines, text, range.end);
    if start > end {
        let mut error = "Invalid edit range: start offset (".to_owned();
        error.append(decimal_text(start as u128).as_str());
        error.append(") > end offset (");
        error.append(decimal_text(end as u128).as_str());
        error.append(")");
        return Err(error);
    }
    proof {
        encode_utf8_valid_utf8(text@);
    }
    if !text.is_char_boundary(start) || !text.is_char_boundary(end) {
        let mut error = "Invalid edit range: start offset (".to_owned();
        error.append(decimal_text(start as u128).as_str());
        error.append(") or end offset (");
        error.append(decimal_text(end as u128).as_str());
        error.append(") is inside a character");
        return Err(error);
    }
    let (head, _) = text.split_at(start);
    let (_, tail) = text.split_at(end);
    let mut result = head.to_owned();
    result.append(new_text);
    result.append(tail);
    proof {
        let bytes = encode_utf8(text@);
        encode_utf8_decode_utf8(head@);
        encode_utf8_decode_utf8(tail@);
        assert(bytes.subrange(0, start as int) =~= bytes.take(start as int));
        assert(bytes.subrange(end as int, bytes.len() as int) =~= bytes.skip(end as int));
    }
    Ok(result)
}

/// The stretch that is all of a text.
pub open spec fn whole_range(text: Seq<char>) -> LspRange {
    let lines = byte_lines(encode_utf8(text));
    LspRange {
        start: LspPosition { line: 0, character: 0 },
        end: LspPosition { line: (lines.len() - 1) as u64, character: lines.last().len() as u64 },
    }
}

/// The stretch that is all of a text.
pub fn whole_text_range(text: &str) -> (range: LspRange)
    ensures
        range == whole_range(text@),
{
    let lines = split_lines(text);
    proof {
        lemma_byte_lines(encode_utf8(text@));
    }
    let last: usize = lines.len() - 1;
    LspRange {
        start: LspPosition { line: 0, character: 0 },
        end: LspPosition { line: last as u64, character: lines[last].as_bytes().len() as u64 },
    }
}

/// Putting new text in the place of all of a text leaves the new text, and
/// nothing of the old one.
pub proof fn replacing_all_gives_new_text(text: Seq<char>, new_text: Seq<char>)
    requires
        encode_utf8(text).len() <= u64::MAX,
    ensures
        edited(text, whole_range(text), new_text) == Ok::<Seq<char>, Seq<char>>(new_text),
{
    let bytes = encode_utf8(text);
    let lengths = line_lengths(bytes);
    let lines = byte_lines(bytes);
    lemma_byte_lines(bytes);
    offset_within_text(bytes, (lines.len() - 1) as nat, 0);
    assert(lengths[lines.len() - 1] == lines.last().len());
    lemma_offset_split(lengths, (lines.len() - 1) as nat, lines.last().len());
    assert(lines.last().len() <= bytes.len());
    encode_utf8_valid_utf8(text);
    is_char_boundary_start_end_of_seq(bytes);
    assert(offset_at(lengths, 0, 0) == 0);
    assert(bytes.take(0) =~= Seq::<u8>::empty());
    assert(bytes.skip(bytes.len() as int) =~= Seq::<u8>::empty());
    assert(decode_utf8(Seq::<u8>::empty()) =~= Seq::<char>::empty());
    assert(Seq::<char>::empty() + new_text + Seq::<char>::empty() =~= new_text);
}

/// A line stands in the text behind the lines before it.
proof fn lemma_line_place(bytes: Seq<u8>, line: int)
    requires
        0 <= line < byte_lines(bytes).len(),
    ensures
        ({
            let start = span(line_lengths(bytes).take(line)) as int;
            let found = byte_lines(bytes)[line];
            &&& start + found.len() <= bytes.len()
            &&& bytes.subrange(start, start + found.len()) == found
        }),
    decreases bytes.len(),
{
    let lines = byte_lines(bytes);
    let lengths = line_lengths(bytes);
    let start = span(lengths.take(line)) as int;
    lemma_byte_lines(bytes);
    lemma_offset_split(lengths, (lines.len() - 1) as nat, lines.last().len());
    if bytes.len() == 0 {
        assert(lengths.take(0).len() == 0);
        assert(bytes.subrange(start, start) =~= lines[line]);
    } else {
        let rest = bytes.drop_last();
        let front = byte_lines(rest);
        lemma_byte_lines(rest);
        if line < front.len() {
            lemma_line_place(rest, line);
            assert(lengths.take(line) =~= line_lengths(rest).take(line));
            assert(rest.subrange(start, start + front[line].len()) =~= bytes.subrange(
                start,
                start + front[line].len(),
            ));
        }
        if line == lines.len() - 1 {
            assert(start + lines[line].len() == bytes.len());
            if bytes.last() == 10 {
                assert(bytes.subrange(start, start) =~= lines[line]);
            } else {
                assert(bytes.subrange(start, bytes.len() as int) =~= bytes.subrange(
                    start,
                    bytes.len() - 1,
                ).push(bytes.last()));
            }
        }
    }
}

/// The lines of a text up to a place: those before its line, and its line up
/// to it.
pub proof fn lemma_lines_before(bytes: Seq<u8>, line: int, character: int)
    requires
        0 <= line < byte_lines(bytes).len(),
        0 <= character <= byte_lines(bytes)[line].len(),
    ensures
        ({
            let offset = span(line_lengths(bytes).take(line)) + character;
            &&& offset <= bytes.len()
            &&& byte_lines(bytes.take(offset)) == byte_lines(bytes).take(line).push(
                byte_lines(bytes)[line].take(character),
            )
        }),
    decreases bytes.len(),
{
    let lines = byte_lines(bytes);
    let lengths = line_lengths(bytes);
    let offset = span(lengths.take(line)) + character;
    let goal = lines.take(line).push(lines[line].take(character));
    lemma_line_place(bytes, line);
    lemma_byte_lines(bytes);
    lemma_offset_split(lengths, (lines.len() - 1) as nat, lines.last().len());
    if offset == bytes.len() {
        assert(bytes.take(offset) =~= bytes);
        if line < lines.len() - 1 {
            assert(lengths.take(lines.len() - 1)[line] == lines[line].len());
            lemma_span_take(lengths.take(lines.len() - 1), line);
            assert(lengths.take(lines.len() - 1).take(line) =~= lengths.take(line));
        }
        assert(lines[line].take(character) =~= lines[line]);
        assert(goal =~= lines);
    } else {
        let rest = bytes.drop_last();
        let front = byte_lines(rest);
        lemma_byte_lines(rest);
        assert(line < front.len());
        assert(lengths.take(line) =~= line_lengths(rest).take(line));
        assert(character <= front[line].len());
        lemma_lines_before(rest, line, character);
        assert(rest.take(offset) =~= bytes.take(offset));
        assert(front[line].take(character) =~= lines[line].take(character));
        assert(front.take(line) =~= lines.take(line));
    }
}

/// What follows a text changes none of its lines but the last, and that one it
/// can only make longer.
pub proof fn lemma_lines_grow(head: Seq<u8>, tail: Seq<u8>)
    ensures
        ({
            let lines = byte_lines(head);
            let grown = byte_lines(head + tail);
            &&& 0 < lines.len() <= grown.len()
            &&& grown.take(lines.len() - 1) == lines.take(lines.len() - 1)
            &&& grown[lines.len() - 1].len() >= lines.last().len()
        }),
    decreases tail.len(),
{
    let lines = byte_lines(head);
    lemma_byte_lines(head);
    if tail.len() == 0 {
        assert(head + tail =~= head);
    } else {
        lemma_lines_grow(head, tail.drop_last());
        assert((head + tail).drop_last() =~= head + tail.drop_last());
        let before = byte_lines(head + tail.drop_last());
        let grown = byte_lines(head + tail);
        assert(grown.take(lines.len() - 1) =~= before.take(lines.len() - 1));
    }
}

/// Bytes without a line feed lengthen the last line.
pub proof fn lemma_last_line_grows(head: Seq<u8>, tail: Seq<u8>)
    requires
        !tail.contains(10),
    ensures
        byte_lines(head + tail) == byte_lines(head).drop_last().push(
            byte_lines(head).last() + tail,
        ),
    decreases tail.len(),
{
    let lines = byte_lines(head);
    lemma_byte_lines(head);
    if tail.len() == 0 {
        assert(head + tail =~= head);
        assert(lines.last() + tail =~= lines.last());
        assert(lines.drop_last().push(lines.last()) =~= lines);
    } else {
        let rest = tail.drop_last();
        assert(tail.contains(tail[tail.len() - 1]));
        assert forall|i: int| 0 <= i < rest.len() implies rest[i] != 10 by {
            assert(tail.contains(tail[i]));
        }
        lemma_last_line_grows(head, rest);
        assert((head + tail).drop_last() =~= head + rest);
        assert(byte_lines(head + rest).drop_last() =~= lines.drop_last());
        assert((lines.last() + rest).push(tail.last()) =~= lines.last() + tail);
    }
}

/// No character but the line feed has the line feed's byte.
proof fn lemma_no_line_feed_byte(scalar: u32)
    requires
        scalar != 10,
    ensures
        forall|i: int|
            0 <= i < encode_scalar(scalar).len() ==> #[trigger] encode_scalar(scalar)[i] != 10,
{
    assert(scalar <= 0x7f && scalar != 10 ==> (scalar & 0x7F) as u8 != 10) by (bit_vector);
    assert(0xC0u8 | ((scalar >> 6) & 0x1F) as u8 >= 0x80) by (bit_vector);
    assert(0xE0u8 | ((scalar >> 12) & 0x0F) as u8 >= 0x80) by (bit_vector);
    assert(0xF0u8 | ((scalar >> 18) & 0x7) as u8 >= 0x80) by (bit_vector);
    assert(0x80u8 | (scalar & 0x3F) as u8 >= 0x80) by (bit_vector);
    assert(0x80u8 | ((scalar >> 6) & 0x3F) as u8 >= 0x80) by (bit_vector);
    assert(0x80u8 | ((scalar >> 12) & 0x3F) as u8 >= 0x80) by (bit_vector);
}

/// A text without a line feed has none in its bytes.
pub proof fn lemma_no_line_feed(text: Seq<char>)
    requires
        !text.contains('\n'),
    ensures
        !encode_utf8(text).contains(10),
    decreases text.len(),
{
    if text.len() > 0 {
        let rest = text.drop_first();
        assert(text.contains(text[0]));
        assert forall|i: int| 0 <= i < rest.len() implies rest[i] != '\n' by {
            assert(text.contains(text[i + 1]));
        }
        lemma_no_line_feed(rest);
        let c: char = text[0];
        let first = encode_scalar(c as u32);
        char_u32_cast(c, c as u32);
        assert(encode_utf8(text) =~= first + encode_utf8(rest));
        lemma_no_line_feed_byte(c as u32);
        assert forall|i: int| 0 <= i < encode_utf8(text).len() implies encode_utf8(text)[i]
            != 10 by {
            if i >= first.len() {
                assert(encode_utf8(rest).contains(encode_utf8(rest)[i - first.len()]));
            }
        }
    }
}

/// The end of a text before another is between characters.
pub proof fn lemma_boundary_between(head: Seq<char>, tail: Seq<char>)
    ensures
        is_char_boundary(encode_utf8(head) + encode_utf8(tail), encode_utf8(head).len() as int),
{
    let a = encode_utf8(head);
    let b = encode_utf8(tail);
    encode_utf8_valid_utf8(head);
    encode_utf8_valid_utf8(tail);
    valid_utf8_concat(a, b);
    if b.len() == 0 {
        assert(a + b =~= a);
        is_char_boundary_start_end_of_seq(a);
    } else {
        is_char_boundary_start_end_of_seq(b);
        is_char_boundary_iff_not_is_continuation_byte(b, 0);
        is_char_boundary_iff_not_is_continuation_byte(a + b, a.len() as int);
        assert((a + b)[a.len() as int] == b[0]);
    }
}

/// The two parts of a text that are left of it are texts.
pub proof fn lemma_parts(text: Seq<char>, from: int, to: int)
    requires
        0 <= from <= to <= encode_utf8(text).len(),
        is_char_boundary(encode_utf8(text), from),
        is_char_boundary(encode_utf8(text), to),
    ensures
        encode_utf8(decode_utf8(encode_utf8(text).take(from))) == encode_utf8(text).take(from),
        encode_utf8(decode_utf8(encode_utf8(text).skip(to))) == encode_utf8(text).skip(to),
{
    let bytes = encode_utf8(text);
    encode_utf8_valid_utf8(text);
    valid_utf8_split(bytes, from);
    valid_utf8_split(bytes, to);
    assert(bytes.subrange(0, from) =~= bytes.take(from));
    assert(bytes.subrange(to, bytes.len() as int) =~= bytes.skip(to));
    decode_utf8_encode_utf8(bytes.take(from));
    decode_utf8_encode_utf8(bytes.skip(to));
}

/// The encoding of three texts in a row is that of each in a row.
pub proof fn lemma_encode_three(a: Seq<char>, b: Seq<char>, c: Seq<char>)
    ensures
        encode_utf8(a + b + c) == encode_utf8(a) + encode_utf8(b) + encode_utf8(c),
{
    lemma_encode_concat(a + b, c);
    lemma_encode_concat(a, b);
}

/// Bytes without a line feed that are put in at a place of a text stand there:
/// they begin at that place, and end as many characters behind it as they are.
proof fn lemma_place_kept(
    bytes: Seq<u8>,
    line: int,
    character: int,
    added: Seq<u8>,
    back: Seq<u8>,
)
    requires
        0 <= line < byte_lines(bytes).len(),
        0 <= character <= byte_lines(bytes)[line].len(),
        !added.contains(10),
    ensures
        ({
            let from = span(line_lengths(bytes).take(line)) + character;
            let after = bytes.take(from) + added + back;
            let lengths = line_lengths(after);
            &&& line < byte_lines(after).len()
            &&& offset_at(lengths, line as nat, character as nat) == from
            &&& offset_at(lengths, line as nat, (character + added.len()) as nat) == from
                + added.len()
        }),
{
    let lines = byte_lines(bytes);
    let lengths = line_lengths(bytes);
    let from = span(lengths.take(line)) + character;
    let front = bytes.take(from);
    let after = front + added + back;
    let new_lines = byte_lines(after);
    let new_lengths = line_lengths(after);
    let grown = lines[line].take(character) + added;
    lemma_lines_before(bytes, line, character);
    lemma_last_line_grows(front, added);
    lemma_lines_grow(front + added, back);
    assert(byte_lines(front).drop_last() =~= lines.take(line));
    assert(byte_lines(front + added) =~= lines.take(line).push(grown));
    assert(byte_lines(front + added).take(line) =~= lines.take(line));
    assert(new_lengths.take(line) =~= lengths.take(line)) by {
        assert forall|k: int| 0 <= k < line implies new_lengths[k] == lengths[k] by {
            assert(new_lines.take(line)[k] == lines.take(line)[k]);
        }
    }
    lemma_offset_split(new_lengths, line as nat, character as nat);
    lemma_offset_split(new_lengths, line as nat, (character + added.len()) as nat);
}

/// A stretch of one line.
pub open spec fn line_range(line: u64, start: u64, end: u64) -> LspRange {
    LspRange {
        start: LspPosition { line, character: start },
        end: LspPosition { line, character: end },
    }
}

/// An edit within one line, whose new text holds no line feed, is undone by the
/// edit from the same place over the new text, with the text that was removed.
pub proof fn inverse_edit_restores_text(
    text: Seq<char>,
    line: u64,
    start: u64,
    end: u64,
    new_text: Seq<char>,
    removed: Seq<char>,
)
    requires
        line < byte_lines(encode_utf8(text)).len(),
        start <= end <= byte_lines(encode_utf8(text))[line as int].len(),
        encode_utf8(removed) == byte_lines(encode_utf8(text))[line as int].subrange(
            start as int,
            end as int,
        ),
        !new_text.contains('\n'),
        start + encode_utf8(new_text).len() <= u64::MAX,
        edited(text, line_range(line, start, end), new_text) is Ok,
    ensures
        edited(
            edited(text, line_range(line, start, end), new_text)->Ok_0,
            line_range(line, start, (start + encode_utf8(new_text).len()) as u64),
            removed,
        ) == Ok::<Seq<char>, Seq<char>>(text),
{
    let bytes = encode_utf8(text);
    let lengths = line_lengths(bytes);
    let added = encode_utf8(new_text);
    let base = span(lengths.take(line as int)) as int;
    let from = base + start;
    let to = base + end;
    let front = bytes.take(from);
    let back = bytes.skip(to);
    let head = decode_utf8(front);
    let tail = decode_utf8(back);
    let changed = head + new_text + tail;

    lemma_offset_split(lengths, line as nat, start as nat);
    lemma_offset_split(lengths, line as nat, end as nat);
    lemma_line_place(bytes, line as int);
    assert(edited(text, line_range(line, start, end), new_text) == Ok::<Seq<char>, Seq<char>>(
        changed,
    ));
    lemma_parts(text, from, to);
    lemma_encode_three(head, new_text, tail);
    assert(encode_utf8(changed) == front + added + back);

    // The new text stands where the edit began, between characters.
    lemma_no_line_feed(new_text);
    lemma_place_kept(bytes, line as int, start as int, added, back);
    lemma_encode_concat(new_text, tail);
    lemma_boundary_between(head, new_text + tail);
    assert(front + (added + back) =~= front + added + back);
    lemma_encode_concat(head, new_text);
    lemma_boundary_between(head + new_text, tail);

    // What is put together again is the text.
    let after = front + added + back;
    assert(after.take(from) =~= front);
    assert(after.skip(from + added.len()) =~= back);
    lemma_encode_three(head, removed, tail);
    assert(encode_utf8(removed) =~= bytes.subrange(from, to));
    assert(front + bytes.subrange(from, to) + back =~= bytes);
    lemma_same_bytes(head + removed + tail, text);
}

}
