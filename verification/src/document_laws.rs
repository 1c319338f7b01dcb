//! What holds of edits, whatever their text and their place.

use crate::document::{
    byte_lines, edit_offsets, edited, lemma_boundary_between, lemma_byte_lines, lemma_encode_three,
    lemma_last_line_grows, lemma_lines_before, lemma_lines_grow, lemma_no_line_feed,
    lemma_offset_split, lemma_parts, line_lengths, offset_at, offset_within_text, span,
    whole_range,
};
use crate::framing::lemma_encode_concat;
use crate::lsp::{LspPosition, LspRange};
use crate::text::decimal;
use vstd::prelude::*;
use vstd::utf8::*;

verus! {

/// Bytes without a line feed are one line.
pub proof fn text_without_line_feed_is_one_line(bytes: Seq<u8>)
    requires
        !bytes.contains(10),
    ensures
        byte_lines(bytes) == seq![bytes],
{
    assert(Seq::<u8>::empty() + bytes =~= bytes);
    lemma_last_line_grows(Seq::empty(), bytes);
    assert(byte_lines(bytes) =~= seq![bytes]);
}

/// A line feed ends a line: the lines of two texts with a line feed between
/// them are those of the one and then those of the other.
pub proof fn line_feeds_end_lines(a: Seq<u8>, b: Seq<u8>)
    ensures
        byte_lines(a.push(10) + b) == byte_lines(a) + byte_lines(b),
    decreases b.len(),
{
    let lines = byte_lines(a);
    if b.len() == 0 {
        assert(a.push(10) + b =~= a.push(10));
        assert(a.push(10).drop_last() =~= a);
        assert(byte_lines(a.push(10)) =~= lines + byte_lines(b));
    } else {
        let rest = b.drop_last();
        line_feeds_end_lines(a, rest);
        lemma_byte_lines(rest);
        assert((a.push(10) + b).drop_last() =~= a.push(10) + rest);
        assert(byte_lines(a.push(10) + b) =~= lines + byte_lines(b));
    }
}

/// The place behind a text: the number of its line feeds, and the number of the
/// bytes behind the last of them.
pub open spec fn place_behind(text: Seq<char>) -> (nat, nat)
    decreases text.len(),
{
    if text.len() == 0 {
        (0, 0)
    } else {
        let (line, character) = place_behind(text.drop_last());
        if text.last() == '\n' {
            (line + 1, 0)
        } else {
            (line, character + encode_utf8(seq![text.last()]).len())
        }
    }
}

/// Whether a place stands behind a text.
pub open spec fn stands_behind(place: LspPosition, text: Seq<char>) -> bool {
    place.line as nat == place_behind(text).0 && place.character as nat == place_behind(text).1
}

/// The place behind a text is the end of its last line.
proof fn lemma_place_behind(text: Seq<char>)
    ensures
        byte_lines(encode_utf8(text)).len() == place_behind(text).0 + 1,
        byte_lines(encode_utf8(text)).last().len() == place_behind(text).1,
    decreases text.len(),
{
    if text.len() == 0 {
        assert(encode_utf8(text).len() == 0);
    } else {
        let rest = text.drop_last();
        let c = text.last();
        let front = encode_utf8(rest);
        lemma_place_behind(rest);
        lemma_byte_lines(front);
        assert(rest + seq![c] =~= text);
        lemma_encode_concat(rest, seq![c]);
        if c == '\n' {
            assert(encode_utf8(seq!['\n']) =~= seq![10u8]) by {
                lemma_line_feed_bytes();
            }
            assert(encode_utf8(text).drop_last() =~= front);
        } else {
            assert(!seq![c].contains('\n'));
            lemma_no_line_feed(seq![c]);
            lemma_last_line_grows(front, encode_utf8(seq![c]));
        }
    }
}

/// The line feed is one byte.
proof fn lemma_line_feed_bytes()
    ensures
        encode_utf8(seq!['\n']) == seq![10u8],
{
    let c: char = '\n';
    char_u32_cast(c, c as u32);
    assert((10u32 & 0x7F) as u8 == 10) by (bit_vector);
    assert(seq![c].drop_first() =~= Seq::<char>::empty());
    assert(encode_utf8(Seq::<char>::empty()) =~= Seq::<u8>::empty());
    assert(encode_utf8(seq![c]) =~= encode_scalar(10u32) + encode_utf8(Seq::<char>::empty()));
    assert(encode_utf8(seq!['\n']) =~= seq![10u8]);
}

/// The place at the end of the last line of some bytes is their length,
/// whatever follows them.
proof fn lemma_offset_behind(head: Seq<u8>, tail: Seq<u8>)
    ensures
        ({
            let lines = byte_lines(head);
            &&& lines.len() <= byte_lines(head + tail).len()
            &&& offset_at(
                line_lengths(head + tail),
                (lines.len() - 1) as nat,
                lines.last().len(),
            ) == head.len()
        }),
{
    let lines = byte_lines(head);
    let last = (lines.len() - 1) as nat;
    let lengths = line_lengths(head);
    let grown = line_lengths(head + tail);
    lemma_byte_lines(head);
    lemma_lines_grow(head, tail);
    lemma_offset_split(lengths, last, lines.last().len());
    lemma_offset_split(grown, last, lines.last().len());
    assert(grown.take(last as int) =~= lengths.take(last as int)) by {
        assert forall|k: int| 0 <= k < last implies grown[k] == lengths[k] by {
            assert(byte_lines(head + tail).take(last as int)[k] == lines.take(last as int)[k]);
        }
    }
}

/// A place is told by what stands before it: the one behind `before` is, in
/// every text that begins with `before`, as many bytes from the start as
/// `before` has.
pub proof fn places_are_told_by_the_text_before(before: Seq<char>, behind: Seq<char>)
    ensures
        place_behind(before).0 < byte_lines(encode_utf8(before + behind)).len(),
        offset_at(
            line_lengths(encode_utf8(before + behind)),
            place_behind(before).0,
            place_behind(before).1,
        ) == encode_utf8(before).len(),
{
    lemma_place_behind(before);
    lemma_encode_concat(before, behind);
    lemma_offset_behind(encode_utf8(before), encode_utf8(behind));
}

/// An edit replaces what stands between its two places, and nothing else: what
/// stands before the first place and what stands behind the second one is kept,
/// however many lines the edit spans. No such edit is refused.
pub proof fn edit_replaces_what_is_between(
    before: Seq<char>,
    removed: Seq<char>,
    behind: Seq<char>,
    range: LspRange,
    new_text: Seq<char>,
)
    requires
        stands_behind(range.start, before),
        stands_behind(range.end, before + removed),
    ensures
        edited(before + removed + behind, range, new_text) == Ok::<Seq<char>, Seq<char>>(
            before + new_text + behind,
        ),
{
    let text = before + removed + behind;
    let bytes = encode_utf8(text);
    let a = encode_utf8(before);
    let b = encode_utf8(removed);
    let c = encode_utf8(behind);
    lemma_encode_three(before, removed, behind);
    lemma_encode_concat(before, removed);
    lemma_encode_concat(removed, behind);
    assert(before + (removed + behind) =~= text);
    places_are_told_by_the_text_before(before, removed + behind);
    places_are_told_by_the_text_before(before + removed, behind);
    lemma_boundary_between(before, removed + behind);
    lemma_boundary_between(before + removed, behind);
    assert(a + (b + c) =~= bytes);
    assert(bytes.take(a.len() as int) =~= a);
    assert(bytes.skip((a + b).len() as int) =~= c);
    encode_utf8_decode_utf8(before);
    encode_utf8_decode_utf8(behind);
}

/// A character behind the end of its line stands at that end: an edit from or
/// to it is the edit from or to the end of the line.
pub proof fn places_behind_a_line_are_its_end(
    text: Seq<char>,
    range: LspRange,
    start: u64,
    end: u64,
    new_text: Seq<char>,
)
    requires
        range.start.line < byte_lines(encode_utf8(text)).len(),
        range.end.line < byte_lines(encode_utf8(text)).len(),
        start == range.start.character || start >= byte_lines(
            encode_utf8(text),
        )[range.start.line as int].len() && range.start.character >= byte_lines(
            encode_utf8(text),
        )[range.start.line as int].len(),
        end == range.end.character || end >= byte_lines(
            encode_utf8(text),
        )[range.end.line as int].len() && range.end.character >= byte_lines(
            encode_utf8(text),
        )[range.end.line as int].len(),
    ensures
        edited(
            text,
            (LspRange {
                start: LspPosition { line: range.start.line, character: start },
                end: LspPosition { line: range.end.line, character: end },
            }),
            new_text,
        ) == edited(text, range, new_text),
{
    let lengths = line_lengths(encode_utf8(text));
    lemma_offset_split(lengths, range.start.line as nat, range.start.character as nat);
    lemma_offset_split(lengths, range.start.line as nat, start as nat);
    lemma_offset_split(lengths, range.end.line as nat, range.end.character as nat);
    lemma_offset_split(lengths, range.end.line as nat, end as nat);
}

/// An edit that is not refused keeps every byte before its first place and
/// every byte from its second one on, with the bytes of the new text between
/// them, whatever lines it spans.
pub proof fn edit_keeps_what_is_around(text: Seq<char>, range: LspRange, new_text: Seq<char>)
    requires
        edited(text, range, new_text) is Ok,
    ensures
        ({
            let old = encode_utf8(text);
            let new = encode_utf8(edited(text, range, new_text)->Ok_0);
            let (start, end) = edit_offsets(text, range);
            &&& start <= end <= old.len()
            &&& new == old.take(start as int) + encode_utf8(new_text) + old.skip(end as int)
            &&& new.len() == old.len() - (end - start) + encode_utf8(new_text).len()
        }),
{
    let old = encode_utf8(text);
    let (start, end) = edit_offsets(text, range);
    offset_within_text(old, range.start.line as nat, range.start.character as nat);
    offset_within_text(old, range.end.line as nat, range.end.character as nat);
    lemma_parts(text, start as int, end as int);
    lemma_encode_three(
        decode_utf8(old.take(start as int)),
        new_text,
        decode_utf8(old.skip(end as int)),
    );
}

/// What stands before bytes changes none of their lines but the first, and that
/// one it can only make longer.
proof fn lemma_lines_behind(head: Seq<u8>, tail: Seq<u8>)
    ensures
        ({
            let lines = byte_lines(tail);
            let grown = byte_lines(head + tail);
            &&& grown.len() == byte_lines(head).len() + lines.len() - 1
            &&& forall|k: int|
                0 <= k < lines.len() - 1 ==> grown[grown.len() - 1 - k]
                    == #[trigger] lines[lines.len() - 1 - k]
        }),
    decreases tail.len(),
{
    lemma_byte_lines(head);
    if tail.len() == 0 {
        assert(head + tail =~= head);
    } else {
        let rest = tail.drop_last();
        lemma_lines_behind(head, rest);
        lemma_byte_lines(rest);
        assert((head + tail).drop_last() =~= head + rest);
        let before = byte_lines(rest);
        let lines = byte_lines(tail);
        let middle = byte_lines(head + rest);
        let grown = byte_lines(head + tail);
        assert forall|k: int| 0 <= k < lines.len() - 1 implies grown[grown.len() - 1 - k]
            == #[trigger] lines[lines.len() - 1 - k] by {
            if tail.last() == 10 {
                if k > 0 {
                    assert(lines[lines.len() - 1 - k] == before[before.len() - 1 - (k - 1)]);
                    assert(grown[grown.len() - 1 - k] == middle[middle.len() - 1 - (k - 1)]);
                }
            } else {
                assert(middle[middle.len() - 1 - k] == before[before.len() - 1 - k]);
            }
        }
    }
}

/// An edit that is not refused keeps every line before the one it begins in,
/// each where it was, and every line behind the one it ends in, each as far
/// from the end. Between them there is a line for each line feed of the new
/// text, and one more.
pub proof fn edit_keeps_the_lines_around(text: Seq<char>, range: LspRange, new_text: Seq<char>)
    requires
        edited(text, range, new_text) is Ok,
    ensures
        ({
            let old = byte_lines(encode_utf8(text));
            let new = byte_lines(encode_utf8(edited(text, range, new_text)->Ok_0));
            let first = range.start.line as int;
            let last = range.end.line as int;
            &&& first <= last < old.len()
            &&& new.len() == old.len() - (last - first) + place_behind(new_text).0
            &&& forall|i: int| 0 <= i < first ==> #[trigger] new[i] == old[i]
            &&& forall|k: int|
                0 <= k < old.len() - 1 - last ==> new[new.len() - 1 - k]
                    == #[trigger] old[old.len() - 1 - k]
        }),
{
    let bytes = encode_utf8(text);
    let lengths = line_lengths(bytes);
    let old = byte_lines(bytes);
    let after = encode_utf8(edited(text, range, new_text)->Ok_0);
    let new = byte_lines(after);
    let (start, end) = edit_offsets(text, range);
    let first = range.start.line as int;
    let last = range.end.line as int;
    let added = encode_utf8(new_text);
    let head = bytes.take(start as int);
    let tail = bytes.skip(end as int);
    edit_keeps_what_is_around(text, range, new_text);
    lemma_offset_split(lengths, range.start.line as nat, range.start.character as nat);
    lemma_offset_split(lengths, range.end.line as nat, range.end.character as nat);
    lemma_lines_before(bytes, first, start - span(lengths.take(first)));
    lemma_lines_before(bytes, last, end - span(lengths.take(last)));
    assert(bytes =~= bytes.take(end as int) + tail);
    lemma_lines_behind(bytes.take(end as int), tail);
    lemma_lines_behind(head, bytes.take(end as int).skip(start as int));
    assert(bytes.take(end as int) =~= head + bytes.take(end as int).skip(start as int));
    lemma_byte_lines(bytes.take(end as int).skip(start as int));

    lemma_place_behind(new_text);
    lemma_lines_behind(head, added);
    lemma_lines_behind(head + added, tail);
    lemma_lines_grow(head, added + tail);
    assert(head + (added + tail) =~= after);
    assert forall|i: int| 0 <= i < first implies #[trigger] new[i] == old[i] by {
        assert(new.take(first)[i] == byte_lines(head).take(first)[i]);
    }
    assert forall|k: int| 0 <= k < old.len() - 1 - last implies new[new.len() - 1 - k]
        == #[trigger] old[old.len() - 1 - k] by {
        let lines = byte_lines(tail);
        assert(old[old.len() - 1 - k] == lines[lines.len() - 1 - k]);
        assert(new[new.len() - 1 - k] == lines[lines.len() - 1 - k]);
    }
}

/// An edit is refused where it begins or ends behind the last line of the text,
/// where it ends before it begins, and where one of its places is inside a
/// character; in no other case. The text that tells it names the lines and the
/// number of lines, or the two places in bytes.
pub proof fn refused_edits_are_told(text: Seq<char>, range: LspRange, new_text: Seq<char>)
    ensures
        ({
            let bytes = encode_utf8(text);
            let (start, end) = edit_offsets(text, range);
            let feeds = place_behind(text).0;
            let within = range.start.line <= feeds && range.end.line <= feeds;
            &&& edited(text, range, new_text) is Ok <==> within && start <= end
                && is_char_boundary(bytes, start as int) && is_char_boundary(bytes, end as int)
            &&& !within ==> edited(text, range, new_text) == Err::<Seq<char>, Seq<char>>(
                "Edit range out of bounds: lines "@ + decimal(range.start.line as nat) + "-"@
                    + decimal(range.end.line as nat) + ", document has "@ + decimal(feeds + 1)
                    + " lines"@,
            )
            &&& within && start > end ==> edited(text, range, new_text) == Err::<
                Seq<char>,
                Seq<char>,
            >(
                "Invalid edit range: start offset ("@ + decimal(start) + ") > end offset ("@
                    + decimal(end) + ")"@,
            )
            &&& within && start <= end && edited(text, range, new_text) is Err ==> edited(
                text,
                range,
                new_text,
            ) == Err::<Seq<char>, Seq<char>>(
                "Invalid edit range: start offset ("@ + decimal(start) + ") or end offset ("@
                    + decimal(end) + ") is inside a character"@,
            )
        }),
{
    lemma_place_behind(text);
}

/// The byte at which a place stands: as many line feeds stand before it as its
/// line says, and as many bytes between the last of them and the place as its
/// character says, or as the line has.
pub proof fn offsets_count_lines_and_bytes(bytes: Seq<u8>, line: nat, character: nat)
    requires
        line < byte_lines(bytes).len(),
    ensures
        ({
            let offset = offset_at(line_lengths(bytes), line, character) as int;
            let lines = byte_lines(bytes.take(offset));
            let full = byte_lines(bytes)[line as int];
            &&& offset <= bytes.len()
            &&& lines.len() == line + 1
            &&& lines.last().len() == (if character <= full.len() {
                character
            } else {
                full.len()
            })
            &&& full.take(lines.last().len() as int) == lines.last()
        }),
{
    let lengths = line_lengths(bytes);
    lemma_offset_split(lengths, line, character);
    lemma_lines_before(
        bytes,
        line as int,
        offset_at(lengths, line, character) - span(lengths.take(line as int)),
    );
}

/// All of a text begins before its first character and ends behind its last
/// one.
pub proof fn whole_range_is_all(text: Seq<char>)
    requires
        encode_utf8(text).len() <= u64::MAX,
    ensures
        stands_behind(whole_range(text).start, Seq::empty()),
        stands_behind(whole_range(text).end, text),
{
    let bytes = encode_utf8(text);
    lemma_byte_lines(bytes);
    lemma_place_behind(text);
    lemma_offset_split(
        line_lengths(bytes),
        (byte_lines(bytes).len() - 1) as nat,
        byte_lines(bytes).last().len(),
    );
}

}
