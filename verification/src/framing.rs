//! The base protocol of the language server: each message is a body of bytes
//! behind header lines that end in an empty line.

use crate::text::{
    decimal, decimal_round_trip, decimal_text, is_digit, is_white_space, lemma_decimal_digits,
    lemma_trimmed_end, lemma_trimmed_start, parse_usize, parsed_decimal, starts_with, strip_prefix,
    trim, trimmed, trimmed_start,
};
use vstd::prelude::*;
use vstd::string::*;
use vstd::utf8::*;

verus! {

/// The header of a message whose body has the given length.
pub open spec fn frame_header(length: nat) -> Seq<char> {
    "Content-Length: "@ + decimal(length) + "\r\n\r\n"@
}

/// A message: its header, then its body.
pub open spec fn frame(body: Seq<u8>) -> Seq<u8> {
    encode_utf8(frame_header(body.len())) + body
}

/// Puts the header before the body of a message.
pub fn encode_lsp_message(body: &[u8]) -> (message: Vec<u8>)
    ensures
        message@ == frame(body@),
{
    let mut header = "Content-Length: ".to_owned();
    header.append(decimal_text(body.len() as u128).as_str());
    header.append("\r\n\r\n");
    let mut message: Vec<u8> = header.as_str().as_bytes_vec();
    for i in 0..body.len()
        invariant
            message@ == encode_utf8(frame_header(body@.len())) + body@.take(i as int),
    {
        message.push(body[i]);
        assert(body@.take(i as int).push(body@[i as int]) =~= body@.take(i + 1));
    }
    assert(body@.take(body@.len() as int) =~= body@);
    message
}

/// What a line of a header leads to.
#[derive(Debug, Clone, Copy, PartialEq, Eq, Structural)]
pub enum HeaderStep {
    /// More lines follow; the length of the body, if a line has told it.
    More { told: Option<usize> },
    /// The header is over, and a body of this length follows.
    Body { length: usize },
    /// The header is over and told no length: the next line begins another one.
    NoLength,
    /// The line tells a length that is no number.
    Malformed,
}

/// What a line of a header leads to, where `length` is what the lines before
/// it told.
pub open spec fn header_step(length: Option<usize>, line: Seq<char>) -> HeaderStep {
    let line = trimmed(line);
    if line.len() == 0 {
        match length {
            Some(n) => HeaderStep::Body { length: n },
            None => HeaderStep::NoLength,
        }
    } else if starts_with(line, "Content-Length:"@) {
        match parsed_decimal(trimmed(line.skip("Content-Length:"@.len() as int))) {
            Some(n) => if n <= usize::MAX {
                HeaderStep::More { told: Some(n as usize) }
            } else {
                HeaderStep::Malformed
            },
            None => HeaderStep::Malformed,
        }
    } else {
        HeaderStep::More { told: length }
    }
}

/// Reads a line of a header.
pub fn read_header_line(length: Option<usize>, line: &str) -> (step: HeaderStep)
    ensures
        step == header_step(length, line@),
{
    let line = trim(line);
    if line.as_str().is_empty() {
        return match length {
            Some(n) => HeaderStep::Body { length: n },
            None => HeaderStep::NoLength,
        };
    }
    match strip_prefix(line.as_str(), "Content-Length:") {
        Some(value) => {
            let value = trim(value.as_str());
            match parse_usize(value.as_str()) {
                Some(n) => HeaderStep::More { told: Some(n) },
                None => HeaderStep::Malformed,
            }
        },
        None => HeaderStep::More { told: length },
    }
}

/// A written message is read back: it is two header lines and the body, the
/// first line tells the length of the body, and the second ends the header.
pub proof fn frame_round_trip(body: Seq<u8>, before: Option<usize>)
    requires
        body.len() <= usize::MAX,
    ensures
        frame(body) == encode_utf8("Content-Length: "@ + decimal(body.len()) + "\r\n"@)
            + encode_utf8("\r\n"@) + body,
        header_step(before, "Content-Length: "@ + decimal(body.len()) + "\r\n"@)
            == (HeaderStep::More { told: Some(body.len() as usize) }),
        header_step(Some(body.len() as usize), "\r\n"@) == (HeaderStep::Body {
            length: body.len() as usize,
        }),
{
    reveal_strlit("Content-Length: ");
    reveal_strlit("Content-Length:");
    reveal_strlit("\r\n\r\n");
    reveal_strlit("\r\n");
    let number = decimal(body.len());
    let first = "Content-Length: "@ + number;
    let line = first + "\r\n"@;
    assert(frame_header(body.len()) =~= line + "\r\n"@);
    lemma_encode_concat(line, "\r\n"@);

    lemma_decimal_digits(body.len());
    decimal_round_trip(body.len());
    assert(!is_white_space(first[0]));
    assert(is_digit(number[number.len() - 1]));
    assert(first.last() == number[number.len() - 1]);
    assert(trimmed_start(line) == line);
    lemma_trimmed_end(first, "\r\n"@);
    assert(first.take(15) =~= "Content-Length:"@);
    assert(first.skip(15) =~= " "@ + number) by {
        reveal_strlit(" ");
    }
    assert(trimmed(" "@ + number) == number) by {
        reveal_strlit(" ");
        assert(is_digit(number[0]));
        lemma_trimmed_start(" "@, number);
        assert(number + Seq::<char>::empty() =~= number);
        lemma_trimmed_end(number, Seq::empty());
    }

    assert(trimmed("\r\n"@) == Seq::<char>::empty()) by {
        lemma_trimmed_start("\r\n"@, Seq::empty());
        assert("\r\n"@ + Seq::<char>::empty() =~= "\r\n"@);
    }
}

/// An empty line ends a header: a body follows where a length was told, and
/// nothing does where none was. A line that begins with `Content-Length:` tells
/// the number behind it, whatever was told before, or is no line of a header
/// where there is no number. Every other line changes nothing.
pub proof fn header_lines_are_read(told: Option<usize>, line: Seq<char>, value: Seq<char>)
    ensures
        trimmed(line).len() == 0 ==> header_step(told, line) == (match told {
            Some(length) => HeaderStep::Body { length },
            None => HeaderStep::NoLength,
        }),
        trimmed(line) == "Content-Length:"@ + value ==> match parsed_decimal(trimmed(value)) {
            Some(n) => if n <= usize::MAX {
                header_step(told, line) == (HeaderStep::More { told: Some(n as usize) })
            } else {
                header_step(told, line) is Malformed
            },
            None => header_step(told, line) is Malformed,
        },
        trimmed(line).len() > 0 && !(exists|value: Seq<char>|
            trimmed(line) == #[trigger] ("Content-Length:"@ + value)) ==> header_step(told, line)
            == (HeaderStep::More { told }),
{
    reveal_strlit("Content-Length:");
    let found = trimmed(line);
    if found == "Content-Length:"@ + value {
        assert(found.take(15) =~= "Content-Length:"@);
        assert(found.skip(15) =~= value);
    }
    if starts_with(found, "Content-Length:"@) {
        assert(found =~= "Content-Length:"@ + found.skip(15));
    }
}

/// The encoding of two texts in a row is that of the one and then the other.
pub proof fn lemma_encode_concat(a: Seq<char>, b: Seq<char>)
    ensures
        encode_utf8(a + b) == encode_utf8(a) + encode_utf8(b),
    decreases a.len(),
{
    if a.len() == 0 {
        assert(a + b =~= b);
        assert(encode_utf8(a) + encode_utf8(b) =~= encode_utf8(b));
    } else {
        assert((a + b).drop_first() =~= a.drop_first() + b);
        lemma_encode_concat(a.drop_first(), b);
        assert(encode_utf8(a + b) =~= encode_utf8(a) + encode_utf8(b));
    }
}

}
