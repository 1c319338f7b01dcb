//! `file://` URIs and the paths that they stand for.

use crate::text::{characters, starts_with, strip_prefix};
use vstd::prelude::*;
use vstd::string::*;

verus! {

/// The value of a hexadecimal digit.
pub open spec fn hex_digit(c: char) -> Option<u8> {
    if '0' <= c <= '9' {
        Some((c as u32 - 48) as u8)
    } else if 'A' <= c <= 'F' {
        Some((c as u32 - 55) as u8)
    } else if 'a' <= c <= 'f' {
        Some((c as u32 - 87) as u8)
    } else {
        None
    }
}

/// The number that the two characters behind a percent sign stand for: two
/// hexadecimal digits, or a plus sign and one digit.
pub open spec fn escape_value(hi: char, lo: char) -> Option<u8> {
    if hi == '+' {
        hex_digit(lo)
    } else {
        match (hex_digit(hi), hex_digit(lo)) {
            (Some(h), Some(l)) => Some((16 * h + l) as u8),
            _ => None,
        }
    }
}

/// A text with its percent escapes resolved, each to the character of its
/// number; every other character stands for itself. A digit that an escape at
/// the end lacks is taken as `0`, and an escape that stands for nothing is
/// kept. A percent sign before a character that is not ASCII begins no escape.
pub open spec fn percent_decoded(text: Seq<char>) -> Seq<char>
    decreases text.len(),
{
    if text.len() == 0 {
        Seq::empty()
    } else if text[0] != '%' {
        seq![text[0]] + percent_decoded(text.drop_first())
    } else if text.len() > 1 && text[1] > '\u{7f}' {
        seq!['%', text[1]] + percent_decoded(text.skip(2))
    } else {
        let hi = if text.len() > 1 {
            text[1]
        } else {
            '0'
        };
        let lo = if text.len() > 2 {
            text[2]
        } else {
            '0'
        };
        let rest = if text.len() > 3 {
            text.skip(3)
        } else {
            Seq::empty()
        };
        match escape_value(hi, lo) {
            Some(v) => seq![v as char] + percent_decoded(rest),
            None => seq!['%', hi, lo] + percent_decoded(rest),
        }
    }
}

/// The path that a `file://` URI stands for.
pub open spec fn uri_path(uri: Seq<char>) -> Option<Seq<char>> {
    if starts_with(uri, "file://"@) {
        Some(percent_decoded(uri.skip("file://"@.len() as int)))
    } else {
        None
    }
}

/// Whether a path is absolute.
pub open spec fn is_absolute(path: Seq<char>) -> bool {
    path.len() > 0 && path[0] == '/'
}

/// The `file://` URI of a path.
pub open spec fn path_uri(path: Seq<char>) -> Seq<char> {
    if is_absolute(path) {
        "file://"@ + path
    } else {
        "file:///"@ + path
    }
}

fn hex_digit_of(c: char) -> (value: Option<u8>)
    ensures
        value == hex_digit(c),
{
    let number: u32 = c as u32;
    if '0' <= c && c <= '9' {
        Some((number - 48) as u8)
    } else if 'A' <= c && c <= 'F' {
        Some((number - 55) as u8)
    } else if 'a' <= c && c <= 'f' {
        Some((number - 87) as u8)
    } else {
        None
    }
}

fn escape_value_of(hi: char, lo: char) -> (value: Option<u8>)
    ensures
        value == escape_value(hi, lo),
{
    if hi == '+' {
        return hex_digit_of(lo);
    }
    match (hex_digit_of(hi), hex_digit_of(lo)) {
        (Some(h), Some(l)) => Some(16 * h + l),
        _ => None,
    }
}

/// Resolves the percent escapes of a text.
pub fn percent_decode(input: &str) -> (result: String)
    ensures
        result@ == percent_decoded(input@),
{
    let chars = characters(input);
    let mut result = String::new();
    let mut i: usize = 0;
    assert(chars@.skip(0) =~= chars@);
    assert(Seq::<char>::empty() + percent_decoded(chars@) =~= percent_decoded(chars@));
    while i < chars.len()
        invariant
            i <= chars@.len(),
            percent_decoded(chars@) == result@ + percent_decoded(chars@.skip(i as int)),
        decreases chars@.len() - i,
    {
        let ghost rest = chars@.skip(i as int);
        let ghost before = result@;
        let c: char = chars[i];
        assert(rest[0] == c);
        if c == '%' && chars.len() - i > 1 && chars[i + 1] > '\u{7f}' {
            let next: char = chars[i + 1];
            result.push('%');
            result.push(next);
            assert(result@ =~= before + seq!['%', next]);
            assert(rest.skip(2) =~= chars@.skip(i + 2));
            i = i + 2;
        } else if c == '%' {
            let hi: char = if chars.len() - i > 1 {
                chars[i + 1]
            } else {
                '0'
            };
            let lo: char = if chars.len() - i > 2 {
                chars[i + 2]
            } else {
                '0'
            };
            let next: usize = if chars.len() - i > 3 {
                i + 3
            } else {
                chars.len()
            };
            assert(chars@.len() - i > 3 ==> rest.skip(3) =~= chars@.skip(next as int));
            assert(chars@.len() - i <= 3 ==> chars@.skip(next as int) =~= Seq::<char>::empty());
            match escape_value_of(hi, lo) {
                Some(decoded) => {
                    result.push(decoded as char);
                    assert(result@ =~= before + seq![decoded as char]);
                },
                None => {
                    result.push('%');
                    result.push(hi);
                    result.push(lo);
                    assert(result@ =~= before + seq!['%', hi, lo]);
                },
            }
            i = next;
        } else {
            result.push(c);
            assert(result@ =~= before + seq![c]);
            assert(rest.drop_first() =~= chars@.skip(i + 1));
            i = i + 1;
        }
        assert(percent_decoded(chars@) =~= result@ + percent_decoded(chars@.skip(i as int)));
    }
    assert(chars@.skip(i as int).len() == 0);
    assert(result@ + percent_decoded(chars@.skip(i as int)) =~= result@);
    result
}

/// The path that a `file://` URI stands for; another URI stands for none.
pub fn uri_to_file_path(uri: &str) -> (path: Option<String>)
    ensures
        path.deep_view() == uri_path(uri@),
{
    match strip_prefix(uri, "file://") {
        Some(path) => Some(percent_decode(path.as_str())),
        None => None,
    }
}

/// The `file://` URI of a path. A path that is not absolute is taken as one
/// below the root.
pub fn file_path_to_uri(path: &str) -> (uri: String)
    ensures
        uri@ == path_uri(path@),
{
    let absolute = starts_with_slash(path);
    let mut uri = if absolute {
        "file://".to_owned()
    } else {
        "file:///".to_owned()
    };
    uri.append(path);
    uri
}

/// Whether a path is absolute.
pub fn starts_with_slash(path: &str) -> (b: bool)
    ensures
        b == is_absolute(path@),
{
    let chars = characters(path);
    chars.len() > 0 && chars[0] == '/'
}

/// Two texts in a row are decoded one after the other, wherever no escape is
/// cut in two: the first ends neither in a percent sign nor in one with an
/// ASCII character behind it.
pub proof fn decoding_distributes(a: Seq<char>, b: Seq<char>)
    requires
        a.len() > 0 ==> a.last() != '%',
        a.len() > 1 && a[a.len() - 2] == '%' ==> a.last() > '\u{7f}',
    ensures
        percent_decoded(a + b) == percent_decoded(a) + percent_decoded(b),
    decreases a.len(),
{
    let whole = a + b;
    if a.len() == 0 {
        assert(whole =~= b);
        assert(percent_decoded(a) + percent_decoded(b) =~= percent_decoded(b));
    } else if a[0] != '%' {
        assert(whole.drop_first() =~= a.drop_first() + b);
        decoding_distributes(a.drop_first(), b);
        assert(percent_decoded(whole) =~= percent_decoded(a) + percent_decoded(b));
    } else if a[1] > '\u{7f}' {
        assert(whole.skip(2) =~= a.skip(2) + b);
        decoding_distributes(a.skip(2), b);
        assert(percent_decoded(whole) =~= percent_decoded(a) + percent_decoded(b));
    } else {
        let rest = a.skip(3);
        assert(a.len() >= 3);
        assert(whole.skip(3) =~= rest + b);
        assert(a.len() == 3 ==> rest =~= Seq::empty());
        assert(whole.len() == 3 ==> whole.skip(3) =~= Seq::empty());
        decoding_distributes(rest, b);
        assert(percent_decoded(whole) =~= percent_decoded(a) + percent_decoded(b));
    }
}

/// Whether every percent sign that is met when a text is read stands for
/// itself: a character that is not ASCII follows it, or two characters that
/// stand for no number with it.
pub open spec fn is_plain(text: Seq<char>) -> bool
    decreases text.len(),
{
    if text.len() == 0 {
        true
    } else if text[0] != '%' {
        is_plain(text.drop_first())
    } else if text.len() > 1 && text[1] > '\u{7f}' {
        is_plain(text.skip(2))
    } else {
        text.len() >= 3 && escape_value(text[1], text[2]) is None && is_plain(text.skip(3))
    }
}

/// A text without a percent sign is plain.
proof fn lemma_no_escapes(text: Seq<char>)
    requires
        !text.contains('%'),
    ensures
        is_plain(text),
    decreases text.len(),
{
    if text.len() > 0 {
        let rest = text.drop_first();
        assert(text.contains(text[0]));
        assert forall|i: int| 0 <= i < rest.len() implies rest[i] != '%' by {
            assert(text.contains(text[i + 1]));
        }
        lemma_no_escapes(rest);
    }
}

/// A text that is plain stands for itself.
proof fn lemma_plain_text(text: Seq<char>)
    requires
        is_plain(text),
    ensures
        percent_decoded(text) == text,
    decreases text.len(),
{
    if text.len() > 0 && text[0] != '%' {
        lemma_plain_text(text.drop_first());
    } else if text.len() > 1 && text[1] > '\u{7f}' {
        lemma_plain_text(text.skip(2));
    } else if text.len() > 3 {
        lemma_plain_text(text.skip(3));
    }
    assert(percent_decoded(Seq::empty()) =~= Seq::empty());
    assert(percent_decoded(text) =~= text);
}

/// A text that is not plain stands for a text of another length, or for one
/// with another end.
proof fn lemma_escaped_text(text: Seq<char>)
    ensures
        percent_decoded(text).len() <= text.len() + 1,
        !is_plain(text) ==> {
            ||| percent_decoded(text).len() != text.len()
            ||| text.len() > 0 && text.last() == '%' && percent_decoded(text).last() == '\0'
        },
    decreases text.len(),
{
    assert(percent_decoded(Seq::empty()) =~= Seq::empty());
    if text.len() > 0 && text[0] != '%' {
        lemma_escaped_text(text.drop_first());
    } else if text.len() > 1 && text[1] > '\u{7f}' {
        lemma_escaped_text(text.skip(2));
    } else if text.len() >= 3 {
        lemma_escaped_text(text.skip(3));
        assert(text.len() == 3 ==> text.skip(3) =~= Seq::empty());
    } else if text.len() == 1 {
        assert(percent_decoded(text) =~= seq!['\0']);
    }
}

/// The URI of a path stands for that path again, and, if the path is not
/// absolute, for the path below the root, exactly where no percent sign in it
/// stands for something else. A path without a percent sign is such a path.
pub proof fn path_round_trip(path: Seq<char>)
    ensures
        uri_path(path_uri(path)) == Some(
            if is_absolute(path) {
                path
            } else {
                seq!['/'] + path
            },
        ) <==> is_plain(path),
        !path.contains('%') ==> is_plain(path),
{
    reveal_strlit("file://");
    reveal_strlit("file:///");
    let whole = if is_absolute(path) {
        path
    } else {
        seq!['/'] + path
    };
    let uri = path_uri(path);
    assert(uri =~= "file://"@ + whole);
    assert(uri.take(7) =~= "file://"@);
    assert(uri.skip(7) =~= whole);
    assert(!is_absolute(path) ==> whole.drop_first() =~= path);
    if !path.contains('%') {
        lemma_no_escapes(path);
    }
    if is_plain(whole) {
        lemma_plain_text(whole);
    } else {
        lemma_escaped_text(whole);
    }
}

/// Whether a character is the hexadecimal digit of a number, as a capital or a
/// small letter from ten on.
pub open spec fn is_digit_of(c: char, n: nat) -> bool {
    if n < 10 {
        c as u32 == '0' as u32 + n
    } else {
        n < 16 && (c as u32 == 'A' as u32 + (n - 10) || c as u32 == 'a' as u32 + (n - 10))
    }
}

/// An escape of two hexadecimal digits stands for the character of the number
/// that they are, and what follows is decoded as if the escape were not there.
/// A plus sign stands in the place of a zero.
pub proof fn escapes_stand_for_their_number(n: u8, hi: char, lo: char, rest: Seq<char>)
    requires
        is_digit_of(hi, (n / 16) as nat) || hi == '+' && n < 16,
        is_digit_of(lo, (n % 16) as nat),
    ensures
        percent_decoded(seq!['%', hi, lo] + rest) == seq![n as char] + percent_decoded(rest),
{
    let text = seq!['%', hi, lo] + rest;
    assert(text[0] == '%' && text[1] == hi && text[2] == lo);
    assert(hi <= '\u{7f}');
    if text.len() > 3 {
        assert(text.skip(3) =~= rest);
    } else {
        assert(rest =~= Seq::empty());
    }
    assert(escape_value(hi, lo) == Some(n));
}

/// Every character but the percent sign stands for itself. So does a percent
/// sign before a character that is not ASCII, and one before two characters
/// that are not both digits.
pub proof fn other_characters_stand_for_themselves(c: char, d: char, rest: Seq<char>)
    ensures
        percent_decoded(Seq::empty()).len() == 0,
        c != '%' ==> percent_decoded(seq![c] + rest) == seq![c] + percent_decoded(rest),
        c > '\u{7f}' ==> percent_decoded(seq!['%', c] + rest) == seq!['%', c] + percent_decoded(
            rest,
        ),
        c <= '\u{7f}' && !(exists|n: nat| #[trigger] is_digit_of(c, n)) && c != '+'
            ==> percent_decoded(seq!['%', c, d] + rest) == seq!['%', c, d] + percent_decoded(rest),
        c <= '\u{7f}' && !(exists|n: nat| #[trigger] is_digit_of(d, n)) ==> percent_decoded(
            seq!['%', c, d] + rest,
        ) == seq!['%', c, d] + percent_decoded(rest),
{
    if c != '%' {
        assert((seq![c] + rest).drop_first() =~= rest);
    }
    if c > '\u{7f}' {
        assert((seq!['%', c] + rest).skip(2) =~= rest);
        assert((seq!['%', c] + rest)[1] == c);
    } else {
        let text = seq!['%', c, d] + rest;
        assert(text[0] == '%' && text[1] == c && text[2] == d);
        if text.len() > 3 {
            assert(text.skip(3) =~= rest);
        } else {
            assert(rest =~= Seq::empty());
        }
        if hex_digit(c) is Some {
            assert(is_digit_of(c, hex_digit(c)->0 as nat));
        }
        if hex_digit(d) is Some {
            assert(is_digit_of(d, hex_digit(d)->0 as nat));
        }
    }
}

/// An escape at the end that lacks a digit, or both, is read as if zeros
/// followed.
pub proof fn cut_escapes_are_filled_with_zeros(hi: char)
    requires
        hi <= '\u{7f}',
    ensures
        percent_decoded(seq!['%']) == percent_decoded(seq!['%', '0', '0']),
        percent_decoded(seq!['%', hi]) == percent_decoded(seq!['%', hi, '0']),
{
}

/// The path of a URI is what stands behind `file://`, decoded; a URI that
/// begins otherwise has none.
pub proof fn only_file_uris_have_paths(uri: Seq<char>, rest: Seq<char>)
    ensures
        uri_path("file://"@ + rest) == Some(percent_decoded(rest)),
        uri_path(uri) is Some ==> exists|rest: Seq<char>| uri == #[trigger] ("file://"@ + rest),
        path_uri(seq!['/'] + rest) == "file:///"@ + rest,
        rest.len() == 0 || rest[0] != '/' ==> path_uri(rest) == "file:///"@ + rest,
{
    reveal_strlit("file://");
    reveal_strlit("file:///");
    let whole = "file://"@ + rest;
    assert(whole.take(7) =~= "file://"@);
    assert(whole.skip(7) =~= rest);
    if uri_path(uri) is Some {
        assert(uri =~= "file://"@ + uri.skip(7));
    }
    assert("file://"@ + (seq!['/'] + rest) =~= "file:///"@ + rest);
}

}
