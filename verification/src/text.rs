//! Texts: comparison, numbers in decimal, white space and lines.

use vstd::prelude::*;
use vstd::string::*;
use vstd::utf8::*;

verus! {

/// `String::push` adds one character at the end.
pub assume_specification[ std::string::String::push ](string: &mut std::string::String, ch: char)
    ensures
        final(string)@ == old(string)@.push(ch),
;

/// Texts with the same UTF-8 encoding are the same.
pub proof fn lemma_same_bytes(a: Seq<char>, b: Seq<char>)
    requires
        encode_utf8(a) == encode_utf8(b),
    ensures
        a == b,
{
    encode_utf8_decode_utf8(a);
    encode_utf8_decode_utf8(b);
}

/// Whether two texts are the same.
pub fn same_text(a: &str, b: &str) -> (same: bool)
    ensures
        same == (a@ == b@),
{
    let left = a.as_bytes();
    let right = b.as_bytes();
    if left.len() != right.len() {
        return false;
    }
    for i in 0..left.len()
        invariant
            left@.len() == right@.len(),
            left@ == encode_utf8(a@),
            right@ == encode_utf8(b@),
            forall|k: int| 0 <= k < i ==> left@[k] == right@[k],
    {
        if left[i] != right[i] {
            return false;
        }
    }
    assert(left@ =~= right@);
    proof {
        lemma_same_bytes(a@, b@);
    }
    true
}

/// The characters of a text.
pub fn characters(text: &str) -> (chars: Vec<char>)
    ensures
        chars@ == text@,
{
    let mut chars: Vec<char> = Vec::new();
    for c in it: text.chars()
        invariant
            it.seq() == text@,
            chars@ == text@.take(it.index()),
    {
        chars.push(c);
        assert(text@.take(it.index()).push(c) =~= text@.take(it.index() + 1));
    }
    assert(text@.take(text@.len() as int) =~= text@);
    chars
}

/// The text of the characters from `start` to `end`.
pub fn text_of(chars: &Vec<char>, start: usize, end: usize) -> (text: String)
    requires
        start <= end <= chars@.len(),
    ensures
        text@ == chars@.subrange(start as int, end as int),
{
    let mut text = String::new();
    for i in start..end
        invariant
            start <= end <= chars@.len(),
            text@ == chars@.subrange(start as int, i as int),
    {
        text.push(chars[i]);
        assert(chars@.subrange(start as int, i as int).push(chars@[i as int]) =~= chars@.subrange(
            start as int,
            i + 1,
        ));
    }
    text
}

/// Whether a text begins with another.
pub open spec fn starts_with(text: Seq<char>, prefix: Seq<char>) -> bool {
    prefix.len() <= text.len() && text.take(prefix.len() as int) == prefix
}

/// What follows a prefix, where the text begins with it.
pub fn strip_prefix(text: &str, prefix: &str) -> (rest: Option<String>)
    ensures
        rest is Some <==> starts_with(text@, prefix@),
        rest matches Some(r) ==> r@ == text@.skip(prefix@.len() as int),
{
    let chars = characters(text);
    let head = characters(prefix);
    if head.len() > chars.len() {
        return None;
    }
    for i in 0..head.len()
        invariant
            chars@ == text@,
            head@ == prefix@,
            head@.len() <= chars@.len(),
            forall|k: int| 0 <= k < i ==> chars@[k] == head@[k],
    {
        if chars[i] != head[i] {
            assert(text@.take(prefix@.len() as int)[i as int] != prefix@[i as int]);
            return None;
        }
    }
    assert(text@.take(prefix@.len() as int) =~= prefix@);
    Some(text_of(&chars, head.len(), chars.len()))
}

/// The decimal digit of a number below ten.
pub open spec fn digit(d: nat) -> char {
    (48 + d) as char
}

/// A number in decimal, without leading zeros.
pub open spec fn decimal(n: nat) -> Seq<char>
    decreases n,
{
    if n < 10 {
        seq![digit(n)]
    } else {
        decimal(n / 10).push(digit(n % 10))
    }
}

/// A number in decimal, with a minus sign before it where it is negative.
pub open spec fn signed_decimal(n: int) -> Seq<char> {
    if n < 0 {
        seq!['-'] + decimal((-n) as nat)
    } else {
        decimal(n as nat)
    }
}

/// Writes a number in decimal.
pub fn decimal_text(n: u128) -> (text: String)
    ensures
        text@ == decimal(n as nat),
    decreases n,
{
    let last: char = (48 + (n % 10) as u8) as char;
    let mut text = if n < 10 {
        String::new()
    } else {
        decimal_text(n / 10)
    };
    text.push(last);
    assert(Seq::<char>::empty().push(last) =~= seq![last]);
    text
}

/// Writes a number in decimal, with a minus sign where it is negative.
pub fn signed_decimal_text(n: i64) -> (text: String)
    ensures
        text@ == signed_decimal(n as int),
{
    if n < 0 {
        let mut text = String::new();
        text.push('-');
        let magnitude: u128 = (-(n as i128)) as u128;
        text.append(decimal_text(magnitude).as_str());
        assert(Seq::<char>::empty().push('-') =~= seq!['-']);
        text
    } else {
        decimal_text(n as u128)
    }
}

/// Whether a character is a decimal digit.
pub open spec fn is_digit(c: char) -> bool {
    '0' <= c <= '9'
}

/// The number that a row of decimal digits stands for.
pub open spec fn digits_value(digits: Seq<char>) -> nat
    decreases digits.len(),
{
    if digits.len() == 0 {
        0
    } else {
        (digits_value(digits.drop_last()) * 10 + (digits.last() as u32 - 48)) as nat
    }
}

/// Whether a text is a row of decimal digits.
pub open spec fn all_digits(text: Seq<char>) -> bool {
    text.len() > 0 && forall|i: int| 0 <= i < text.len() ==> is_digit(#[trigger] text[i])
}

/// The number that a text stands for: an optional plus sign, then at least
/// one digit and nothing else.
pub open spec fn parsed_decimal(text: Seq<char>) -> Option<nat> {
    let digits = if text.len() > 0 && text[0] == '+' {
        text.drop_first()
    } else {
        text
    };
    if all_digits(digits) {
        Some(digits_value(digits))
    } else {
        None
    }
}

/// Reads a number in decimal, where it fits.
pub fn parse_usize(text: &str) -> (number: Option<usize>)
    ensures
        match number {
            Some(n) => parsed_decimal(text@) == Some(n as nat),
            None => parsed_decimal(text@) is None || parsed_decimal(text@)->0 > usize::MAX,
        },
{
    let chars = characters(text);
    let start: usize = if chars.len() > 0 && chars[0] == '+' {
        1
    } else {
        0
    };
    let ghost digits = chars@.skip(start as int);
    assert(start == 0 ==> digits =~= chars@);
    if start == chars.len() {
        return None;
    }
    let mut value: usize = 0;
    let mut overflow: bool = false;
    assert(digits.take(0).len() == 0);
    for i in start..chars.len()
        invariant
            start <= chars@.len(),
            digits == chars@.skip(start as int),
            forall|k: int| 0 <= k < i - start ==> is_digit(#[trigger] digits[k]),
            !overflow ==> value == digits_value(digits.take(i - start)),
            overflow ==> digits_value(digits.take(i - start)) > usize::MAX,
            chars@ == text@,
            digits == (if text@.len() > 0 && text@[0] == '+' {
                text@.drop_first()
            } else {
                text@
            }),
    {
        let c: char = chars[i];
        assert(digits[i - start] == c);
        if c < '0' || c > '9' {
            assert(!is_digit(digits[i - start]));
            assert(!all_digits(digits));
            return None;
        }
        let d: u32 = c as u32 - 48;
        assert(digits.take(i - start + 1).drop_last() =~= digits.take(i - start));
        assert(digits.take(i - start + 1).last() == c);
        if !overflow {
            let next: u128 = value as u128 * 10 + d as u128;
            if next > usize::MAX as u128 {
                overflow = true;
            } else {
                value = next as usize;
            }
        }
    }
    assert(digits.take(chars@.len() - start) =~= digits);
    if overflow {
        None
    } else {
        Some(value)
    }
}

/// Reading a written number gives the number back.
pub proof fn decimal_round_trip(n: nat)
    ensures
        parsed_decimal(decimal(n)) == Some(n),
    decreases n,
{
    lemma_decimal_digits(n);
    let digits = decimal(n);
    assert(is_digit(digits[0]));
}

/// A written number is made of digits, and they stand for it.
pub proof fn lemma_decimal_digits(n: nat)
    ensures
        decimal(n).len() > 0,
        forall|i: int| 0 <= i < decimal(n).len() ==> is_digit(#[trigger] decimal(n)[i]),
        digits_value(decimal(n)) == n,
    decreases n,
{
    if n < 10 {
        assert(decimal(n).drop_last() =~= Seq::<char>::empty());
        assert(digits_value(Seq::<char>::empty()) == 0);
    } else {
        lemma_decimal_digits(n / 10);
        assert(decimal(n).drop_last() =~= decimal(n / 10));
        assert forall|i: int| 0 <= i < decimal(n).len() implies is_digit(
            #[trigger] decimal(n)[i],
        ) by {
            if i < decimal(n / 10).len() {
                assert(decimal(n)[i] == decimal(n / 10)[i]);
            }
        }
    }
}

/// Whether a character is white space: Unicode's `White_Space` property.
pub open spec fn is_white_space(c: char) -> bool {
    ||| '\u{9}' <= c <= '\u{d}'
    ||| c == ' '
    ||| c == '\u{85}'
    ||| c == '\u{a0}'
    ||| c == '\u{1680}'
    ||| '\u{2000}' <= c <= '\u{200a}'
    ||| c == '\u{2028}'
    ||| c == '\u{2029}'
    ||| c == '\u{202f}'
    ||| c == '\u{205f}'
    ||| c == '\u{3000}'
}

fn white_space(c: char) -> (b: bool)
    ensures
        b == is_white_space(c),
{
    ('\u{9}' <= c && c <= '\u{d}') || c == ' ' || c == '\u{85}' || c == '\u{a0}' || c == '\u{1680}'
        || ('\u{2000}' <= c && c <= '\u{200a}') || c == '\u{2028}' || c == '\u{2029}' || c
        == '\u{202f}' || c == '\u{205f}' || c == '\u{3000}'
}

/// A text without the white space at its start.
pub open spec fn trimmed_start(text: Seq<char>) -> Seq<char>
    decreases text.len(),
{
    if text.len() > 0 && is_white_space(text[0]) {
        trimmed_start(text.drop_first())
    } else {
        text
    }
}

/// A text without the white space at its end.
pub open spec fn trimmed_end(text: Seq<char>) -> Seq<char>
    decreases text.len(),
{
    if text.len() > 0 && is_white_space(text.last()) {
        trimmed_end(text.drop_last())
    } else {
        text
    }
}

/// A text without the white space around it.
pub open spec fn trimmed(text: Seq<char>) -> Seq<char> {
    trimmed_end(trimmed_start(text))
}

/// Takes the white space around a text away.
pub fn trim(text: &str) -> (rest: String)
    ensures
        rest@ == trimmed(text@),
{
    let chars = characters(text);
    let mut start: usize = 0;
    assert(text@.skip(0) =~= text@);
    while start < chars.len() && white_space(chars[start])
        invariant
            chars@ == text@,
            start <= chars@.len(),
            trimmed_start(text@) == trimmed_start(text@.skip(start as int)),
        decreases chars@.len() - start,
    {
        assert(text@.skip(start as int).drop_first() =~= text@.skip(start + 1));
        start = start + 1;
    }
    let mut end: usize = chars.len();
    let ghost body = text@.skip(start as int);
    assert(text@.subrange(start as int, end as int) =~= body);
    assert(trimmed_start(text@) == body);
    while end > start && white_space(chars[end - 1])
        invariant
            chars@ == text@,
            start <= end <= chars@.len(),
            trimmed_end(body) == trimmed_end(text@.subrange(start as int, end as int)),
        decreases end,
    {
        assert(text@.subrange(start as int, end as int).drop_last() =~= text@.subrange(
            start as int,
            end - 1,
        ));
        end = end - 1;
    }
    text_of(&chars, start, end)
}

/// White space before a text that begins otherwise is taken away.
pub proof fn lemma_trimmed_start(space: Seq<char>, body: Seq<char>)
    requires
        forall|i: int| 0 <= i < space.len() ==> is_white_space(#[trigger] space[i]),
        body.len() > 0 ==> !is_white_space(body[0]),
    ensures
        trimmed_start(space + body) == body,
    decreases space.len(),
{
    if space.len() == 0 {
        assert(space + body =~= body);
    } else {
        let rest = space.drop_first();
        assert((space + body)[0] == space[0]);
        assert((space + body).drop_first() =~= rest + body);
        lemma_trimmed_start(rest, body);
    }
}

/// White space after a text that ends otherwise is taken away.
pub proof fn lemma_trimmed_end(body: Seq<char>, space: Seq<char>)
    requires
        forall|i: int| 0 <= i < space.len() ==> is_white_space(#[trigger] space[i]),
        body.len() > 0 ==> !is_white_space(body.last()),
    ensures
        trimmed_end(body + space) == body,
    decreases space.len(),
{
    if space.len() == 0 {
        assert(body + space =~= body);
    } else {
        let rest = space.drop_last();
        assert((body + space).last() == space[space.len() - 1]);
        assert((body + space).drop_last() =~= body + rest);
        lemma_trimmed_end(body, rest);
    }
}

/// How often a line feed occurs in a text.
pub open spec fn line_feeds(text: Seq<char>) -> nat
    decreases text.len(),
{
    if text.len() == 0 {
        0
    } else if text.last() == '\n' {
        line_feeds(text.drop_last()) + 1
    } else {
        line_feeds(text.drop_last())
    }
}

/// The number of lines of a text: each ends in a line feed, but the last need
/// not.
pub open spec fn line_count(text: Seq<char>) -> nat {
    if text.len() > 0 && text.last() != '\n' {
        line_feeds(text) + 1
    } else {
        line_feeds(text)
    }
}

/// Counts the lines of a text.
pub fn count_lines(text: &str) -> (n: usize)
    ensures
        n == line_count(text@),
{
    let chars = characters(text);
    let mut feeds: usize = 0;
    assert(text@.take(0).len() == 0);
    for i in 0..chars.len()
        invariant
            chars@ == text@,
            feeds <= i,
            feeds == line_feeds(text@.take(i as int)),
            i > 0 && text@[i - 1] != '\n' ==> feeds < i,
    {
        assert(text@.take(i + 1).drop_last() =~= text@.take(i as int));
        if chars[i] == '\n' {
            feeds = feeds + 1;
        }
    }
    assert(text@.take(text@.len() as int) =~= text@);
    if chars.len() > 0 && chars[chars.len() - 1] != '\n' {
        feeds + 1
    } else {
        feeds
    }
}

/// Texts in a row, with a separator between each two.
pub open spec fn joined(parts: Seq<Seq<char>>, separator: Seq<char>) -> Seq<char>
    decreases parts.len(),
{
    if parts.len() <= 1 {
        if parts.len() == 0 {
            Seq::empty()
        } else {
            parts[0]
        }
    } else {
        joined(parts.drop_last(), separator) + separator + parts.last()
    }
}

/// Puts texts in a row, with a separator between each two.
pub fn join(parts: &Vec<String>, separator: &str) -> (text: String)
    ensures
        text@ == joined(parts.deep_view(), separator@),
{
    let ghost views = parts.deep_view();
    let mut text = String::new();
    assert(views.take(0).len() == 0);
    for i in 0..parts.len()
        invariant
            views == parts.deep_view(),
            text@ == joined(views.take(i as int), separator@),
    {
        assert(views.take(i + 1).drop_last() =~= views.take(i as int));
        assert(views.take(i + 1).last() == parts@[i as int]@);
        if i > 0 {
            text.append(separator);
        }
        let ghost before = text@;
        text.append(parts[i].as_str());
        assert(i == 0 ==> before + parts@[i as int]@ =~= parts@[i as int]@);
    }
    assert(views.take(views.len() as int) =~= views);
    text
}

/// The model of a result whose error is told by a text.
pub open spec fn result_view<T: DeepView>(result: Result<T, String>) -> Result<T::V, Seq<char>> {
    match result {
        Ok(value) => Ok(value.deep_view()),
        Err(error) => Err(error@),
    }
}

/// The text that bytes stand for in UTF-8, with a replacement character in the
/// place of what is none.
pub uninterp spec fn lossy_text(bytes: Seq<u8>) -> Seq<char>;

/// `String::from_utf8_lossy`: bytes that are UTF-8 stand for the text that they
/// encode.
#[verifier::external_body]
pub(crate) fn utf8_lossy(bytes: &[u8]) -> (text: String)
    ensures
        text@ == lossy_text(bytes@),
        valid_utf8(bytes@) ==> text@ == decode_utf8(bytes@),
{
    std::string::String::from_utf8_lossy(bytes).into_owned()
}

/// `String::from_utf8`: the text that bytes encode, where they are UTF-8, and
/// nothing where they are not.
#[verifier::external_body]
pub(crate) fn utf8_text(bytes: Vec<u8>) -> (text: Option<String>)
    ensures
        match text {
            Some(text) => valid_utf8(bytes@) && text@ == decode_utf8(bytes@),
            None => !valid_utf8(bytes@),
        },
{
    std::string::String::from_utf8(bytes).ok()
}

}
