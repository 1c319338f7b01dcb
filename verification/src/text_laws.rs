//! What holds of numbers, lines and white space in texts.

use crate::text::{
    all_digits, decimal, digits_value, is_digit, is_white_space, joined, lemma_decimal_digits,
    lemma_trimmed_end, lemma_trimmed_start, line_count, line_feeds, parsed_decimal, signed_decimal,
    starts_with, trimmed,
};
use vstd::prelude::*;

verus! {

/// A text begins with another exactly where it is that other with something
/// behind it.
pub proof fn a_prefix_is_followed_by_the_rest(text: Seq<char>, prefix: Seq<char>)
    ensures
        starts_with(text, prefix) <==> exists|rest: Seq<char>| text == #[trigger] (prefix + rest),
{
    if starts_with(text, prefix) {
        assert(prefix + text.skip(prefix.len() as int) =~= text);
    }
    if exists|rest: Seq<char>| text == #[trigger] (prefix + rest) {
        let rest = choose|rest: Seq<char>| text == #[trigger] (prefix + rest);
        assert((prefix + rest).take(prefix.len() as int) =~= prefix);
    }
}

/// Numbers are written digit by digit: ten times a number and a digit more is
/// the number with the digit behind it, and a number below ten is its digit.
pub proof fn numbers_are_written_by_digits(n: nat, d: nat)
    requires
        d < 10,
    ensures
        decimal(d).len() == 1,
        decimal(d)[0] as u32 == '0' as u32 + d,
        n > 0 ==> decimal(10 * n + d) == decimal(n) + decimal(d),
{
    if n > 0 {
        assert((10 * n + d) / 10 == n && (10 * n + d) % 10 == d) by (nonlinear_arith)
            requires
                d < 10,
        ;
        assert(decimal(n) + decimal(d) =~= decimal(10 * n + d));
    }
}

/// A number is written without a sign, and one of several digits does not begin
/// with a zero. Different numbers are written differently.
pub proof fn numbers_are_told_apart(a: nat, b: nat)
    ensures
        forall|i: int| 0 <= i < decimal(a).len() ==> '0' <= #[trigger] decimal(a)[i] <= '9',
        decimal(a).len() > 1 ==> decimal(a)[0] != '0',
        decimal(a) == decimal(b) ==> a == b,
    decreases a,
{
    lemma_decimal_digits(a);
    lemma_decimal_digits(b);
    assert forall|i: int| 0 <= i < decimal(a).len() implies '0' <= #[trigger] decimal(a)[i]
        <= '9' by {
        assert(is_digit(decimal(a)[i]));
    }
    if a >= 10 {
        numbers_are_told_apart(a / 10, 0);
        lemma_decimal_digits(a / 10);
        if a < 100 {
            numbers_are_written_by_digits(0, a / 10);
        } else {
            lemma_decimal_digits(a / 10 / 10);
        }
        assert(decimal(a)[0] == decimal(a / 10)[0]);
    }
}

/// A negative number is written as its opposite behind a minus sign.
pub proof fn negative_numbers_have_a_sign(n: nat)
    ensures
        signed_decimal(n as int) == decimal(n),
        n > 0 ==> signed_decimal(-(n as int)) == seq!['-'] + decimal(n),
{
}

/// A number is read digit by digit.
pub proof fn numbers_are_read_by_digits(text: Seq<char>, c: char)
    requires
        '0' <= c <= '9',
    ensures
        parsed_decimal(seq![c]) == Some((c as u32 - '0' as u32) as nat),
        parsed_decimal(text) matches Some(n) ==> parsed_decimal(text.push(c)) == Some(
            (10 * n + (c as u32 - '0' as u32)) as nat,
        ),
{
    assert(seq![c].drop_last() =~= Seq::<char>::empty());
    assert(digits_value(Seq::<char>::empty()) == 0);
    assert(is_digit(seq![c][0]));
    if parsed_decimal(text) is Some {
        let digits = if text.len() > 0 && text[0] == '+' {
            text.drop_first()
        } else {
            text
        };
        assert(all_digits(digits));
        assert(text.len() > 0);
        let more = digits.push(c);
        if text[0] == '+' {
            assert(text.push(c).drop_first() =~= more);
        }
        assert(more.drop_last() =~= digits);
        assert forall|i: int| 0 <= i < more.len() implies is_digit(#[trigger] more[i]) by {
            if i < digits.len() {
                assert(more[i] == digits[i]);
            }
        }
    }
}

/// What is no row of digits, with a plus sign before it or not, is no number.
pub proof fn other_texts_are_no_numbers(text: Seq<char>, i: int)
    ensures
        parsed_decimal(Seq::empty()) is None,
        parsed_decimal(seq!['+']) is None,
        0 <= i < text.len() && !('0' <= text[i] <= '9') && (i > 0 || text[0] != '+')
            ==> parsed_decimal(text) is None,
        text.len() > 0 && text[0] != '+' ==> parsed_decimal(seq!['+'] + text) == parsed_decimal(
            text,
        ),
{
    assert(seq!['+'].drop_first() =~= Seq::<char>::empty());
    assert((seq!['+'] + text).drop_first() =~= text);
    if 0 <= i < text.len() && !('0' <= text[i] <= '9') && (i > 0 || text[0] != '+') {
        if text[0] == '+' {
            let digits = text.drop_first();
            assert(digits[i - 1] == text[i]);
            assert(!is_digit(digits[i - 1]));
        } else {
            assert(!is_digit(text[i]));
        }
    }
}

/// The characters that are white space, by their numbers.
pub proof fn white_space_by_number(c: char)
    ensures
        is_white_space(c) <==> ({
            let n = c as u32;
            9 <= n <= 13 || n == 0x20 || n == 0x85 || n == 0xa0 || n == 0x1680 || 0x2000 <= n
                <= 0x200a || n == 0x2028 || n == 0x2029 || n == 0x202f || n == 0x205f || n
                == 0x3000
        }),
{
}

/// The white space around a text is taken away, and nothing else is: neither
/// white space within the text nor any other character.
pub proof fn only_white_space_around_is_trimmed(
    before: Seq<char>,
    text: Seq<char>,
    behind: Seq<char>,
)
    requires
        forall|i: int| 0 <= i < before.len() ==> is_white_space(#[trigger] before[i]),
        forall|i: int| 0 <= i < behind.len() ==> is_white_space(#[trigger] behind[i]),
        text.len() > 0 ==> !is_white_space(text[0]) && !is_white_space(text.last()),
    ensures
        trimmed(before + text + behind) == text,
{
    if text.len() > 0 {
        assert(before + text + behind =~= before + (text + behind));
        lemma_trimmed_start(before, text + behind);
        lemma_trimmed_end(text, behind);
    } else {
        let space = before + behind;
        assert forall|i: int| 0 <= i < space.len() implies is_white_space(#[trigger] space[i]) by {
            if i < before.len() {
                assert(space[i] == before[i]);
            } else {
                assert(space[i] == behind[i - before.len()]);
            }
        }
        assert(before + text + behind =~= space + Seq::<char>::empty());
        lemma_trimmed_start(space, Seq::empty());
        assert(text =~= Seq::<char>::empty());
    }
}

/// Line feeds add up.
proof fn lemma_line_feeds(a: Seq<char>, b: Seq<char>)
    ensures
        line_feeds(a + b) == line_feeds(a) + line_feeds(b),
    decreases b.len(),
{
    if b.len() == 0 {
        assert(a + b =~= a);
    } else {
        assert((a + b).drop_last() =~= a + b.drop_last());
        lemma_line_feeds(a, b.drop_last());
    }
}

/// A line that ends in a line feed counts as one line, whatever follows it, and
/// so does a last line without one; a text without characters has no lines.
pub proof fn lines_are_counted_one_by_one(line: Seq<char>, rest: Seq<char>)
    requires
        !line.contains('\n'),
    ensures
        line_count(Seq::empty()) == 0,
        line.len() > 0 ==> line_count(line) == 1,
        line_count(line.push('\n') + rest) == 1 + line_count(rest),
{
    lemma_no_line_feeds(line);
    lemma_line_feeds(line.push('\n'), rest);
    assert(line.push('\n').drop_last() =~= line);
    if line.len() > 0 {
        assert(line.contains(line[line.len() - 1]));
    }
    if rest.len() > 0 {
        assert((line.push('\n') + rest).last() == rest.last());
    } else {
        assert(line.push('\n') + rest =~= line.push('\n'));
    }
}

/// A text without a line feed has none to be counted.
proof fn lemma_no_line_feeds(text: Seq<char>)
    requires
        !text.contains('\n'),
    ensures
        line_feeds(text) == 0,
    decreases text.len(),
{
    if text.len() > 0 {
        assert(text.contains(text[text.len() - 1]));
        let rest = text.drop_last();
        assert forall|i: int| 0 <= i < rest.len() implies rest[i] != '\n' by {
            assert(text.contains(text[i]));
        }
        lemma_no_line_feeds(rest);
    }
}

/// Texts are put in a row: none are nothing, one is itself, and between some
/// and some others there is one separator.
pub proof fn texts_are_put_in_a_row(
    a: Seq<Seq<char>>,
    b: Seq<Seq<char>>,
    text: Seq<char>,
    separator: Seq<char>,
)
    ensures
        joined(Seq::empty(), separator).len() == 0,
        joined(seq![text], separator) == text,
        a.len() > 0 && b.len() > 0 ==> joined(a + b, separator) == joined(a, separator) + separator
            + joined(b, separator),
    decreases b.len(),
{
    if a.len() > 0 && b.len() > 0 {
        let rest = b.drop_last();
        assert((a + b).drop_last() =~= a + rest);
        assert((a + b).last() == b.last());
        if b.len() == 1 {
            assert(a + rest =~= a);
        } else {
            texts_are_put_in_a_row(a, rest, text, separator);
            assert(joined(a, separator) + separator + joined(rest, separator) + separator
                + b.last() =~= joined(a, separator) + separator + (joined(rest, separator)
                + separator + b.last()));
        }
    }
}

}
