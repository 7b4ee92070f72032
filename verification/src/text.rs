//! Text building blocks: decimal numbers, alignment and trimming.

use vstd::prelude::*;
use vstd::string::{StrSliceExecFns, StringExecFns};

verus! {

/// The decimal digit for `d`.
pub open spec fn digit_char(d: int) -> char {
    (48 + d) as char
}

/// Whether `c` is a decimal digit.
pub open spec fn is_digit(c: char) -> bool {
    '0' <= c <= '9'
}

/// `n` in decimal, without leading zeros.
pub open spec fn decimal_text(n: nat) -> Seq<char>
    decreases n,
{
    if n < 10 {
        seq![digit_char(n as int)]
    } else {
        decimal_text(n / 10).push(digit_char((n % 10) as int))
    }
}

/// `text` with spaces put in front until it is `width` characters wide; longer text is kept whole.
pub open spec fn right_aligned(text: Seq<char>, width: nat) -> Seq<char> {
    if text.len() >= width {
        text
    } else {
        Seq::new((width - text.len()) as nat, |i: int| ' ') + text
    }
}

/// `text` without the line feeds at its end.
pub open spec fn without_final_newlines(text: Seq<char>) -> Seq<char>
    decreases text.len(),
{
    if text.len() > 0 && text.last() == '\n' {
        without_final_newlines(text.drop_last())
    } else {
        text
    }
}

/// The characters that carry Unicode's `White_Space` property.
pub open spec fn white_space(c: char) -> bool {
    let code = c as u32;
    ||| 0x09 <= code <= 0x0D
    ||| code == 0x20
    ||| code == 0x85
    ||| code == 0xA0
    ||| code == 0x1680
    ||| 0x2000 <= code <= 0x200A
    ||| code == 0x2028
    ||| code == 0x2029
    ||| code == 0x202F
    ||| code == 0x205F
    ||| code == 0x3000
}

/// `text` without its leading white space.
pub open spec fn trimmed_front(text: Seq<char>) -> Seq<char>
    decreases text.len(),
{
    if text.len() > 0 && white_space(text[0]) {
        trimmed_front(text.drop_first())
    } else {
        text
    }
}

/// `text` without its trailing white space.
pub open spec fn trimmed_back(text: Seq<char>) -> Seq<char>
    decreases text.len(),
{
    if text.len() > 0 && white_space(text.last()) {
        trimmed_back(text.drop_last())
    } else {
        text
    }
}

/// `text` without white space at either end.
pub open spec fn trimmed(text: Seq<char>) -> Seq<char> {
    trimmed_back(trimmed_front(text))
}

/// Whether `text` has neither leading nor trailing white space.
pub open spec fn has_trimmed_ends(text: Seq<char>) -> bool {
    text.len() > 0 ==> !white_space(text[0]) && !white_space(text.last())
}

/// A decimal number has at least one character, and all of them are digits.
pub proof fn lemma_decimal_text_is_digits(n: nat)
    ensures
        decimal_text(n).len() > 0,
        forall|i: int| 0 <= i < decimal_text(n).len() ==> is_digit(#[trigger] decimal_text(n)[i]),
    decreases n,
{
    if n >= 10 {
        lemma_decimal_text_is_digits(n / 10);
    }
}

proof fn lemma_trimmed_front(text: Seq<char>)
    ensures
        trimmed_front(text).len() > 0 ==> !white_space(trimmed_front(text)[0]),
    decreases text.len(),
{
    if text.len() > 0 && white_space(text[0]) {
        lemma_trimmed_front(text.drop_first());
    }
}

proof fn lemma_trimmed_back(text: Seq<char>)
    ensures
        trimmed_back(text).len() > 0 ==> {
            &&& text.len() > 0
            &&& trimmed_back(text)[0] == text[0]
            &&& !white_space(trimmed_back(text).last())
        },
    decreases text.len(),
{
    if text.len() > 0 && white_space(text.last()) {
        lemma_trimmed_back(text.drop_last());
    }
}

/// Trimming leaves no white space at either end.
pub proof fn law_trimming_clears_the_ends(text: Seq<char>)
    ensures
        has_trimmed_ends(trimmed(text)),
{
    lemma_trimmed_front(text);
    lemma_trimmed_back(trimmed_front(text));
}

/// Trimming text that has no white space at its ends changes nothing.
pub proof fn law_trimming_keeps_trimmed_text(text: Seq<char>)
    requires
        has_trimmed_ends(text),
    ensures
        trimmed(text) == text,
{
}

/// The number that a text of decimal digits stands for.
pub open spec fn number_read(text: Seq<char>) -> int
    decreases text.len(),
{
    if text.len() == 0 {
        0
    } else {
        10 * number_read(text.drop_last()) + (text.last() as int - '0' as int)
    }
}

/// A number written in decimal is read back as that number, from digits alone and without a
/// leading zero.
pub proof fn law_decimal_text_is_read_back(n: nat)
    ensures
        number_read(decimal_text(n)) == n,
        decimal_text(n).len() > 0,
        forall|i: int|
            0 <= i < decimal_text(n).len() ==> '0' <= #[trigger] decimal_text(n)[i] <= '9',
        n > 0 ==> decimal_text(n)[0] != '0',
        n == 0 ==> decimal_text(n).len() == 1,
    decreases n,
{
    lemma_decimal_text_is_digits(n);
    if n >= 10 {
        law_decimal_text_is_read_back(n / 10);
        assert(decimal_text(n).drop_last() =~= decimal_text(n / 10));
        assert(decimal_text(n)[0] == decimal_text(n / 10)[0]);
    } else {
        assert(decimal_text(n).drop_last() =~= Seq::<char>::empty());
        assert(number_read(Seq::<char>::empty()) == 0);
    }
}

/// Aligned text ends with the text, has nothing but spaces in front of it, and is as wide as asked
/// for unless the text alone is wider.
pub proof fn law_alignment_puts_spaces_in_front(text: Seq<char>, width: nat)
    ensures
        ({
            let aligned = right_aligned(text, width);
            let pad = aligned.len() - text.len();
            &&& aligned.len() == if text.len() < width { width } else { text.len() }
            &&& aligned.skip(pad) == text
            &&& forall|i: int| 0 <= i < pad ==> #[trigger] aligned[i] == ' '
        }),
{
    let aligned = right_aligned(text, width);
    assert(aligned.skip(aligned.len() - text.len()) =~= text);
}

/// Only line feeds at the end are taken off, and all of them are.
pub proof fn law_only_final_newlines_are_dropped(text: Seq<char>)
    ensures
        ({
            let rest = without_final_newlines(text);
            &&& rest.len() <= text.len()
            &&& rest == text.take(rest.len() as int)
            &&& forall|i: int| rest.len() <= i < text.len() ==> #[trigger] text[i] == '\n'
            &&& rest.len() > 0 ==> rest.last() != '\n'
        }),
    decreases text.len(),
{
    if text.len() > 0 && text.last() == '\n' {
        law_only_final_newlines_are_dropped(text.drop_last());
        let rest = without_final_newlines(text);
        assert(rest =~= text.take(rest.len() as int));
        assert forall|i: int| rest.len() <= i < text.len() implies #[trigger] text[i] == '\n' by {
            if i < text.len() - 1 {
                assert(text.drop_last()[i] == '\n');
            }
        }
    } else {
        assert(text =~= text.take(text.len() as int));
    }
}

proof fn lemma_trimmed_front_is_the_rest(text: Seq<char>)
    ensures
        ({
            let rest = trimmed_front(text);
            &&& rest.len() <= text.len()
            &&& rest == text.skip(text.len() - rest.len())
            &&& forall|i: int| 0 <= i < text.len() - rest.len() ==> white_space(#[trigger] text[i])
        }),
    decreases text.len(),
{
    let rest = trimmed_front(text);
    if text.len() > 0 && white_space(text[0]) {
        lemma_trimmed_front_is_the_rest(text.drop_first());
        assert forall|i: int| 0 <= i < text.len() - rest.len() implies white_space(
            #[trigger] text[i],
        ) by {
            if i > 0 {
                assert(white_space(text.drop_first()[i - 1]));
            }
        }
    }
    assert(rest =~= text.skip(text.len() - rest.len()));
}

proof fn lemma_trimmed_back_is_the_front(text: Seq<char>)
    ensures
        ({
            let rest = trimmed_back(text);
            &&& rest.len() <= text.len()
            &&& rest == text.take(rest.len() as int)
            &&& forall|i: int| rest.len() <= i < text.len() ==> white_space(#[trigger] text[i])
        }),
    decreases text.len(),
{
    let rest = trimmed_back(text);
    if text.len() > 0 && white_space(text.last()) {
        lemma_trimmed_back_is_the_front(text.drop_last());
        assert forall|i: int| rest.len() <= i < text.len() implies white_space(
            #[trigger] text[i],
        ) by {
            if i < text.len() - 1 {
                assert(white_space(text.drop_last()[i]));
            }
        }
    }
    assert(rest =~= text.take(rest.len() as int));
}

/// Trimming keeps one piece of the text whole, and what it takes off on either side is white space.
pub proof fn law_trimming_takes_off_white_space_only(text: Seq<char>) -> (start: int)
    ensures
        0 <= start <= start + trimmed(text).len() <= text.len(),
        trimmed(text) == text.subrange(start, start + trimmed(text).len()),
        forall|i: int| 0 <= i < start ==> white_space(#[trigger] text[i]),
        forall|i: int|
            start + trimmed(text).len() <= i < text.len() ==> white_space(#[trigger] text[i]),
{
    let front = trimmed_front(text);
    let start = text.len() - front.len();
    lemma_trimmed_front_is_the_rest(text);
    lemma_trimmed_back_is_the_front(front);
    let end = start + trimmed(text).len();
    assert(trimmed(text) =~= text.subrange(start, end));
    assert forall|i: int| end <= i < text.len() implies white_space(#[trigger] text[i]) by {
        assert(white_space(front[i - start]));
    }
    start
}

/// The decimal digit `d` as text.
fn digit_text(d: usize) -> (digit: &'static str)
    requires
        d < 10,
    ensures
        digit@ == seq![digit_char(d as int)],
{
    proof {
        reveal_strlit("0");
        reveal_strlit("1");
        reveal_strlit("2");
        reveal_strlit("3");
        reveal_strlit("4");
        reveal_strlit("5");
        reveal_strlit("6");
        reveal_strlit("7");
        reveal_strlit("8");
        reveal_strlit("9");
    }
    match d {
        0 => "0",
        1 => "1",
        2 => "2",
        3 => "3",
        4 => "4",
        5 => "5",
        6 => "6",
        7 => "7",
        8 => "8",
        _ => "9",
    }
}

/// `n` in decimal.
pub fn decimal(n: usize) -> (text: String)
    ensures
        text@ == decimal_text(n as nat),
    decreases n,
{
    if n < 10 {
        digit_text(n).to_owned()
    } else {
        let mut text = decimal(n / 10);
        text.append(digit_text(n % 10));
        text
    }
}

/// `text` padded with spaces on the left to `width` characters.
pub fn align_right(text: &str, width: usize) -> (aligned: String)
    ensures
        aligned@ == right_aligned(text@, width as nat),
{
    let length: usize = text.unicode_len();
    let mut aligned = String::new();
    let mut column: usize = length;
    while column < width
        invariant
            length == text@.len(),
            length <= column,
            column <= width || column == length,
            aligned@ == Seq::new((column - length) as nat, |i: int| ' '),
        decreases width - column,
    {
        proof {
            reveal_strlit(" ");
        }
        aligned.append(" ");
        column = column + 1;
    }
    aligned.append(text);
    aligned
}

/// Removes every line feed at the end of `text`.
///
/// Calls `str::trim_end_matches` with the line feed; the contract says that it takes off the
/// whole run of line feeds at the end and nothing else.
#[verifier::external_body]
pub(crate) fn trim_final_newlines(text: &str) -> (rest: &str)
    ensures
        rest@ == without_final_newlines(text@),
{
    text.trim_end_matches('\n')
}

/// Removes the white space at both ends of `text`.
///
/// Calls `str::trim`; the contract says that it takes off the leading and the trailing characters
/// with Unicode's `White_Space` property and nothing else.
#[verifier::external_body]
pub(crate) fn trim_white_space(text: &str) -> (rest: &str)
    ensures
        rest@ == trimmed(text@),
{
    text.trim()
}

} // verus!
