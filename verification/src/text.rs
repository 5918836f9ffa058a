//! Texts as sequences of characters: white space, searching, and decimal numbers.

use vstd::prelude::*;
use vstd::string::StringExecFns;

verus! {

/// Whether a character has the Unicode property `White_Space`.
pub open spec fn white_space(c: char) -> bool {
    ||| '\u{9}' <= c <= '\u{d}'
    ||| c == ' '
    ||| c == '\u{85}'
    ||| c == '\u{a0}'
    ||| c == '\u{1680}'
    ||| '\u{2000}' <= c <= '\u{200a}'
    ||| c == '\u{2028}'
    ||| c == '\u{2029}'
    ||| c == '\u{202f}'
    ||| c == '\u{205f}'
    ||| c == '\u{3000}'
}

/// Whether a character has the Unicode property `White_Space`.
pub fn is_white_space(c: char) -> (yes: bool)
    ensures
        yes == white_space(c),
{
    ('\u{9}' <= c && c <= '\u{d}') || c == ' ' || c == '\u{85}' || c == '\u{a0}' || c == '\u{1680}'
        || ('\u{2000}' <= c && c <= '\u{200a}') || c == '\u{2028}' || c == '\u{2029}' || c
        == '\u{202f}' || c == '\u{205f}' || c == '\u{3000}'
}

/// A text without the white space at its end.
pub open spec fn trimmed_end(text: Seq<char>) -> Seq<char>
    decreases text.len(),
{
    if text.len() > 0 && white_space(text.last()) {
        trimmed_end(text.drop_last())
    } else {
        text
    }
}

/// What follows the first occurrence of `needle` in a text.
pub open spec fn after_first(text: Seq<char>, needle: Seq<char>) -> Option<Seq<char>>
    decreases text.len(),
{
    if text.len() < needle.len() {
        None
    } else if text.take(needle.len() as int) == needle {
        Some(text.skip(needle.len() as int))
    } else if text.len() == 0 {
        None
    } else {
        after_first(text.skip(1), needle)
    }
}

/// Whether a character is a decimal digit.
pub open spec fn is_digit(c: char) -> bool {
    '0' <= c <= '9'
}

/// The number that a sequence of decimal digits writes.
pub open spec fn digits_value(digits: Seq<char>) -> nat
    decreases digits.len(),
{
    if digits.len() == 0 {
        0
    } else {
        10 * digits_value(digits.drop_last()) + (digits.last() as nat - '0' as nat) as nat
    }
}

/// The size that a sequence of decimal digits writes. There must be a digit, and the size must
/// fit.
pub open spec fn parsed_digits(digits: Seq<char>) -> Option<usize> {
    if digits.len() > 0 && (forall|i: int| 0 <= i < digits.len() ==> is_digit(#[trigger] digits[i]))
        && digits_value(digits) <= usize::MAX {
        Some(digits_value(digits) as usize)
    } else {
        None
    }
}

/// The size that a text writes: decimal digits, with or without a plus sign before them.
pub open spec fn parsed_size(text: Seq<char>) -> Option<usize> {
    if text.len() > 0 && text[0] == '+' {
        parsed_digits(text.skip(1))
    } else {
        parsed_digits(text)
    }
}

/// The decimal digits of a number, without zeros before them.
pub open spec fn decimal(n: nat) -> Seq<char>
    decreases n,
{
    if n < 10 {
        seq![('0' as nat + n) as char]
    } else {
        decimal(n / 10).push(('0' as nat + n % 10) as char)
    }
}

/// Whether a text comes before another: by the first character in which they differ, or as the
/// beginning of the other.
pub open spec fn text_before(a: Seq<char>, b: Seq<char>) -> bool
    decreases a.len(),
{
    if a.len() == 0 || b.len() == 0 {
        a.len() < b.len()
    } else if a[0] != b[0] {
        a[0] < b[0]
    } else {
        text_before(a.skip(1), b.skip(1))
    }
}

/// Of two texts that differ, one comes before the other, and not the other before the one.
pub proof fn lemma_texts_are_ordered(a: Seq<char>, b: Seq<char>)
    ensures
        text_before(a, b) <==> a != b && !text_before(b, a),
    decreases a.len(),
{
    if a.len() == 0 && b.len() == 0 {
        assert(a =~= b);
    } else if a.len() > 0 && b.len() > 0 && a[0] == b[0] {
        lemma_texts_are_ordered(a.skip(1), b.skip(1));
        if a.skip(1) == b.skip(1) {
            assert(a =~= seq![a[0]] + a.skip(1));
            assert(b =~= seq![b[0]] + b.skip(1));
        }
    }
}

/// What comes before a text comes before all that the text comes before.
pub proof fn lemma_text_before_is_transitive(a: Seq<char>, b: Seq<char>, c: Seq<char>)
    requires
        text_before(a, b),
        text_before(b, c),
    ensures
        text_before(a, c),
    decreases a.len(),
{
    if a.len() > 0 && a[0] == b[0] && b[0] == c[0] {
        lemma_text_before_is_transitive(a.skip(1), b.skip(1), c.skip(1));
    }
}

/// Whether a text comes before another.
pub(crate) fn comes_before(a: &str, b: &str) -> (yes: bool)
    ensures
        yes == text_before(a@, b@),
{
    let ours = chars_of(a);
    let theirs = chars_of(b);
    let mut i: usize = 0;
    assert(ours@.skip(0) =~= a@);
    assert(theirs@.skip(0) =~= b@);
    while i < ours.len() && i < theirs.len()
        invariant
            i <= ours@.len(),
            i <= theirs@.len(),
            text_before(a@, b@) == text_before(ours@.skip(i as int), theirs@.skip(i as int)),
        decreases ours@.len() - i,
    {
        if ours[i] != theirs[i] {
            return ours[i] < theirs[i];
        }
        assert(ours@.skip(i as int).skip(1) =~= ours@.skip(i + 1));
        assert(theirs@.skip(i as int).skip(1) =~= theirs@.skip(i + 1));
        i = i + 1;
    }
    ours.len() < theirs.len()
}

/// The characters of a text.
pub(crate) fn chars_of(text: &str) -> (chars: Vec<char>)
    ensures
        chars@ == text@,
{
    let mut chars: Vec<char> = Vec::new();
    for c in it: text.chars()
        invariant
            it.seq() == text@,
            chars@ == text@.take(it.index() as int),
    {
        assert(text@.take(it.index() as int).push(c) =~= text@.take(it.index() + 1));
        chars.push(c);
    }
    assert(text@.take(text@.len() as int) =~= text@);
    chars
}

/// How many characters are left once the white space at the end is dropped.
pub(crate) fn trimmed_len(chars: &Vec<char>) -> (len: usize)
    ensures
        len <= chars@.len(),
        chars@.take(len as int) == trimmed_end(chars@),
{
    let mut len = chars.len();
    assert(chars@.take(len as int) =~= chars@);
    while len > 0 && is_white_space(chars[len - 1])
        invariant
            len <= chars@.len(),
            trimmed_end(chars@.take(len as int)) == trimmed_end(chars@),
        decreases len,
    {
        assert(chars@.take(len as int).drop_last() =~= chars@.take(len - 1));
        len = len - 1;
    }
    len
}

/// Whether `needle` stands in `chars` at `start`.
pub(crate) fn stands_at(chars: &Vec<char>, start: usize, needle: &Vec<char>) -> (yes: bool)
    requires
        start + needle@.len() <= chars@.len(),
    ensures
        yes == (chars@.subrange(start as int, start + needle@.len()) == needle@),
{
    let mut i: usize = 0;
    while i < needle.len()
        invariant
            i <= needle@.len(),
            start + needle@.len() <= chars.len(),
            forall|j: int| 0 <= j < i ==> chars@[start + j] == needle@[j],
        decreases needle@.len() - i,
    {
        if chars[start + i] != needle[i] {
            assert(chars@.subrange(start as int, start + needle@.len())[i as int] != needle@[i as int]);
            return false;
        }
        i = i + 1;
    }
    assert(chars@.subrange(start as int, start + needle@.len()) =~= needle@);
    true
}

/// Where what follows the first occurrence of `needle` in the first `end` characters starts.
pub(crate) fn find_after(chars: &Vec<char>, end: usize, needle: &Vec<char>) -> (start: Option<usize>)
    requires
        end <= chars@.len(),
        needle@.len() > 0,
    ensures
        match start {
            Some(i) => i <= end && after_first(chars@.take(end as int), needle@) == Some(
                chars@.subrange(i as int, end as int),
            ),
            None => after_first(chars@.take(end as int), needle@) is None,
        },
{
    let mut i: usize = 0;
    assert(chars@.subrange(0, end as int) =~= chars@.take(end as int));
    while needle.len() <= end - i
        invariant
            i <= end <= chars@.len(),
            needle@.len() > 0,
            after_first(chars@.take(end as int), needle@) == after_first(
                chars@.subrange(i as int, end as int),
                needle@,
            ),
        decreases end - i,
    {
        let ghost rest = chars@.subrange(i as int, end as int);
        assert(rest.take(needle@.len() as int) =~= chars@.subrange(i as int, i + needle@.len()));
        if stands_at(chars, i, needle) {
            assert(rest.skip(needle@.len() as int) =~= chars@.subrange(
                i + needle@.len(),
                end as int,
            ));
            return Some(i + needle.len());
        }
        assert(rest.skip(1) =~= chars@.subrange(i + 1, end as int));
        i = i + 1;
    }
    None
}

/// More digits write no smaller number.
proof fn lemma_digits_value_grows(digits: Seq<char>, n: int)
    requires
        0 <= n <= digits.len(),
    ensures
        digits_value(digits.take(n)) <= digits_value(digits),
    decreases digits.len() - n,
{
    if n < digits.len() {
        lemma_digits_value_grows(digits, n + 1);
        assert(digits.take(n + 1).drop_last() =~= digits.take(n));
    } else {
        assert(digits.take(n) =~= digits);
    }
}

/// Reads the size that the digits from `start` to `end` write.
fn parse_digits(chars: &Vec<char>, start: usize, end: usize) -> (size: Option<usize>)
    requires
        start <= end <= chars@.len(),
    ensures
        size == parsed_digits(chars@.subrange(start as int, end as int)),
{
    let ghost digits = chars@.subrange(start as int, end as int);
    if start == end {
        return None;
    }
    let mut value: usize = 0;
    let mut i: usize = start;
    assert(digits.take(0) =~= Seq::empty());
    while i < end
        invariant
            start <= i <= end <= chars@.len(),
            digits == chars@.subrange(start as int, end as int),
            value == digits_value(digits.take(i - start)),
            forall|j: int| 0 <= j < i - start ==> is_digit(#[trigger] digits[j]),
        decreases end - i,
    {
        let c = chars[i];
        assert(c == digits[i - start]);
        if c < '0' || '9' < c {
            assert(!is_digit(digits[i - start]));
            return None;
        }
        let digit: usize = (c as u32 - '0' as u32) as usize;
        assert(digits.take(i - start + 1).drop_last() =~= digits.take(i - start));
        if value > (usize::MAX - digit) / 10 {
            proof {
                lemma_digits_value_grows(digits, i - start + 1);
            }
            return None;
        }
        value = value * 10 + digit;
        i = i + 1;
    }
    assert(digits.take(end - start) =~= digits);
    Some(value)
}

/// Reads the size that the characters from `start` to `end` write.
pub(crate) fn parse_size(chars: &Vec<char>, start: usize, end: usize) -> (size: Option<usize>)
    requires
        start <= end <= chars@.len(),
    ensures
        size == parsed_size(chars@.subrange(start as int, end as int)),
{
    if start < end && chars[start] == '+' {
        assert(chars@.subrange(start as int, end as int).skip(1) =~= chars@.subrange(
            start + 1,
            end as int,
        ));
        parse_digits(chars, start + 1, end)
    } else {
        parse_digits(chars, start, end)
    }
}

/// The text of one decimal digit.
fn digit_text(digit: u64) -> (text: &'static str)
    requires
        digit < 10,
    ensures
        text@ == seq![('0' as nat + digit as nat) as char],
{
    proof {
        reveal_strlit("0");
        reveal_strlit("1");
        reveal_strlit("2");
        reveal_strlit("3");
        reveal_strlit("4");
        reveal_strlit("5");
        reveal_strlit("6");
        reveal_strlit("7");
        reveal_strlit("8");
        reveal_strlit("9");
    }
    match digit {
        0 => "0",
        1 => "1",
        2 => "2",
        3 => "3",
        4 => "4",
        5 => "5",
        6 => "6",
        7 => "7",
        8 => "8",
        _ => "9",
    }
}

/// Writes a number in decimal digits.
pub(crate) fn decimal_text(n: u64) -> (text: String)
    ensures
        text@ == decimal(n as nat),
    decreases n,
{
    if n < 10 {
        digit_text(n).to_owned()
    } else {
        let mut text = decimal_text(n / 10);
        text.append(digit_text(n % 10));
        assert(text@ =~= decimal(n as nat));
        text
    }
}

/// The decimal digits of a number are digits that write it.
pub proof fn lemma_decimal(n: nat)
    ensures
        decimal(n).len() > 0,
        forall|i: int| 0 <= i < decimal(n).len() ==> is_digit(#[trigger] decimal(n)[i]),
        digits_value(decimal(n)) == n,
    decreases n,
{
    if n < 10 {
        assert(decimal(n).drop_last() =~= Seq::empty());
        assert(digits_value(Seq::<char>::empty()) == 0);
    } else {
        lemma_decimal(n / 10);
        assert(decimal(n).drop_last() =~= decimal(n / 10));
    }
}

/// A size that is written in decimal digits and read again is the same size.
pub proof fn law_size_reads_back(n: usize)
    ensures
        parsed_size(decimal(n as nat)) == Some(n),
{
    lemma_decimal(n as nat);
    assert(is_digit(decimal(n as nat)[0]));
}

/// The characters that are white space, by their code points.
pub proof fn law_white_space(c: char)
    ensures
        white_space(c) <==> {
            let n = c as int;
            ||| 0x9 <= n <= 0xd
            ||| n == 0x20
            ||| n == 0x85
            ||| n == 0xa0
            ||| n == 0x1680
            ||| 0x2000 <= n <= 0x200a
            ||| n == 0x2028
            ||| n == 0x2029
            ||| n == 0x202f
            ||| n == 0x205f
            ||| n == 0x3000
        },
{
}

/// White space behind a text that does not end in white space is cut off, and nothing else.
pub proof fn law_white_space_at_the_end_is_cut_off(text: Seq<char>, spaces: Seq<char>)
    requires
        text.len() > 0 ==> !white_space(text.last()),
        forall|i: int| 0 <= i < spaces.len() ==> white_space(#[trigger] spaces[i]),
    ensures
        trimmed_end(text + spaces) == text,
    decreases spaces.len(),
{
    if spaces.len() == 0 {
        assert(text + spaces =~= text);
    } else {
        assert((text + spaces).last() == spaces[spaces.len() - 1]);
        assert((text + spaces).drop_last() =~= text + spaces.drop_last());
        law_white_space_at_the_end_is_cut_off(text, spaces.drop_last());
    }
}

/// A search finds what follows the first place where the needle stands.
pub proof fn law_first_occurrence_is_found(
    before: Seq<char>,
    needle: Seq<char>,
    rest: Seq<char>,
)
    requires
        forall|j: int|
            0 <= j < before.len() ==> #[trigger] (before + needle + rest).subrange(
                j,
                j + needle.len(),
            ) != needle,
    ensures
        after_first(before + needle + rest, needle) == Some(rest),
    decreases before.len(),
{
    let text = before + needle + rest;
    assert(text.take(needle.len() as int) =~= text.subrange(0, 0int + needle.len()));
    if before.len() == 0 {
        assert(text.take(needle.len() as int) =~= needle);
        assert(text.skip(needle.len() as int) =~= rest);
    } else {
        let shorter = before.skip(1);
        assert(text.skip(1) =~= shorter + needle + rest);
        assert forall|j: int| 0 <= j < shorter.len() implies #[trigger] (shorter + needle
            + rest).subrange(j, j + needle.len()) != needle by {
            assert((shorter + needle + rest).subrange(j, j + needle.len()) =~= text.subrange(
                j + 1,
                j + 1 + needle.len(),
            ));
        }
        law_first_occurrence_is_found(shorter, needle, rest);
    }
}

/// A search for what stands nowhere in a text finds nothing.
pub proof fn law_what_is_not_there_is_not_found(text: Seq<char>, needle: Seq<char>)
    requires
        forall|j: int|
            0 <= j <= text.len() - needle.len() ==> #[trigger] text.subrange(j, j + needle.len())
                != needle,
    ensures
        after_first(text, needle) is None,
    decreases text.len(),
{
    if text.len() >= needle.len() {
        assert(text.take(needle.len() as int) =~= text.subrange(0, 0int + needle.len()));
        if text.len() > 0 {
            let shorter = text.skip(1);
            assert forall|j: int| 0 <= j <= shorter.len() - needle.len() implies
                #[trigger] shorter.subrange(j, j + needle.len()) != needle by {
                assert(shorter.subrange(j, j + needle.len()) =~= text.subrange(
                    j + 1,
                    j + 1 + needle.len(),
                ));
            }
            law_what_is_not_there_is_not_found(shorter, needle);
        }
    }
}

/// No digits write zero, and one more digit makes ten times the number and the digit.
pub proof fn law_digits_count_in_tens(digits: Seq<char>, digit: char)
    requires
        '0' <= digit <= '9',
    ensures
        digits_value(Seq::empty()) == 0,
        digits_value(digits.push(digit)) == 10 * digits_value(digits) + (digit as int - 48),
{
    assert(digits.push(digit).drop_last() =~= digits);
}

/// A text is read as a size exactly where it is made of digits that write the size, at least one,
/// with a plus sign before them or not.
pub proof fn law_sizes_are_digits(digits: Seq<char>, size: usize)
    ensures
        parsed_size(seq!['+'] + digits) == Some(size) <==> digits.len() > 0 && digits_value(digits)
            == size && forall|i: int|
            0 <= i < digits.len() ==> '0' <= #[trigger] digits[i] <= '9',
        digits.len() > 0 && digits[0] != '+' ==> parsed_size(digits) == parsed_size(
            seq!['+'] + digits,
        ),
        parsed_size(Seq::empty()) is None,
{
    assert((seq!['+'] + digits).skip(1) =~= digits);
    if forall|i: int| 0 <= i < digits.len() ==> '0' <= #[trigger] digits[i] <= '9' {
        assert forall|i: int| 0 <= i < digits.len() implies is_digit(#[trigger] digits[i]) by {}
    }
    if parsed_digits(digits) is Some {
        assert forall|i: int| 0 <= i < digits.len() implies '0' <= #[trigger] digits[i] <= '9' by {
            assert(is_digit(digits[i]));
        }
    }
}

/// A number below ten is written as its digit. Ten times a number and a digit is written as the
/// number and then the digit.
pub proof fn law_decimal_counts_in_tens(n: nat, digit: nat)
    requires
        digit < 10,
    ensures
        decimal(digit) == seq![(48 + digit) as char],
        n > 0 ==> decimal(10 * n + digit) == decimal(n).push((48 + digit) as char),
{
}

/// Texts are compared behind what they have in common: there the one that ends comes first, or
/// else the one with the smaller character.
pub proof fn law_texts_are_compared_by_characters(
    common: Seq<char>,
    a: Seq<char>,
    b: Seq<char>,
)
    requires
        a.len() > 0 && b.len() > 0 ==> a[0] != b[0],
    ensures
        text_before(common + a, common + b) <==> b.len() > 0 && (a.len() == 0 || (a[0] as int) < (
        b[0] as int)),
    decreases common.len(),
{
    if common.len() == 0 {
        assert(common + a =~= a);
        assert(common + b =~= b);
    } else {
        assert((common + a).skip(1) =~= common.skip(1) + a);
        assert((common + b).skip(1) =~= common.skip(1) + b);
        law_texts_are_compared_by_characters(common.skip(1), a, b);
    }
}

} // verus!
