//! The stored form of the statistics: seven numbers in decimal, separated by
//! white space.
//!
//! Reading takes the first seven words of the text; each must be a number
//! that fits 32 bits, written with decimal digits and, if one likes, a `+` in
//! front. What follows the seventh word is not looked at. Writing puts one
//! space between the numbers.

use vstd::prelude::*;
use vstd::string::StrSliceExecFns;
use vstd::string::StringExecFns;

verus! {

/// Whether `c` is white space.
pub open spec fn is_space(c: char) -> bool {
    ||| '\u{9}' <= c <= '\u{d}'
    ||| c == ' '
    ||| c == '\u{85}'
    ||| c == '\u{a0}'
    ||| c == '\u{1680}'
    ||| '\u{2000}' <= c <= '\u{200a}'
    ||| c == '\u{2028}'
    ||| c == '\u{2029}'
    ||| c == '\u{202f}'
    ||| c == '\u{205f}'
    ||| c == '\u{3000}'
}

/// Whether `c` is a decimal digit.
pub open spec fn is_digit(c: char) -> bool {
    '0' <= c <= '9'
}

/// Whether every character of `digits` is a decimal digit.
pub open spec fn all_digits(digits: Seq<char>) -> bool {
    forall|i: int| 0 <= i < digits.len() ==> is_digit(#[trigger] digits[i])
}

/// The number that the decimal digits `digits` write.
pub open spec fn decimal_value(digits: Seq<char>) -> nat
    decreases digits.len(),
{
    if digits.len() == 0 {
        0
    } else {
        (decimal_value(digits.drop_last()) * 10 + (digits.last() as u32 - '0' as u32)) as nat
    }
}

/// The number that a word writes, if it is a number that fits 32 bits.
pub open spec fn number_of(word: Seq<char>) -> Option<nat> {
    let digits = if word.len() > 0 && word[0] == '+' {
        word.subrange(1, word.len() as int)
    } else {
        word
    };
    if digits.len() > 0 && all_digits(digits) && decimal_value(digits) <= u32::MAX {
        Some(decimal_value(digits))
    } else {
        None
    }
}

/// The first place at or after `from` that holds no white space.
pub open spec fn skip_spaces(text: Seq<char>, from: int) -> int
    decreases text.len() - from,
{
    if 0 <= from < text.len() && is_space(text[from]) {
        skip_spaces(text, from + 1)
    } else {
        from
    }
}

/// The first place at or after `from` that holds white space, or the end of
/// the text.
pub open spec fn word_end(text: Seq<char>, from: int) -> int
    decreases text.len() - from,
{
    if 0 <= from < text.len() && !is_space(text[from]) {
        word_end(text, from + 1)
    } else {
        from
    }
}

/// `numbers` in front of what `rest` holds, if it holds anything.
pub open spec fn prepend(numbers: Seq<nat>, rest: Option<Seq<nat>>) -> Option<Seq<nat>> {
    match rest {
        Some(others) => Some(numbers + others),
        None => None,
    }
}

/// The numbers that the next `count` words from `from` on write, if there
/// are that many words and each is a number.
pub open spec fn parse_from(text: Seq<char>, from: int, count: nat) -> Option<Seq<nat>>
    decreases count,
{
    if count == 0 {
        Some(Seq::empty())
    } else {
        let start = skip_spaces(text, from);
        let end = word_end(text, start);
        if start >= text.len() {
            None
        } else {
            match number_of(text.subrange(start, end)) {
                Some(n) => prepend(seq![n], parse_from(text, end, (count - 1) as nat)),
                None => None,
            }
        }
    }
}

/// The seven counts that a text stores, if it stores seven.
pub open spec fn parsed(text: Seq<char>) -> Option<Seq<nat>> {
    parse_from(text, 0, 7)
}

/// The character for the digit `d`.
pub open spec fn digit_char(d: nat) -> char {
    (d + '0' as u32) as char
}

/// The decimal digits of `n`, without leading zeros.
pub open spec fn digits_of(n: nat) -> Seq<char>
    decreases n,
{
    if n < 10 {
        seq![digit_char(n)]
    } else {
        digits_of(n / 10).push(digit_char(n % 10))
    }
}

/// The numbers in decimal with one space between them.
pub open spec fn formatted(numbers: Seq<nat>) -> Seq<char>
    decreases numbers.len(),
{
    if numbers.len() == 0 {
        Seq::empty()
    } else if numbers.len() == 1 {
        digits_of(numbers[0])
    } else {
        digits_of(numbers[0]) + seq![' '] + formatted(numbers.drop_first())
    }
}

/// Whether `c` is white space.
pub fn is_whitespace(c: char) -> (space: bool)
    ensures
        space == is_space(c),
{
    ('\u{9}' <= c && c <= '\u{d}') || c == ' ' || c == '\u{85}' || c == '\u{a0}' || c
        == '\u{1680}' || ('\u{2000}' <= c && c <= '\u{200a}') || c == '\u{2028}' || c
        == '\u{2029}' || c == '\u{202f}' || c == '\u{205f}' || c == '\u{3000}'
}

/// A longer row of digits writes no smaller number than its beginning.
proof fn lemma_value_grows(digits: Seq<char>, upto: int)
    requires
        0 <= upto <= digits.len(),
        all_digits(digits),
    ensures
        decimal_value(digits.subrange(0, upto)) <= decimal_value(digits),
    decreases digits.len() - upto,
{
    if upto < digits.len() {
        lemma_value_grows(digits, upto + 1);
        assert(digits.subrange(0, upto + 1).drop_last() =~= digits.subrange(0, upto));
        assert(digits.subrange(0, upto + 1).last() == digits[upto]);
        assert(is_digit(digits[upto]));
    } else {
        assert(digits.subrange(0, upto) =~= digits);
    }
}

/// The number that the characters from `start` to `end` write, if they are a
/// number that fits 32 bits.
fn parse_number(text: &str, start: usize, end: usize) -> (number: Option<u32>)
    requires
        start <= end <= text@.len(),
    ensures
        number is Some <==> number_of(text@.subrange(start as int, end as int)) is Some,
        number matches Some(n) ==> number_of(text@.subrange(start as int, end as int)) == Some(
            n as nat,
        ),
{
    let ghost word = text@.subrange(start as int, end as int);
    let mut at: usize = start;
    if start < end && text.get_char(start) == '+' {
        at = start + 1;
    }
    let ghost digits = text@.subrange(at as int, end as int);
    assert(digits =~= if word.len() > 0 && word[0] == '+' {
        word.subrange(1, word.len() as int)
    } else {
        word
    });
    if at == end {
        return None;
    }
    let first: usize = at;
    let mut value: u64 = 0;
    while at < end
        invariant
            first <= at <= end <= text@.len(),
            first < end,
            word == text@.subrange(start as int, end as int),
            digits == text@.subrange(first as int, end as int),
            digits == if word.len() > 0 && word[0] == '+' {
                word.subrange(1, word.len() as int)
            } else {
                word
            },
            all_digits(digits.subrange(0, at - first)),
            value == decimal_value(digits.subrange(0, at - first)),
            value <= u32::MAX,
        decreases end - at,
    {
        let c = text.get_char(at);
        assert(c == digits[at - first]);
        if !('0' <= c && c <= '9') {
            return None;
        }
        let digit: u64 = (c as u32 - '0' as u32) as u64;
        proof {
            assert(digits.subrange(0, at - first + 1).drop_last() =~= digits.subrange(
                0,
                at - first,
            ));
            assert(digits.subrange(0, at - first + 1).last() == c);
            assert forall|i: int| 0 <= i < at - first + 1 implies is_digit(
                #[trigger] digits.subrange(0, at - first + 1)[i],
            ) by {
                if i < at - first {
                    assert(digits.subrange(0, at - first)[i] == digits[i]);
                }
            }
        }
        value = value * 10 + digit;
        if value > u32::MAX as u64 {
            proof {
                if all_digits(digits) {
                    lemma_value_grows(digits, at - first + 1);
                }
            }
            return None;
        }
        at = at + 1;
    }
    assert(digits.subrange(0, at - first) =~= digits);
    Some(value as u32)
}

/// The first place at or after `from` that holds no white space.
fn next_word(text: &str, from: usize) -> (start: usize)
    requires
        from <= text@.len(),
    ensures
        start == skip_spaces(text@, from as int),
        from <= start <= text@.len(),
{
    let len = text.unicode_len();
    let mut at: usize = from;
    while at < len && is_whitespace(text.get_char(at))
        invariant
            len == text@.len(),
            from <= at <= len,
            skip_spaces(text@, at as int) == skip_spaces(text@, from as int),
        decreases len - at,
    {
        at = at + 1;
    }
    at
}

/// The first place at or after `from` that holds white space, or the end of
/// the text.
fn end_of_word(text: &str, from: usize) -> (end: usize)
    requires
        from <= text@.len(),
    ensures
        end == word_end(text@, from as int),
        from <= end <= text@.len(),
{
    let len = text.unicode_len();
    let mut at: usize = from;
    while at < len && !is_whitespace(text.get_char(at))
        invariant
            len == text@.len(),
            from <= at <= len,
            word_end(text@, at as int) == word_end(text@, from as int),
        decreases len - at,
    {
        at = at + 1;
    }
    at
}

/// The numbers as mathematical numbers.
pub open spec fn as_numbers(counters: Seq<u32>) -> Seq<nat> {
    counters.map_values(|n: u32| n as nat)
}

/// Reads the seven counts that `text` stores. Returns `None` where the text
/// has fewer than seven words or one of the first seven is not a number that
/// fits 32 bits.
pub fn parse_counters(text: &str) -> (counters: Option<[u32; 7]>)
    ensures
        counters is Some <==> parsed(text@) is Some,
        counters matches Some(numbers) ==> parsed(text@) == Some(as_numbers(numbers@)),
{
    let len = text.unicode_len();
    let mut result: [u32; 7] = [0;7];
    let mut at: usize = 0;
    for k in 0..7usize
        invariant
            len == text@.len(),
            at <= len,
            parsed(text@) == prepend(
                as_numbers(result@.subrange(0, k as int)),
                parse_from(text@, at as int, (7 - k) as nat),
            ),
    {
        let start = next_word(text, at);
        if start >= len {
            return None;
        }
        let end = end_of_word(text, start);
        match parse_number(text, start, end) {
            None => {
                return None;
            },
            Some(n) => {
                let ghost before = as_numbers(result@.subrange(0, k as int));
                result[k] = n;
                proof {
                    let rest = parse_from(text@, end as int, (7 - k - 1) as nat);
                    assert(as_numbers(result@.subrange(0, k + 1)) =~= before + seq![n as nat]);
                    if rest is Some {
                        assert((before + seq![n as nat]) + rest->0 =~= before + (seq![n as nat]
                            + rest->0));
                    }
                }
                at = end;
            },
        }
    }
    assert(result@.subrange(0, 7) =~= result@);
    assert(as_numbers(result@) + Seq::<nat>::empty() =~= as_numbers(result@));
    Some(result)
}

/// The digits of a number are digits, at least one, and write the number.
proof fn lemma_digits_of(n: nat)
    ensures
        digits_of(n).len() >= 1,
        all_digits(digits_of(n)),
        decimal_value(digits_of(n)) == n,
    decreases n,
{
    let last = digit_char(n % 10);
    assert('0' as u32 == 48);
    assert(last as u32 == n % 10 + 48);
    assert(is_digit(last));
    if n < 10 {
        assert(digits_of(n).drop_last() =~= Seq::<char>::empty());
        assert(digits_of(n).last() == last);
        assert(decimal_value(digits_of(n).drop_last()) == 0);
        assert(decimal_value(digits_of(n)) == n);
    } else {
        lemma_digits_of(n / 10);
        assert(digits_of(n).drop_last() =~= digits_of(n / 10));
        assert(digits_of(n).last() == last);
        assert(decimal_value(digits_of(n)) == (n / 10) * 10 + n % 10);
    }
}

/// Skipping white space in the second of two joined texts is skipping it in
/// that text alone.
proof fn lemma_skip_spaces_in_second(first: Seq<char>, second: Seq<char>, from: int)
    requires
        0 <= from <= second.len(),
    ensures
        skip_spaces(first + second, first.len() + from) == first.len() + skip_spaces(second, from),
        from <= skip_spaces(second, from) <= second.len(),
    decreases second.len() - from,
{
    if from < second.len() {
        assert((first + second)[first.len() + from] == second[from]);
        if is_space(second[from]) {
            lemma_skip_spaces_in_second(first, second, from + 1);
        }
    }
}

/// Finding the end of a word in the second of two joined texts is finding it
/// in that text alone.
proof fn lemma_word_end_in_second(first: Seq<char>, second: Seq<char>, from: int)
    requires
        0 <= from <= second.len(),
    ensures
        word_end(first + second, first.len() + from) == first.len() + word_end(second, from),
        from <= word_end(second, from) <= second.len(),
    decreases second.len() - from,
{
    if from < second.len() {
        assert((first + second)[first.len() + from] == second[from]);
        if !is_space(second[from]) {
            lemma_word_end_in_second(first, second, from + 1);
        }
    }
}

/// Reading numbers in the second of two joined texts is reading them in that
/// text alone.
proof fn lemma_parse_in_second(first: Seq<char>, second: Seq<char>, from: int, count: nat)
    requires
        0 <= from <= second.len(),
    ensures
        parse_from(first + second, first.len() + from, count) == parse_from(second, from, count),
    decreases count,
{
    if count > 0 {
        lemma_skip_spaces_in_second(first, second, from);
        let start = skip_spaces(second, from);
        lemma_word_end_in_second(first, second, start);
        let end = word_end(second, start);
        assert((first + second).subrange(first.len() + start, first.len() + end)
            =~= second.subrange(start, end));
        lemma_parse_in_second(first, second, end, (count - 1) as nat);
    }
}

/// A text that begins with digits, followed by white space or nothing, has
/// its first word end where the digits end.
proof fn lemma_word_end_after_digits(text: Seq<char>, digits: Seq<char>, from: int)
    requires
        0 <= from <= digits.len() <= text.len(),
        text.subrange(0, digits.len() as int) == digits,
        all_digits(digits),
        text.len() == digits.len() || is_space(text[digits.len() as int]),
    ensures
        word_end(text, from) == digits.len(),
    decreases digits.len() - from,
{
    if from < digits.len() {
        assert(text[from] == digits[from]);
        assert(is_digit(digits[from]));
        lemma_word_end_after_digits(text, digits, from + 1);
    }
}

/// Reading as many numbers as were written gives them back.
proof fn lemma_read_back(numbers: Seq<nat>)
    requires
        forall|i: int| 0 <= i < numbers.len() ==> #[trigger] numbers[i] <= u32::MAX,
    ensures
        parse_from(formatted(numbers), 0, numbers.len()) == Some(numbers),
    decreases numbers.len(),
{
    let text = formatted(numbers);
    if numbers.len() == 0 {
        assert(numbers =~= Seq::<nat>::empty());
    } else {
        let first = numbers[0];
        let digits = digits_of(first);
        let tail = numbers.drop_first();
        lemma_digits_of(first);
        assert(is_digit(digits[0]));
        assert(text[0] == digits[0] && text.subrange(0, digits.len() as int) =~= digits && (
        text.len() == digits.len() || text[digits.len() as int] == ' ')) by {
            if numbers.len() > 1 {
                assert(text =~= digits + (seq![' '] + formatted(tail)));
            }
        }
        lemma_word_end_after_digits(text, digits, 0);
        assert(skip_spaces(text, 0) == 0);
        assert(word_end(text, 0) == digits.len());
        assert(number_of(digits) == Some(first));
        assert(number_of(text.subrange(0, digits.len() as int)) == Some(first));
        let after = parse_from(text, digits.len() as int, tail.len());
        assert(parse_from(text, 0, numbers.len()) == prepend(seq![first], after));
        assert(after == Some(tail)) by {
            if tail.len() > 0 {
                let rest = seq![' '] + formatted(tail);
                assert(text =~= digits + rest);
                lemma_parse_in_second(digits, rest, 0, tail.len());
                assert(rest[0] == ' ');
                assert(skip_spaces(rest, 0) == skip_spaces(rest, 1));
                assert(parse_from(rest, 0, tail.len()) == parse_from(rest, 1, tail.len()));
                lemma_parse_in_second(seq![' '], formatted(tail), 0, tail.len());
                assert forall|i: int| 0 <= i < tail.len() implies #[trigger] tail[i]
                    <= u32::MAX by {
                    assert(tail[i] == numbers[i + 1]);
                }
                lemma_read_back(tail);
            } else {
                assert(tail =~= Seq::<nat>::empty());
            }
        }
        assert(seq![first] + tail =~= numbers);
    }
}

/// Seven counts that were written are read back as they were.
pub proof fn law_stored_counts_read_back(numbers: Seq<nat>)
    requires
        numbers.len() == 7,
        forall|i: int| 0 <= i < 7 ==> #[trigger] numbers[i] <= u32::MAX,
    ensures
        parsed(formatted(numbers)) == Some(numbers),
{
    lemma_read_back(numbers);
}

/// The text for one decimal digit.
fn digit_text(d: u32) -> (text: &'static str)
    requires
        d < 10,
    ensures
        text@ == seq![digit_char(d as nat)],
{
    proof {
        reveal_strlit("0");
        reveal_strlit("1");
        reveal_strlit("2");
        reveal_strlit("3");
        reveal_strlit("4");
        reveal_strlit("5");
        reveal_strlit("6");
        reveal_strlit("7");
        reveal_strlit("8");
        reveal_strlit("9");
    }
    let text = match d {
        0 => "0",
        1 => "1",
        2 => "2",
        3 => "3",
        4 => "4",
        5 => "5",
        6 => "6",
        7 => "7",
        8 => "8",
        _ => "9",
    };
    assert(text@ =~= seq![digit_char(d as nat)]);
    text
}

/// Writes the decimal digits of `n` at the end of `out`.
fn push_number(out: &mut String, n: u32)
    ensures
        final(out)@ == old(out)@ + digits_of(n as nat),
    decreases n,
{
    if n >= 10 {
        push_number(out, n / 10);
    }
    out.append(digit_text(n % 10));
    assert(out@ =~= old(out)@ + digits_of(n as nat));
}

/// The text `written` followed by the numbers `rest`, each after a space.
spec fn continued(written: Seq<char>, rest: Seq<nat>) -> Seq<char> {
    if rest.len() == 0 {
        written
    } else {
        written + seq![' '] + formatted(rest)
    }
}

/// The text that stores the seven counts.
pub fn format_counters(counters: &[u32; 7]) -> (text: String)
    ensures
        text@ == formatted(as_numbers(counters@)),
{
    let ghost numbers = as_numbers(counters@);
    let mut out = String::new();
    push_number(&mut out, counters[0]);
    proof {
        reveal_strlit(" ");
        assert(numbers.drop_first() =~= numbers.subrange(1, 7));
        assert(out@ =~= digits_of(numbers[0]));
    }
    for k in 1..7usize
        invariant
            numbers == as_numbers(counters@),
            " "@ == seq![' '],
            formatted(numbers) == continued(out@, numbers.subrange(k as int, 7)),
    {
        let ghost before = out@;
        out.append(" ");
        push_number(&mut out, counters[k]);
        proof {
            let rest = numbers.subrange(k as int, 7);
            assert(rest[0] == counters@[k as int] as nat);
            assert(rest.drop_first() =~= numbers.subrange(k + 1, 7));
            assert(continued(before, rest) =~= continued(out@, numbers.subrange(k + 1, 7)));
        }
    }
    out
}

} // verus!
