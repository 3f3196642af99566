//! The word list: which guesses it accepts, and how a word drawn from it
//! becomes the answer of a game.

use crate::feedback::WORDLE_COLS;
use vstd::prelude::*;
use vstd::string::StrSliceExecFns;

verus! {

/// Whether `c` is one of the capital letters `A` to `Z`.
pub open spec fn is_capital(c: char) -> bool {
    'A' <= c <= 'Z'
}

/// The small letter for a capital letter `A` to `Z`; any other character
/// itself.
pub open spec fn lower(c: char) -> char {
    if 'A' <= c <= 'Z' {
        ((c as u32) + 32) as char
    } else {
        c
    }
}

/// The capital letter for a small letter `a` to `z`; any other character
/// itself.
pub open spec fn upper(c: char) -> char {
    if 'a' <= c <= 'z' {
        ((c as u32) - 32) as char
    } else {
        c
    }
}

/// The word with each letter made small.
pub open spec fn lowered(word: Seq<char>) -> Seq<char> {
    Seq::new(word.len(), |i: int| lower(word[i]))
}

/// Whether the list holds `word` in small letters.
pub open spec fn listed(all_words: Seq<Seq<char>>, word: Seq<char>) -> bool {
    exists|i: int| 0 <= i < all_words.len() && #[trigger] all_words[i] == lowered(word)
}

/// The answer that a drawn word gives: its letters as capitals, followed by
/// spaces where it has fewer than five.
pub open spec fn answer_of(word: Seq<char>) -> Seq<char> {
    Seq::new(
        5,
        |i: int|
            if i < word.len() {
                upper(word[i])
            } else {
                ' '
            },
    )
}

/// Making a capital small and then capital again gives the capital back.
pub proof fn law_upper_undoes_lower(c: char)
    requires
        is_capital(c),
    ensures
        upper(lower(c)) == c,
        !is_capital(lower(c)),
{
}

/// The small letter for `c`.
pub fn to_lower(c: char) -> (small: char)
    ensures
        small == lower(c),
{
    if 'A' <= c && c <= 'Z' {
        ((c as u8) + 32) as char
    } else {
        c
    }
}

/// The capital letter for `c`.
pub fn to_upper(c: char) -> (capital: char)
    ensures
        capital == upper(c),
{
    if 'a' <= c && c <= 'z' {
        ((c as u8) - 32) as char
    } else {
        c
    }
}

/// Whether the entry `entry` of the list is `word`, letter for letter.
fn is_entry(entry: &str, word: &[char; WORDLE_COLS]) -> (same: bool)
    ensures
        same == (entry@ == word@),
{
    if entry.unicode_len() != WORDLE_COLS {
        return false;
    }
    for i in 0..WORDLE_COLS
        invariant
            entry@.len() == 5,
            forall|k: int| 0 <= k < i ==> #[trigger] entry@[k] == word@[k],
    {
        if entry.get_char(i) != word[i] {
            return false;
        }
    }
    assert(entry@ =~= word@);
    true
}

/// Whether the list accepts `word` as a guess: whether it holds the word in
/// small letters.
pub fn is_valid_word(word: [char; WORDLE_COLS], all_words: &Vec<String>) -> (valid: bool)
    ensures
        valid == listed(all_words.deep_view(), word@),
{
    let mut temp: [char; WORDLE_COLS] = word;
    for i in 0..WORDLE_COLS
        invariant
            forall|k: int| 0 <= k < i ==> #[trigger] temp@[k] == lower(word@[k]),
            forall|k: int| i <= k < 5 ==> #[trigger] temp@[k] == word@[k],
    {
        temp[i] = to_lower(word[i]);
    }
    assert(temp@ =~= lowered(word@));
    let len = all_words.len();
    for i in 0..len
        invariant
            len == all_words.len(),
            temp@ == lowered(word@),
            forall|k: int| 0 <= k < i ==> #[trigger] all_words.deep_view()[k] != lowered(word@),
    {
        if is_entry(all_words[i].as_str(), &temp) {
            assert(all_words.deep_view()[i as int] == lowered(word@));
            return true;
        }
    }
    false
}

/// The answer that the drawn word `word` gives, or `None` where the word has
/// more than five letters.
pub fn answer_from_word(word: &str) -> (answer: Option<[char; WORDLE_COLS]>)
    ensures
        answer is Some <==> word@.len() <= 5,
        answer matches Some(letters) ==> letters@ == answer_of(word@),
{
    let len = word.unicode_len();
    if len > WORDLE_COLS {
        return None;
    }
    let mut result: [char; WORDLE_COLS] = [' ';WORDLE_COLS];
    for i in 0..len
        invariant
            len == word@.len(),
            len <= 5,
            forall|k: int| 0 <= k < i ==> #[trigger] result@[k] == upper(word@[k]),
            forall|k: int| i <= k < 5 ==> #[trigger] result@[k] == ' ',
    {
        result[i] = to_upper(word.get_char(i));
    }
    assert(result@ =~= answer_of(word@));
    Some(result)
}

} // verus!
