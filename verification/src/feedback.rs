//! Per-letter feedback for a guess against the hidden answer.
//!
//! A letter of the guess is *correct* where the answer has the same letter in
//! the same place. Among the remaining places, the occurrences of a letter in
//! the guess are paired, left to right, with the occurrences of that letter
//! that the answer still has free; a paired letter is *misplaced*, an unpaired
//! one is *absent*.

use vstd::prelude::*;

verus! {

/// Number of letters in a word.
pub const WORDLE_COLS: usize = 5;

/// What is known about one letter, from least to most informative.
#[derive(Clone, Copy, Debug, PartialEq, Eq, PartialOrd, Ord, Hash, Structural)]
pub enum State {
    NotFinalized,
    NotInWord,
    IncorrectInWord,
    CorrectInWord,
}

impl State {
    /// Position of the state in the order `NotFinalized < NotInWord <
    /// IncorrectInWord < CorrectInWord`.
    pub open spec fn rank(self) -> nat {
        match self {
            State::NotFinalized => 0,
            State::NotInWord => 1,
            State::IncorrectInWord => 2,
            State::CorrectInWord => 3,
        }
    }

    /// The more informative of two states.
    pub open spec fn higher(self, other: State) -> State {
        if other.rank() > self.rank() {
            other
        } else {
            self
        }
    }

    /// Whether `self` is at least as informative as `other`.
    pub fn at_least(&self, other: &State) -> (r: bool)
        ensures
            r == (self.rank() >= other.rank()),
    {
        match (self, other) {
            (State::CorrectInWord, _) => true,
            (State::IncorrectInWord, State::CorrectInWord) => false,
            (State::IncorrectInWord, _) => true,
            (State::NotInWord, State::NotFinalized) => true,
            (State::NotInWord, State::NotInWord) => true,
            (State::NotInWord, _) => false,
            (State::NotFinalized, State::NotFinalized) => true,
            (State::NotFinalized, _) => false,
        }
    }
}

/// Number of places `k < upto` where `s` has the letter `c` and `t` has
/// another letter.
pub open spec fn unmatched(s: Seq<char>, t: Seq<char>, c: char, upto: int) -> nat
    decreases upto,
{
    if upto <= 0 {
        0
    } else {
        unmatched(s, t, c, upto - 1) + if s[upto - 1] == c && t[upto - 1] != c {
            1nat
        } else {
            0nat
        }
    }
}

/// Number of places `k < upto` where `s` has the letter `c`.
pub open spec fn occurrences(s: Seq<char>, c: char, upto: int) -> nat
    decreases upto,
{
    if upto <= 0 {
        0
    } else {
        occurrences(s, c, upto - 1) + if s[upto - 1] == c {
            1nat
        } else {
            0nat
        }
    }
}

/// The feedback for place `i` of `guess`.
pub open spec fn outcome_at(guess: Seq<char>, answer: Seq<char>, i: int) -> State {
    let c = guess[i];
    if answer[i] == c {
        State::CorrectInWord
    } else if unmatched(guess, answer, c, i) < unmatched(answer, guess, c, answer.len() as int) {
        State::IncorrectInWord
    } else {
        State::NotInWord
    }
}

/// The feedback for every place of `guess`.
pub open spec fn outcomes(guess: Seq<char>, answer: Seq<char>) -> Seq<State> {
    Seq::new(guess.len(), |i: int| outcome_at(guess, answer, i))
}

/// Number of places `k < upto` where `guess` has the letter `c` and the
/// feedback is correct or misplaced.
pub open spec fn positives(guess: Seq<char>, answer: Seq<char>, c: char, upto: int) -> nat
    decreases upto,
{
    if upto <= 0 {
        0
    } else {
        positives(guess, answer, c, upto - 1) + if guess[upto - 1] == c && outcome_at(
            guess,
            answer,
            upto - 1,
        ) != State::NotInWord {
            1nat
        } else {
            0nat
        }
    }
}

proof fn lemma_unmatched_monotonic(s: Seq<char>, t: Seq<char>, c: char, i: int, j: int)
    requires
        i <= j,
    ensures
        unmatched(s, t, c, i) <= unmatched(s, t, c, j),
    decreases j - i,
{
    if i < j {
        lemma_unmatched_monotonic(s, t, c, i, j - 1);
    }
}

/// A letter that `s` does not have is nowhere unmatched in `s`.
proof fn lemma_unmatched_of_missing_letter(s: Seq<char>, t: Seq<char>, c: char, n: int)
    requires
        forall|k: int| 0 <= k < n ==> s[k] != c,
    ensures
        unmatched(s, t, c, n) == 0,
    decreases n,
{
    if 0 < n {
        lemma_unmatched_of_missing_letter(s, t, c, n - 1);
    }
}

/// Every count below `unmatched(s, t, c, n)` is the count at some unmatched
/// place of `c` before `n`.
proof fn lemma_unmatched_place(s: Seq<char>, t: Seq<char>, c: char, n: int, m: nat) -> (j: int)
    requires
        m < unmatched(s, t, c, n),
    ensures
        0 <= j < n,
        s[j] == c,
        t[j] != c,
        unmatched(s, t, c, j) == m,
    decreases n,
{
    if n <= 0 {
        0
    } else if unmatched(s, t, c, n - 1) > m {
        lemma_unmatched_place(s, t, c, n - 1, m)
    } else {
        n - 1
    }
}

/// Number of places `k < upto` where both words have the letter `c`.
spec fn matched(guess: Seq<char>, answer: Seq<char>, c: char, upto: int) -> nat
    decreases upto,
{
    if upto <= 0 {
        0
    } else {
        matched(guess, answer, c, upto - 1) + if guess[upto - 1] == c && answer[upto - 1] == c {
            1nat
        } else {
            0nat
        }
    }
}

spec fn least(a: nat, b: nat) -> nat {
    if a <= b {
        a
    } else {
        b
    }
}

proof fn lemma_positives_split(guess: Seq<char>, answer: Seq<char>, c: char, upto: int)
    ensures
        positives(guess, answer, c, upto) == matched(guess, answer, c, upto) + least(
            unmatched(guess, answer, c, upto),
            unmatched(answer, guess, c, answer.len() as int),
        ),
    decreases upto,
{
    if upto > 0 {
        lemma_positives_split(guess, answer, c, upto - 1);
    }
}

proof fn lemma_occurrences_split(guess: Seq<char>, answer: Seq<char>, c: char, upto: int)
    ensures
        occurrences(answer, c, upto) == matched(guess, answer, c, upto) + unmatched(
            answer,
            guess,
            c,
            upto,
        ),
    decreases upto,
{
    if upto > 0 {
        lemma_occurrences_split(guess, answer, c, upto - 1);
    }
}

/// For every letter, the places of the guess that hold it and are reported as
/// correct or misplaced are no more than the places of the answer that hold
/// it.
pub proof fn law_positive_feedback_bounded(guess: Seq<char>, answer: Seq<char>, c: char)
    requires
        guess.len() == answer.len(),
    ensures
        positives(guess, answer, c, guess.len() as int) <= occurrences(
            answer,
            c,
            answer.len() as int,
        ),
{
    lemma_positives_split(guess, answer, c, guess.len() as int);
    lemma_occurrences_split(guess, answer, c, answer.len() as int);
}

/// A guess that is the answer is reported correct in every place.
pub proof fn law_exact_guess_all_correct(word: Seq<char>)
    ensures
        outcomes(word, word).len() == word.len(),
        forall|i: int| 0 <= i < word.len() ==> outcomes(word, word)[i] == State::CorrectInWord,
{
}

/// Whether place `j` of the answer is paired once the places before `i` of
/// the guess have been dealt with.
spec fn paired(guess: Seq<char>, answer: Seq<char>, i: int, j: int) -> bool {
    answer[j] == guess[j] || unmatched(answer, guess, answer[j], j) < unmatched(
        guess,
        answer,
        answer[j],
        i,
    )
}

/// Whether the letter at place `i` of the guess is nowhere in the answer.
spec fn missing(guess: Seq<char>, answer: Seq<char>, i: int) -> bool {
    forall|j: int| 0 <= j < answer.len() ==> #[trigger] answer[j] != guess[i]
}

/// Pairing is unchanged by a place of the guess that is correct or whose
/// letter the answer lacks.
proof fn lemma_settled_place_pairs_nothing(guess: Seq<char>, answer: Seq<char>, i: int)
    requires
        guess.len() == answer.len(),
        0 <= i < guess.len(),
        guess[i] == answer[i] || missing(guess, answer, i),
    ensures
        forall|j: int|
            0 <= j < answer.len() ==> (paired(guess, answer, i + 1, j) <==> paired(
                guess,
                answer,
                i,
                j,
            )),
        missing(guess, answer, i) ==> outcome_at(guess, answer, i) == State::NotInWord,
{
    if missing(guess, answer, i) {
        lemma_unmatched_of_missing_letter(answer, guess, guess[i], answer.len() as int);
    }
}

/// Where every place of the answer with the letter of place `i` is paired,
/// that place of the guess is absent and pairs nothing.
proof fn lemma_no_free_place(guess: Seq<char>, answer: Seq<char>, i: int)
    requires
        guess.len() == answer.len(),
        0 <= i < guess.len(),
        guess[i] != answer[i],
        forall|j: int|
            0 <= j < answer.len() && answer[j] == guess[i] ==> paired(guess, answer, i, j),
    ensures
        forall|j: int|
            0 <= j < answer.len() ==> (paired(guess, answer, i + 1, j) <==> paired(
                guess,
                answer,
                i,
                j,
            )),
        outcome_at(guess, answer, i) == State::NotInWord,
{
    let c = guess[i];
    let n = answer.len() as int;
    let count = unmatched(guess, answer, c, i);
    if count < unmatched(answer, guess, c, n) {
        let j = lemma_unmatched_place(answer, guess, c, n, count);
        assert(paired(guess, answer, i, j));
    }
}

/// Where `free` is the first unpaired place of the answer with the letter of
/// place `i`, that place of the guess is misplaced and pairs `free` alone.
proof fn lemma_first_free_place(guess: Seq<char>, answer: Seq<char>, i: int, free: int)
    requires
        guess.len() == answer.len(),
        0 <= i < guess.len(),
        guess[i] != answer[i],
        0 <= free < answer.len(),
        answer[free] == guess[i],
        !paired(guess, answer, i, free),
        forall|j: int| 0 <= j < free && answer[j] == guess[i] ==> paired(guess, answer, i, j),
    ensures
        forall|j: int|
            0 <= j < answer.len() ==> (paired(guess, answer, i + 1, j) <==> (j == free || paired(
                guess,
                answer,
                i,
                j,
            ))),
        outcome_at(guess, answer, i) == State::IncorrectInWord,
{
    let c = guess[i];
    let n = answer.len() as int;
    let count = unmatched(guess, answer, c, i);
    if count < unmatched(answer, guess, c, free) {
        let j = lemma_unmatched_place(answer, guess, c, free, count);
        assert(paired(guess, answer, i, j));
    }
    assert(unmatched(answer, guess, c, free) == count);
    lemma_unmatched_monotonic(answer, guess, c, free + 1, n);
    assert forall|j: int| 0 <= j < answer.len() implies (paired(guess, answer, i + 1, j) <==> (j
        == free || paired(guess, answer, i, j))) by {
        if answer[j] == c && guess[j] != c {
            if j < free {
                lemma_unmatched_monotonic(answer, guess, c, j + 1, free);
            } else if free < j {
                lemma_unmatched_monotonic(answer, guess, c, free + 1, j);
            }
        }
    }
}

/// Scores a guess against the answer, place by place.
///
/// The places where the two words agree are settled first, then the letters
/// that the answer lacks; the places left over are paired from left to right
/// with the free places of the answer that hold the same letter, and what
/// finds no partner is absent.
pub fn classify(word: &[char; WORDLE_COLS], answer: &[char; WORDLE_COLS]) -> (out: [State;
    WORDLE_COLS])
    ensures
        out@ == outcomes(word@, answer@),
{
    let ghost g = word@;
    let ghost a = answer@;
    let mut out: [State; WORDLE_COLS] = [State::NotFinalized;WORDLE_COLS];
    let mut taken_answer: [bool; WORDLE_COLS] = [false;WORDLE_COLS];
    let mut taken_guess: [bool; WORDLE_COLS] = [false;WORDLE_COLS];

    for i in 0..WORDLE_COLS
        invariant
            g == word@,
            a == answer@,
            forall|k: int|
                #![trigger out@[k]]
                #![trigger taken_guess@[k]]
                #![trigger taken_answer@[k]]
                0 <= k < 5 ==> if k < i && g[k] == a[k] {
                    out@[k] == State::CorrectInWord && taken_guess@[k] && taken_answer@[k]
                } else {
                    out@[k] == State::NotFinalized && !taken_guess@[k] && !taken_answer@[k]
                },
    {
        if word[i] == answer[i] {
            out[i] = State::CorrectInWord;
            taken_guess[i] = true;
            taken_answer[i] = true;
        }
    }

    for i in 0..WORDLE_COLS
        invariant
            g == word@,
            a == answer@,
            forall|k: int| 0 <= k < 5 ==> (#[trigger] taken_answer@[k] <==> g[k] == a[k]),
            forall|k: int|
                #![trigger out@[k]]
                #![trigger taken_guess@[k]]
                0 <= k < 5 ==> if g[k] == a[k] {
                    out@[k] == State::CorrectInWord && taken_guess@[k]
                } else if k < i && missing(g, a, k) {
                    out@[k] == State::NotInWord && taken_guess@[k]
                } else {
                    out@[k] == State::NotFinalized && !taken_guess@[k]
                },
    {
        let mut curr_letter_in_guess_is_gray: bool = true;
        for j in 0..WORDLE_COLS
            invariant
                g == word@,
                a == answer@,
                0 <= i < 5,
                curr_letter_in_guess_is_gray <==> forall|k: int|
                    0 <= k < j ==> #[trigger] a[k] != g[i as int],
        {
            if word[i] == answer[j] {
                curr_letter_in_guess_is_gray = false;
            }
        }
        if curr_letter_in_guess_is_gray {
            out[i] = State::NotInWord;
            taken_guess[i] = true;
        }
    }

    for i in 0..WORDLE_COLS
        invariant
            g == word@,
            a == answer@,
            forall|j: int|
                0 <= j < 5 ==> (#[trigger] taken_answer@[j] <==> paired(g, a, i as int, j)),
            forall|k: int|
                #![trigger out@[k]]
                #![trigger taken_guess@[k]]
                0 <= k < i ==> if taken_guess@[k] {
                    out@[k] == outcome_at(g, a, k)
                } else {
                    outcome_at(g, a, k) == State::NotInWord
                },
            forall|k: int|
                #![trigger out@[k]]
                #![trigger taken_guess@[k]]
                i <= k < 5 ==> if g[k] == a[k] {
                    out@[k] == State::CorrectInWord && taken_guess@[k]
                } else if missing(g, a, k) {
                    out@[k] == State::NotInWord && taken_guess@[k]
                } else {
                    !taken_guess@[k]
                },
    {
        let ghost before_answer = taken_answer@;
        let ghost before_guess = taken_guess@;
        let ghost before_out = out@;
        let ghost mut free: int = -1;
        for j in 0..WORDLE_COLS
            invariant
                g == word@,
                a == answer@,
                0 <= i < 5,
                -1 <= free < j,
                before_answer.len() == 5,
                before_guess.len() == 5,
                before_out.len() == 5,
                before_guess[i as int] ==> free == -1,
                free == -1 ==> {
                    &&& taken_answer@ == before_answer
                    &&& taken_guess@ == before_guess
                    &&& out@ == before_out
                    &&& !before_guess[i as int] ==> forall|k: int|
                        0 <= k < j && a[k] == g[i as int] ==> #[trigger] before_answer[k]
                },
                free != -1 ==> {
                    &&& taken_answer@ == before_answer.update(free, true)
                    &&& taken_guess@ == before_guess.update(i as int, true)
                    &&& out@ == before_out.update(i as int, State::IncorrectInWord)
                    &&& a[free] == g[i as int]
                    &&& !before_answer[free]
                    &&& forall|k: int|
                        0 <= k < free && a[k] == g[i as int] ==> #[trigger] before_answer[k]
                },
        {
            if word[i] == answer[j] {
                if taken_guess[i] == false && taken_answer[j] == false {
                    out[i] = State::IncorrectInWord;
                    taken_guess[i] = true;
                    taken_answer[j] = true;
                    proof {
                        free = j as int;
                    }
                }
            }
        }
        proof {
            let place = i as int;
            assert(before_out[place] == before_out[place]);
            if before_guess[place] {
                lemma_settled_place_pairs_nothing(g, a, place);
            } else if free == -1 {
                assert forall|k: int| 0 <= k < 5 && a[k] == g[place] implies paired(
                    g,
                    a,
                    place,
                    k,
                ) by {
                    assert(before_answer[k]);
                }
                lemma_no_free_place(g, a, place);
            } else {
                assert forall|k: int| 0 <= k < free && a[k] == g[place] implies paired(
                    g,
                    a,
                    place,
                    k,
                ) by {
                    assert(before_answer[k]);
                }
                lemma_first_free_place(g, a, place, free);
            }
            assert forall|k: int| 0 <= k < 5 implies (#[trigger] taken_answer@[k] <==> paired(
                g,
                a,
                place + 1,
                k,
            )) by {
                assert(before_answer[k] <==> paired(g, a, place, k));
            }
        }
    }

    for i in 0..WORDLE_COLS
        invariant
            g == word@,
            a == answer@,
            forall|k: int| 0 <= k < i ==> #[trigger] out@[k] == outcome_at(g, a, k),
            forall|k: int|
                #![trigger out@[k]]
                #![trigger taken_guess@[k]]
                i <= k < 5 ==> if taken_guess@[k] {
                    out@[k] == outcome_at(g, a, k)
                } else {
                    outcome_at(g, a, k) == State::NotInWord
                },
    {
        if taken_guess[i] == false {
            out[i] = State::NotInWord;
            taken_guess[i] = true;
        }
    }
    assert(out@ =~= outcomes(g, a));
    out
}

/// A place is reported correct exactly where the two words agree.
pub proof fn law_correct_iff_same_letter(guess: Seq<char>, answer: Seq<char>, i: int)
    ensures
        outcome_at(guess, answer, i) == State::CorrectInWord <==> guess[i] == answer[i],
        outcome_at(guess, answer, i) != State::NotFinalized,
{
}

} // verus!
