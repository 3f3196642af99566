use wordle::feedback::{classify, State};

fn word(text: &str) -> [char; 5] {
    let mut out = [' '; 5];
    for (i, c) in text.chars().enumerate() {
        out[i] = c;
    }
    out
}

fn positive(state: State) -> bool {
    state == State::CorrectInWord || state == State::IncorrectInWord
}

#[test]
fn speed_against_erase() {
    // No place agrees; R and A are not in SPEED; the two E and the S each
    // find a free partner.
    let out = classify(&word("ERASE"), &word("SPEED"));
    assert_eq!(
        out,
        [
            State::IncorrectInWord,
            State::NotInWord,
            State::NotInWord,
            State::IncorrectInWord,
            State::IncorrectInWord,
        ]
    );
}

#[test]
fn alloy_against_lolly() {
    let out = classify(&word("LOLLY"), &word("ALLOY"));
    assert_eq!(
        out,
        [
            State::IncorrectInWord,
            State::IncorrectInWord,
            State::CorrectInWord,
            State::NotInWord,
            State::CorrectInWord,
        ]
    );
    let marked = (0..5)
        .filter(|&i| word("LOLLY")[i] == 'L' && positive(out[i]))
        .count();
    assert_eq!(marked, 2);
}

#[test]
fn answer_itself_is_all_correct() {
    for text in ["SPEED", "ALLOY", "AAAAA", "QUICK"] {
        assert_eq!(classify(&word(text), &word(text)), [State::CorrectInWord; 5]);
    }
}

#[test]
fn repeated_letter_is_marked_once() {
    // One E in the answer, two in the guess, none in place.
    let out = classify(&word("EERIE"), &word("BAKED"));
    assert_eq!(
        out,
        [
            State::IncorrectInWord,
            State::NotInWord,
            State::NotInWord,
            State::NotInWord,
            State::NotInWord,
        ]
    );
}

#[test]
fn correct_place_is_settled_before_misplaced() {
    // The only L of the answer is taken by the L in place.
    let out = classify(&word("LLAMA"), &word("ALOFT"));
    assert_eq!(
        out,
        [
            State::NotInWord,
            State::CorrectInWord,
            State::IncorrectInWord,
            State::NotInWord,
            State::NotInWord,
        ]
    );
}

#[test]
fn nothing_in_common_is_all_absent() {
    assert_eq!(classify(&word("QUICK"), &word("LLAMA")), [State::NotInWord; 5]);
}

#[test]
fn positives_never_exceed_occurrences() {
    let words = [
        "SPEED", "ERASE", "ALLOY", "LOLLY", "AAAAA", "ABABA", "BABAB", "EERIE", "LLAMA", "GEESE",
    ];
    for guess in words {
        for answer in words {
            let g = word(guess);
            let a = word(answer);
            let out = classify(&g, &a);
            for letter in 'A'..='Z' {
                let marked = (0..5).filter(|&i| g[i] == letter && positive(out[i])).count();
                let held = (0..5).filter(|&i| a[i] == letter).count();
                assert!(marked <= held);
            }
            for i in 0..5 {
                assert_eq!(out[i] == State::CorrectInWord, g[i] == a[i]);
                assert_ne!(out[i], State::NotFinalized);
            }
        }
    }
}

#[test]
fn states_are_ordered() {
    assert!(State::NotFinalized < State::NotInWord);
    assert!(State::NotInWord < State::IncorrectInWord);
    assert!(State::IncorrectInWord < State::CorrectInWord);
    let all = [
        State::NotFinalized,
        State::NotInWord,
        State::IncorrectInWord,
        State::CorrectInWord,
    ];
    for a in all {
        for b in all {
            assert_eq!(a.at_least(&b), a >= b);
        }
    }
}
