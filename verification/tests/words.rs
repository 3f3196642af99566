use wordle::words::{answer_from_word, is_valid_word, to_lower, to_upper};

fn list(words: &[&str]) -> Vec<String> {
    words.iter().map(|w| w.to_string()).collect()
}

#[test]
fn small_and_capital_letters() {
    assert_eq!(to_lower('A'), 'a');
    assert_eq!(to_lower('Z'), 'z');
    assert_eq!(to_lower('m'), 'm');
    assert_eq!(to_lower('['), '[');
    assert_eq!(to_lower('@'), '@');
    assert_eq!(to_upper('a'), 'A');
    assert_eq!(to_upper('z'), 'Z');
    assert_eq!(to_upper('Q'), 'Q');
    assert_eq!(to_upper('{'), '{');
    assert_eq!(to_upper('`'), '`');
    for c in 'A'..='Z' {
        assert_eq!(to_lower(c), c.to_ascii_lowercase());
        assert_eq!(to_upper(to_lower(c)), c);
    }
}

#[test]
fn listed_word_is_valid() {
    let words = list(&["speed", "alloy", "erase"]);
    assert!(is_valid_word(['A', 'L', 'L', 'O', 'Y'], &words));
    assert!(is_valid_word(['E', 'R', 'A', 'S', 'E'], &words));
    assert!(is_valid_word(['s', 'p', 'e', 'e', 'd'], &words));
}

#[test]
fn unlisted_word_is_not_valid() {
    let words = list(&["speed", "alloy", "erase", "SPEAK", "speeds", "spee"]);
    assert!(!is_valid_word(['L', 'O', 'L', 'L', 'Y'], &words));
    assert!(!is_valid_word(['S', 'P', 'E', 'A', 'K'], &words));
    assert!(!is_valid_word(['S', 'P', 'E', 'E', ' '], &words));
    assert!(!is_valid_word(['S', 'P', 'E', 'E', 'D'], &list(&[])));
}

#[test]
fn drawn_word_becomes_capital_answer() {
    assert_eq!(answer_from_word("speed"), Some(['S', 'P', 'E', 'E', 'D']));
    assert_eq!(answer_from_word("AlLoY"), Some(['A', 'L', 'L', 'O', 'Y']));
}

#[test]
fn short_word_is_filled_with_spaces() {
    assert_eq!(answer_from_word("cat"), Some(['C', 'A', 'T', ' ', ' ']));
    assert_eq!(answer_from_word(""), Some([' '; 5]));
}

#[test]
fn long_word_gives_no_answer() {
    assert_eq!(answer_from_word("speeds"), None);
}
