use wordle::feedback::State;
use wordle::letters::{Action, LowerLetter, UpperLetter};

#[test]
fn new_cell_is_empty() {
    let cell = UpperLetter::new();
    assert_eq!(cell.get_value(), None);
    assert_eq!(cell.get_state(), State::NotFinalized);
}

#[test]
fn cell_takes_and_loses_its_letter() {
    let mut cell = UpperLetter::new();
    cell.set_letter('K');
    assert_eq!(cell.get_value(), Some('K'));
    assert_eq!(cell.get_state(), State::NotFinalized);
    cell.set_state(State::IncorrectInWord);
    assert_eq!(cell.get_value(), Some('K'));
    cell.clear_letter();
    assert_eq!(cell.get_value(), None);
    assert_eq!(cell.get_state(), State::IncorrectInWord);
}

#[test]
fn cell_state_can_go_down() {
    let mut cell = UpperLetter::new();
    cell.set_state(State::CorrectInWord);
    cell.set_state(State::NotInWord);
    assert_eq!(cell.get_state(), State::NotInWord);
}

#[test]
fn key_keeps_its_label_and_action() {
    let key = LowerLetter::new(&String::from("Q"), Action::Letter);
    assert_eq!(key.get_value(), "Q");
    assert_eq!(key.get_value_char(), Some('Q'));
    assert_eq!(key.get_state(), State::NotFinalized);
    assert_eq!(key.get_action(), Action::Letter);
}

#[test]
fn key_with_a_word_has_no_letter() {
    assert_eq!(LowerLetter::new(&String::from("ENTER"), Action::Enter).get_value_char(), None);
    assert_eq!(LowerLetter::new(&String::from(""), Action::Delete).get_value_char(), None);
    assert_eq!(LowerLetter::new(&String::from("É"), Action::Letter).get_value_char(), None);
}

#[test]
fn key_state_never_goes_down() {
    let all = [
        State::NotFinalized,
        State::NotInWord,
        State::IncorrectInWord,
        State::CorrectInWord,
    ];
    for first in all {
        for second in all {
            let mut key = LowerLetter::new(&String::from("A"), Action::Letter);
            key.set_state(first);
            assert_eq!(key.get_state(), first);
            key.set_state(second);
            assert_eq!(key.get_state(), first.max(second));
        }
    }
}
