//! The cells of the board and the keys of the on-screen keyboard.

use crate::feedback::State;
use vstd::prelude::*;
use vstd::string::StrSliceExecFns;

verus! {

/// What a cell of the board shows: a letter, once typed, and its feedback.
pub struct Tile {
    pub letter: Option<char>,
    pub state: State,
}

/// One cell of the board.
#[derive(Clone, Copy, Debug, PartialEq, Eq)]
pub struct UpperLetter {
    letter: Option<char>,
    state: State,
}

impl View for UpperLetter {
    type V = Tile;

    closed spec fn view(&self) -> Tile {
        Tile { letter: self.letter, state: self.state }
    }
}

impl UpperLetter {
    /// An empty cell without feedback.
    pub fn new() -> (cell: UpperLetter)
        ensures
            cell@ == (Tile { letter: None, state: State::NotFinalized }),
    {
        UpperLetter { letter: None, state: State::NotFinalized }
    }

    /// Records the feedback for this cell.
    pub fn set_state(&mut self, state: State)
        ensures
            final(self)@ == (Tile { state: state, ..old(self)@ }),
    {
        self.state = state;
    }

    /// Writes a letter into the cell.
    pub fn set_letter(&mut self, typed_letter: char)
        ensures
            final(self)@ == (Tile { letter: Some(typed_letter), ..old(self)@ }),
    {
        self.letter = Some(typed_letter);
    }

    /// Erases the letter of the cell.
    pub fn clear_letter(&mut self)
        ensures
            final(self)@ == (Tile { letter: None, ..old(self)@ }),
    {
        self.letter = None;
    }

    /// The letter in the cell, if one was typed.
    pub fn get_value(&self) -> (letter: Option<char>)
        ensures
            letter == self@.letter,
    {
        self.letter
    }

    /// The feedback recorded for the cell.
    pub fn get_state(&self) -> (state: State)
        ensures
            state == self@.state,
    {
        self.state
    }
}

/// What pressing a key does.
#[derive(Clone, Copy, Debug, PartialEq, Eq, Structural)]
pub enum Action {
    /// Types the letter of the key.
    Letter,
    /// Submits the current row.
    Enter,
    /// Erases the last letter of the current row.
    Delete,
}

/// What a key shows and does: its label, the best feedback seen for it, and
/// its action.
pub struct Key {
    pub value: Seq<char>,
    pub state: State,
    pub action: Action,
}

impl Key {
    /// The letter of a key whose label is a single ASCII character.
    pub open spec fn letter(self) -> Option<char> {
        if self.value.len() == 1 && self.value[0] <= '\u{7f}' {
            Some(self.value[0])
        } else {
            None
        }
    }
}

/// One key of the on-screen keyboard.
#[derive(Clone, Debug)]
pub struct LowerLetter {
    text: String,
    state: State,
    action_when_clicked: Action,
}

impl View for LowerLetter {
    type V = Key;

    closed spec fn view(&self) -> Key {
        Key { value: self.text@, state: self.state, action: self.action_when_clicked }
    }
}

impl LowerLetter {
    /// A key with the given label and action, without feedback yet.
    pub fn new(value: &String, action_when_clicked: Action) -> (key: LowerLetter)
        ensures
            key@ == (Key {
                value: value@,
                state: State::NotFinalized,
                action: action_when_clicked,
            }),
    {
        LowerLetter { text: value.clone(), state: State::NotFinalized, action_when_clicked }
    }

    /// Records feedback for the key, unless what it already shows is at least
    /// as informative.
    pub fn set_state(&mut self, state: State)
        ensures
            final(self)@ == (Key { state: old(self)@.state.higher(state), ..old(self)@ }),
            final(self)@.state.rank() >= old(self)@.state.rank(),
    {
        if self.state.at_least(&state) {
            return ;
        }
        self.state = state;
    }

    /// The label of the key.
    pub fn get_value(&self) -> (value: &String)
        ensures
            value@ == self@.value,
    {
        &self.text
    }

    /// The letter of the key: its label, where that is one ASCII character.
    pub fn get_value_char(&self) -> (letter: Option<char>)
        ensures
            letter == self@.letter(),
    {
        let label = self.text.as_str();
        if label.unicode_len() == 1 {
            let first = label.get_char(0);
            if first <= '\u{7f}' {
                return Some(first);
            }
        }
        None
    }

    /// The best feedback seen for the key.
    pub fn get_state(&self) -> (state: State)
        ensures
            state == self@.state,
    {
        self.state
    }

    /// What pressing the key does.
    pub fn get_action(&self) -> (action: Action)
        ensures
            action == self@.action,
    {
        self.action_when_clicked
    }
}

} // verus!
