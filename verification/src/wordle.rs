//! The game session: the board, the keyboard, the cursor, the panels and the
//! statistics, and the handling of clicks, keys and ticks.

use crate::animation::{AnimatedBox, Clock};
use crate::feedback::{classify, outcomes, State, WORDLE_COLS};
use crate::letters::{Action, Key, LowerLetter, UpperLetter};
use crate::session::{
    best_feedback, key_letters, key_position, law_inputs_keep_wf, law_reset_starts_over,
    lemma_keyboard_is_alphabet, GameState, KeyPress, Request, Session, Target,
};
use crate::statistics::{Record, Statistics};
use crate::words::{is_capital, is_valid_word};
use vstd::prelude::*;
use vstd::string::StringExecFns;

verus! {

/// Number of guesses a player has, and of rows on the board.
pub const WORDLE_ROWS: usize = 6;

/// Number of letter keys on the keyboard.
pub const WORDLE_LETTERS_COUNT: usize = 26;

/// A game session.
pub struct Wordle {
    game_board: [[UpperLetter; WORDLE_COLS]; WORDLE_ROWS],
    used_letters: [LowerLetter; WORDLE_LETTERS_COUNT],
    enter_button: LowerLetter,
    delete_button: LowerLetter,
    answer: [char; WORDLE_COLS],
    curr_letter: (usize, usize),
    game_state: GameState,
    you_won_box: AnimatedBox,
    shown_answer_box: AnimatedBox,
    invalid_word: AnimatedBox,
    replay_button: AnimatedBox,
    stats: Statistics,
    see_stats_button: AnimatedBox,
    all_words: Vec<String>,
}

impl View for Wordle {
    type V = Session;

    closed spec fn view(&self) -> Session {
        Session {
            board: Seq::new(6, |r: int| Seq::new(5, |c: int| self.game_board@[r]@[c]@)),
            keyboard: Map::new(
                |c: char| is_capital(c),
                |c: char| self.used_letters@[key_position(c)]@.state,
            ),
            answer: self.answer@,
            row: self.curr_letter.0 as int,
            col: self.curr_letter.1 as int,
            game_state: self.game_state,
            you_won_box: self.you_won_box@,
            shown_answer_box: self.shown_answer_box@,
            invalid_word: self.invalid_word@,
            replay_button: self.replay_button@,
            see_stats_button: self.see_stats_button@,
            stats: self.stats@,
            words: self.all_words.deep_view(),
        }
    }
}

impl Wordle {
    /// The session is well formed, each letter key has its letter as label,
    /// and the two other keys submit and erase.
    pub closed spec fn wf(&self) -> bool {
        &&& self@.wf()
        &&& forall|i: int|
            0 <= i < 26 ==> (#[trigger] self.used_letters@[i])@.value == seq![key_letters()[i]]
        &&& forall|i: int|
            0 <= i < 26 ==> (#[trigger] self.used_letters@[i])@.action == Action::Letter
        &&& self.enter_button@.action == Action::Enter
        &&& self.delete_button@.action == Action::Delete
    }

    /// A well-formed session has a well-formed state.
    pub proof fn lemma_wf(&self)
        requires
            self.wf(),
        ensures
            self@.wf(),
    {
    }

    /// A session at the start of a game with the answer `answer`, the word
    /// list `all_words`, the statistics so far and the five panels.
    pub fn new(
        answer: [char; WORDLE_COLS],
        all_words: Vec<String>,
        stats: Statistics,
        you_won_box: AnimatedBox,
        shown_answer_box: AnimatedBox,
        invalid_word: AnimatedBox,
        replay_button: AnimatedBox,
        see_stats_button: AnimatedBox,
    ) -> (wordle: Wordle)
        requires
            you_won_box@.wf(),
            shown_answer_box@.wf(),
            invalid_word@.wf(),
            replay_button@.wf(),
            see_stats_button@.wf(),
        ensures
            wordle.wf(),
            wordle@ == Session::start(
                answer@,
                all_words.deep_view(),
                stats@,
                you_won_box@,
                shown_answer_box@,
                invalid_word@,
                replay_button@,
                see_stats_button@,
            ),
    {
        let letters: [[UpperLetter; WORDLE_COLS]; WORDLE_ROWS] = [[UpperLetter::new();
            WORDLE_COLS];WORDLE_ROWS];
        let used_letters = letter_keys();
        proof {
            reveal_strlit("ENTER");
            reveal_strlit("DELETE");
        }
        let enter_button = LowerLetter::new(&String::from_str("ENTER"), Action::Enter);
        let delete_button = LowerLetter::new(&String::from_str("DELETE"), Action::Delete);
        let wordle = Wordle {
            game_board: letters,
            used_letters,
            enter_button,
            delete_button,
            answer,
            curr_letter: (0, 0),
            game_state: GameState::NotOver,
            you_won_box,
            shown_answer_box,
            invalid_word,
            replay_button,
            stats,
            see_stats_button,
            all_words,
        };
        proof {
            stats.lemma_view_wf();
            lemma_keyboard_is_alphabet();
            let start = Session::start(
                answer@,
                all_words.deep_view(),
                stats@,
                you_won_box@,
                shown_answer_box@,
                invalid_word@,
                replay_button@,
                see_stats_button@,
            );
            assert forall|r: int| 0 <= r < 6 implies #[trigger] wordle@.board[r] =~= start.board[r] by {
                assert(wordle.game_board@[r]@.len() == 5);
            }
            assert(wordle@.board =~= start.board);
            assert(wordle@.keyboard =~= start.keyboard);
            assert(wordle@ =~= start);
        }
        wordle
    }

    /// The place of the key for `ch` on the keyboard; the first place for a
    /// character that has no key.
    pub fn get_position(&self, ch: char) -> (place: usize)
        requires
            self.wf(),
        ensures
            place == key_position(ch),
            place < 26,
    {
        proof {
            lemma_keyboard_is_alphabet();
        }
        for i in 0..WORDLE_LETTERS_COUNT
            invariant
                self.wf(),
                forall|k: int| 0 <= k < i ==> #[trigger] key_letters()[k] != ch,
                forall|k: int| 0 <= k < 26 ==> key_position(#[trigger] key_letters()[k]) == k,
                forall|c: char| is_capital(c) ==> key_letters()[#[trigger] key_position(c)] == c,
                forall|c: char| 0 <= #[trigger] key_position(c) < 26,
        {
            assert(self.used_letters@[i as int]@.value == seq![key_letters()[i as int]]);
            assert(is_capital(key_letters()[i as int]));
            match self.used_letters[i].get_value_char() {
                Some(curr) => {
                    if ch == curr {
                        return i;
                    }
                },
                None => {},
            }
        }
        assert(key_position(ch) == 0) by {
            if is_capital(ch) {
                assert(key_letters()[key_position(ch)] == ch);
            }
        }
        0
    }

    /// The cell in row `row` and column `col` of the board.
    pub fn get_tile(&self, row: usize, col: usize) -> (tile: UpperLetter)
        requires
            row < 6,
            col < 5,
        ensures
            tile@ == self@.board[row as int][col as int],
    {
        self.game_board[row][col]
    }

    /// The key at place `place` of the keyboard.
    pub fn get_key(&self, place: usize) -> (key: &LowerLetter)
        requires
            self.wf(),
            place < 26,
        ensures
            key@.value == seq![key_letters()[place as int]],
            key@.letter() == Some(key_letters()[place as int]),
            key@.state == self@.keyboard[key_letters()[place as int]],
            key@.action == Action::Letter,
    {
        proof {
            lemma_keyboard_is_alphabet();
            assert(self.used_letters@[place as int]@.action == Action::Letter);
        }
        &self.used_letters[place]
    }

    /// The key that submits the row.
    pub fn get_enter_button(&self) -> (key: &LowerLetter)
        requires
            self.wf(),
        ensures
            key@.action == Action::Enter,
    {
        &self.enter_button
    }

    /// The key that erases a letter.
    pub fn get_delete_button(&self) -> (key: &LowerLetter)
        requires
            self.wf(),
        ensures
            key@.action == Action::Delete,
    {
        &self.delete_button
    }

    /// The hidden word.
    pub fn get_answer(&self) -> (answer: [char; WORDLE_COLS])
        ensures
            answer@ == self@.answer,
    {
        self.answer
    }

    /// The row and the column of the cursor.
    pub fn get_cursor(&self) -> (cursor: (usize, usize))
        ensures
            cursor.0 == self@.row,
            cursor.1 == self@.col,
    {
        self.curr_letter
    }

    /// How far the game has come.
    pub fn get_game_state(&self) -> (state: GameState)
        ensures
            state == self@.game_state,
    {
        self.game_state
    }

    /// The record of finished games.
    pub fn get_stats(&self) -> (stats: &Statistics)
        ensures
            stats@ == self@.stats,
    {
        &self.stats
    }

    /// The notice of a win.
    pub fn get_you_won_box(&self) -> (panel: &AnimatedBox)
        ensures
            panel@ == self@.you_won_box,
    {
        &self.you_won_box
    }

    /// The notice that shows the answer after a loss.
    pub fn get_shown_answer_box(&self) -> (panel: &AnimatedBox)
        ensures
            panel@ == self@.shown_answer_box,
    {
        &self.shown_answer_box
    }

    /// The notice of a guess that was not accepted.
    pub fn get_invalid_word(&self) -> (panel: &AnimatedBox)
        ensures
            panel@ == self@.invalid_word,
    {
        &self.invalid_word
    }

    /// The button that starts another game.
    pub fn get_replay_button(&self) -> (panel: &AnimatedBox)
        ensures
            panel@ == self@.replay_button,
    {
        &self.replay_button
    }

    /// The button that opens the statistics overlay.
    pub fn get_see_stats_button(&self) -> (panel: &AnimatedBox)
        ensures
            panel@ == self@.see_stats_button,
    {
        &self.see_stats_button
    }
}

/// Types the letter `value` at the cursor.
pub fn letter_clicked(wordle: &mut Wordle, value: Option<char>)
    requires
        old(wordle).wf(),
        value matches Some(ch) && is_capital(ch),
    ensures
        final(wordle).wf(),
        final(wordle)@ == old(wordle)@.type_letter(value->0),
{
    if wordle.curr_letter.1 == WORDLE_COLS {
        return ;
    }
    let ghost before = wordle@;
    let row = wordle.curr_letter.0;
    let col = wordle.curr_letter.1;
    wordle.game_board[row][col].set_letter(value.unwrap());
    wordle.curr_letter.1 += 1;
    proof {
        let after = before.type_letter(value->0);
        assert forall|r: int| 0 <= r < 6 implies #[trigger] wordle@.board[r] =~= after.board[r] by {
            assert(wordle.game_board@[r]@.len() == 5);
        }
        assert(wordle@.board =~= after.board);
        assert(wordle@.keyboard =~= after.keyboard);
        assert(wordle@ =~= after);
    }
}

/// Erases the letter before the cursor.
pub fn delete_clicked(wordle: &mut Wordle, _value: Option<char>)
    requires
        old(wordle).wf(),
    ensures
        final(wordle).wf(),
        final(wordle)@ == old(wordle)@.delete_letter(),
{
    if wordle.game_state == GameState::Lost || wordle.game_state == GameState::Won {
        return ;
    }
    if wordle.curr_letter.1 != 0 {
        let ghost before = wordle@;
        wordle.curr_letter.1 -= 1;
        let row = wordle.curr_letter.0;
        let col = wordle.curr_letter.1;
        wordle.game_board[row][col].clear_letter();
        proof {
            let after = before.delete_letter();
            assert forall|r: int| 0 <= r < 6 implies #[trigger] wordle@.board[r]
                =~= after.board[r] by {
                assert(wordle.game_board@[r]@.len() == 5);
            }
            assert(wordle@.board =~= after.board);
            assert(wordle@.keyboard =~= after.keyboard);
            assert(wordle@ =~= after);
        }
    }
}

/// Whether two words are the same, letter for letter.
fn same_word(word: &[char; WORDLE_COLS], other: &[char; WORDLE_COLS]) -> (same: bool)
    ensures
        same == (word@ == other@),
{
    for i in 0..WORDLE_COLS
        invariant
            forall|k: int| 0 <= k < i ==> #[trigger] word@[k] == other@[k],
    {
        if word[i] != other[i] {
            return false;
        }
    }
    assert(word@ =~= other@);
    true
}

/// Taking the better of two states does not depend on the grouping.
proof fn lemma_higher_associative(a: State, b: State, c: State)
    ensures
        a.higher(b).higher(c) == a.higher(b.higher(c)),
{
}

/// Whether `after` differs from `before` at most in the feedback that cells
/// and keys show.
spec fn differs_in_feedback_only(before: Wordle, after: Wordle) -> bool {
    &&& after.answer == before.answer
    &&& after.curr_letter == before.curr_letter
    &&& after.game_state == before.game_state
    &&& after.you_won_box == before.you_won_box
    &&& after.shown_answer_box == before.shown_answer_box
    &&& after.invalid_word == before.invalid_word
    &&& after.replay_button == before.replay_button
    &&& after.see_stats_button == before.see_stats_button
    &&& after.stats == before.stats
    &&& after.all_words == before.all_words
    &&& after.enter_button == before.enter_button
    &&& after.delete_button == before.delete_button
    &&& forall|r: int, c: int|
        0 <= r < 6 && 0 <= c < 5 ==> (#[trigger] after.game_board@[r]@[c])@.letter
            == before.game_board@[r]@[c]@.letter
    &&& forall|i: int|
        0 <= i < 26 ==> (#[trigger] after.used_letters@[i])@.value == before.used_letters@[i]@.value
    &&& forall|i: int|
        0 <= i < 26 ==> (#[trigger] after.used_letters@[i])@.action
            == before.used_letters@[i]@.action
}

/// Feedback can change without harm to the session.
proof fn lemma_feedback_keeps_wf(before: Wordle, after: Wordle)
    requires
        before.wf(),
        differs_in_feedback_only(before, after),
    ensures
        after.wf(),
{
    assert forall|r: int, c: int| 0 <= r < 6 && 0 <= c < 5 implies ((
    #[trigger] after@.board[r][c]).letter is Some <==> (r < after@.row || (r == after@.row && c
        < after@.col))) by {
        assert(after.game_board@[r]@[c]@.letter == before.game_board@[r]@[c]@.letter);
        assert(before@.board[r][c].letter == before.game_board@[r]@[c]@.letter);
    }
    assert forall|r: int, c: int| 0 <= r < 6 && 0 <= c < 5 implies ((
    #[trigger] after@.board[r][c]).letter matches Some(l) ==> is_capital(l)) by {
        assert(after.game_board@[r]@[c]@.letter == before.game_board@[r]@[c]@.letter);
        assert(before@.board[r][c].letter == before.game_board@[r]@[c]@.letter);
    }
    assert forall|r: int| 0 <= r < 6 implies (#[trigger] after@.board[r]).len() == 5 by {}
    assert(after@.current_guess() =~= before@.current_guess()) by {
        assert forall|c: int| 0 <= c < 5 implies after@.current_guess()[c]
            == before@.current_guess()[c] by {
            assert(after.game_board@[after@.row]@[c]@.letter
                == before.game_board@[after@.row]@[c]@.letter);
        }
    }
}

/// Scores `word` against the answer, writes the feedback into the current
/// row and merges it into the keyboard. Returns what the guess decides.
pub fn scan_entered_word(wordle: &mut Wordle, word: [char; WORDLE_COLS]) -> (cond: GameState)
    requires
        old(wordle).wf(),
    ensures
        final(wordle).wf(),
        final(wordle)@ == old(wordle)@.scored(word@),
        cond == old(wordle)@.verdict(word@),
{
    let ghost before = wordle@;
    let ghost keys_before = wordle.used_letters@;
    let ghost board_before = wordle.game_board@;
    let scores = classify(&word, &wordle.answer);
    let row = wordle.curr_letter.0;
    proof {
        lemma_keyboard_is_alphabet();
    }
    for i in 0..WORDLE_COLS
        invariant
            row == wordle.curr_letter.0,
            row < 6,
            scores@ == outcomes(word@, before.answer),
            keys_before.len() == 26,
            board_before.len() == 6,
            wordle.wf(),
            wordle.answer == old(wordle).answer,
            wordle.curr_letter == old(wordle).curr_letter,
            wordle.game_state == old(wordle).game_state,
            wordle.you_won_box == old(wordle).you_won_box,
            wordle.shown_answer_box == old(wordle).shown_answer_box,
            wordle.invalid_word == old(wordle).invalid_word,
            wordle.replay_button == old(wordle).replay_button,
            wordle.see_stats_button == old(wordle).see_stats_button,
            wordle.stats == old(wordle).stats,
            wordle.all_words == old(wordle).all_words,
            wordle.enter_button == old(wordle).enter_button,
            wordle.delete_button == old(wordle).delete_button,
            forall|r: int| 0 <= r < 6 && r != row ==> #[trigger] wordle.game_board@[r] == board_before[r],
            forall|c: int|
                0 <= c < 5 ==> (#[trigger] wordle.game_board@[row as int]@[c])@.letter
                    == board_before[row as int]@[c]@.letter,
            forall|c: int|
                0 <= c < i ==> (#[trigger] wordle.game_board@[row as int]@[c])@.state == scores@[c],
            forall|c: int|
                i <= c < 5 ==> (#[trigger] wordle.game_board@[row as int]@[c])@.state
                    == board_before[row as int]@[c]@.state,
            forall|c: char|
                (#[trigger] wordle.used_letters@[key_position(c)])@.state == keys_before[key_position(
                    c,
                )]@.state.higher(best_feedback(word@, scores@, c, i as int)),
            forall|c: char| 0 <= #[trigger] key_position(c) < 26,
    {
        let ghost keys_now = wordle.used_letters@;
        let ghost entered = *wordle;
        wordle.game_board[row][i].set_state(scores[i]);
        proof {
            lemma_feedback_keeps_wf(entered, *wordle);
        }
        let ghost marked = *wordle;
        let place = wordle.get_position(word[i]);
        wordle.used_letters[place].set_state(scores[i]);
        proof {
            lemma_feedback_keeps_wf(marked, *wordle);
            assert forall|c: char|
                (#[trigger] wordle.used_letters@[key_position(c)])@.state == keys_before[key_position(
                    c,
                )]@.state.higher(best_feedback(word@, scores@, c, i + 1)) by {
                lemma_higher_associative(
                    keys_before[key_position(c)]@.state,
                    best_feedback(word@, scores@, c, i as int),
                    scores@[i as int],
                );
                assert(keys_now[key_position(c)]@.state == keys_before[key_position(
                    c,
                )]@.state.higher(best_feedback(word@, scores@, c, i as int)));
            }
            assert(wordle@.keyboard =~= Map::new(
                |c: char| is_capital(c),
                |c: char| wordle.used_letters@[key_position(c)]@.state,
            ));
        }
    }
    proof {
        let after = before.scored(word@);
        assert forall|r: int| 0 <= r < 6 implies #[trigger] wordle@.board[r] =~= after.board[r] by {
            assert(wordle.game_board@[r]@.len() == 5);
            assert(board_before[r]@.len() == 5);
            if r != row {
                assert(wordle.game_board@[r] == board_before[r]);
            }
        }
        assert(wordle@.board =~= after.board);
        assert(wordle@.keyboard =~= after.keyboard);
        assert(wordle@ =~= after);
    }
    if same_word(&word, &wordle.answer) {
        return GameState::Won;
    } else if wordle.curr_letter.0 != WORDLE_ROWS - 1 {
        return GameState::NotOver;
    } else {
        return GameState::Lost;
    }
}

/// Submits the current row.
pub fn enter_clicked(wordle: &mut Wordle, _value: Option<char>) -> (request: Request)
    requires
        old(wordle).wf(),
        old(wordle)@.has_room_for_submission(),
    ensures
        final(wordle).wf(),
        final(wordle)@ == old(wordle)@.submit_guess(),
        old(wordle)@.submission_ends_game() ==> request.saves(final(wordle)@.stats),
        !old(wordle)@.submission_ends_game() ==> request is Nothing,
{
    let ghost before = wordle@;
    if wordle.game_state != GameState::NotOver {
        return Request::Nothing;
    }
    if wordle.curr_letter.1 != WORDLE_COLS {
        if !wordle.invalid_word.is_on_screen() {
            wordle.invalid_word.put_on_screen();
        }
        assert(wordle@ =~= before.submit_guess());
        return Request::Nothing;
    }
    let row = wordle.curr_letter.0;
    let mut curr_word: [char; WORDLE_COLS] = [' ';WORDLE_COLS];
    for i in 0..WORDLE_COLS
        invariant
            wordle.wf(),
            wordle@ == before,
            row == before.row,
            before.col == 5,
            forall|k: int| 0 <= k < i ==> #[trigger] curr_word@[k] == before.current_guess()[k],
    {
        assert(wordle@.board[row as int][i as int].letter is Some);
        curr_word[i] = wordle.game_board[row][i].get_value().unwrap();
    }
    assert(curr_word@ =~= before.current_guess());
    if !is_valid_word(curr_word, &wordle.all_words) {
        if !wordle.invalid_word.is_on_screen() {
            wordle.invalid_word.put_on_screen();
        }
        assert(wordle@ =~= before.submit_guess());
        return Request::Nothing;
    }
    let cond = scan_entered_word(wordle, curr_word);
    proof {
        wordle.stats.lemma_view_wf();
    }
    match cond {
        GameState::Won => {
            wordle.game_state = GameState::Won;
            wordle.you_won_box.put_on_screen();
            let counters = wordle.stats.update_stats(Some(row as u32 + 1));
            wordle.replay_button.put_on_screen();
            wordle.see_stats_button.put_on_screen();
            proof {
                assert(wordle@ =~= before.submit_guess());
                law_inputs_keep_wf(before, 'A');
            }
            Request::SaveStatistics(counters)
        },
        GameState::Lost => {
            wordle.game_state = GameState::Lost;
            wordle.shown_answer_box.put_on_screen();
            let counters = wordle.stats.update_stats(None);
            wordle.replay_button.put_on_screen();
            wordle.see_stats_button.put_on_screen();
            proof {
                assert(wordle@ =~= before.submit_guess());
                law_inputs_keep_wf(before, 'A');
            }
            Request::SaveStatistics(counters)
        },
        GameState::NotOver => {
            wordle.curr_letter.1 = 0;
            wordle.curr_letter.0 += 1;
            proof {
                assert(wordle@ =~= before.submit_guess());
                law_inputs_keep_wf(before, 'A');
            }
            Request::Nothing
        },
    }
}

/// Does what a key with the action `action` does when it is pressed.
fn press(action: Action, wordle: &mut Wordle, value: Option<char>) -> (request: Request)
    requires
        old(wordle).wf(),
        action == Action::Enter ==> old(wordle)@.has_room_for_submission(),
        action == Action::Letter ==> (value matches Some(ch) && is_capital(ch)),
    ensures
        final(wordle).wf(),
        final(wordle)@ == old(wordle)@.pressed(action, value),
        action == Action::Enter && old(wordle)@.submission_ends_game() ==> request.saves(
            final(wordle)@.stats,
        ),
        !(action == Action::Enter && old(wordle)@.submission_ends_game()) ==> request is Nothing,
{
    match action {
        Action::Letter => {
            letter_clicked(wordle, value);
            Request::Nothing
        },
        Action::Enter => enter_clicked(wordle, value),
        Action::Delete => {
            delete_clicked(wordle, value);
            Request::Nothing
        },
    }
}

impl LowerLetter {
    /// Presses the key: does to the session what the key's action says.
    pub fn update(&self, wordle: &mut Wordle, value: Option<char>) -> (request: Request)
        requires
            old(wordle).wf(),
            self@.action == Action::Enter ==> old(wordle)@.has_room_for_submission(),
            self@.action == Action::Letter ==> (value matches Some(ch) && is_capital(ch)),
        ensures
            final(wordle).wf(),
            final(wordle)@ == old(wordle)@.pressed(self@.action, value),
            self@.action == Action::Enter && old(wordle)@.submission_ends_game()
                ==> request.saves(final(wordle)@.stats),
            !(self@.action == Action::Enter && old(wordle)@.submission_ends_game())
                ==> request is Nothing,
    {
        press(self.get_action(), wordle, value)
    }
}

impl Wordle {
    /// Presses the key of the letter `ch`, if the keyboard has one.
    fn press_letter(&mut self, ch: char)
        requires
            old(self).wf(),
        ensures
            final(self).wf(),
            is_capital(ch) ==> final(self)@ == old(self)@.type_letter(ch),
            !is_capital(ch) ==> final(self)@ == old(self)@,
    {
        proof {
            lemma_keyboard_is_alphabet();
        }
        let place = self.get_position(ch);
        let action = self.get_key(place).get_action();
        let value = self.get_key(place).get_value_char();
        match value {
            Some(letter) => {
                if letter == ch {
                    press(action, self, value);
                }
            },
            None => {},
        }
    }

    /// Moves the three moving panels by one tick.
    pub fn update_wordle(&mut self, clock: Clock)
        requires
            old(self).wf(),
        ensures
            final(self).wf(),
            old(self)@.ticks_to(clock, final(self)@),
    {
        let ghost before = *self;
        self.invalid_word.update_animated_box(clock);
        self.replay_button.update_animated_box(clock);
        self.see_stats_button.update_animated_box(clock);
        proof {
            assert(self@.board =~= before@.board);
            assert(self@.keyboard =~= before@.keyboard);
            assert(self@ =~= Session {
                invalid_word: self@.invalid_word,
                replay_button: self@.replay_button,
                see_stats_button: self@.see_stats_button,
                ..before@
            });
        }
    }

    /// Handles a click on `target`. Returns what the host is to do: store the
    /// statistics when the click ended the game, draw a new answer when it
    /// asked for another game.
    pub fn detect_click(&mut self, left_button: bool, target: Target) -> (request: Request)
        requires
            old(self).wf(),
            old(self)@.click_ends_game(target) ==> old(self)@.has_room_for_submission(),
        ensures
            final(self).wf(),
            final(self)@ == old(self)@.clicked(left_button, target),
            old(self)@.click_ends_game(target) ==> request.saves(final(self)@.stats),
            old(self)@.click_asks_new_game(target) ==> request is NewGame,
            !old(self)@.click_ends_game(target) && !old(self)@.click_asks_new_game(target)
                ==> request is Nothing,
    {
        let ghost before = *self;
        match target {
            Target::CloseStatistics => {
                self.stats.remove_from_screen();
                proof {
                    lemma_overlay_keeps_wf(before, *self);
                }
                Request::Nothing
            },
            Target::SeeStatistics => {
                self.stats.put_on_screen();
                proof {
                    lemma_overlay_keeps_wf(before, *self);
                }
                Request::Nothing
            },
            Target::Letter(ch) => {
                if !self.stats.is_on_screen() && left_button {
                    self.press_letter(ch);
                }
                Request::Nothing
            },
            Target::Delete => {
                if !self.stats.is_on_screen() {
                    press(self.delete_button.get_action(), self, None)
                } else {
                    Request::Nothing
                }
            },
            Target::Enter => {
                if !self.stats.is_on_screen() {
                    press(self.enter_button.get_action(), self, None)
                } else {
                    Request::Nothing
                }
            },
            Target::Replay => {
                if !self.stats.is_on_screen() {
                    Request::NewGame
                } else {
                    Request::Nothing
                }
            },
            Target::Nothing => Request::Nothing,
        }
    }

    /// Handles a key of the machine's keyboard. Returns what the host is to
    /// do: store the statistics when the key ended the game.
    pub fn detect_typing(&mut self, key: KeyPress) -> (request: Request)
        requires
            old(self).wf(),
            old(self)@.key_ends_game(key) ==> old(self)@.has_room_for_submission(),
        ensures
            final(self).wf(),
            final(self)@ == old(self)@.key_pressed(key),
            old(self)@.key_ends_game(key) ==> request.saves(final(self)@.stats),
            !old(self)@.key_ends_game(key) ==> request is Nothing,
    {
        if self.stats.is_on_screen() {
            return Request::Nothing;
        }
        match key {
            KeyPress::Letter(ch) => {
                self.press_letter(ch);
                Request::Nothing
            },
            KeyPress::Back => press(self.delete_button.get_action(), self, None),
            KeyPress::Return => press(self.enter_button.get_action(), self, None),
            KeyPress::Other => Request::Nothing,
        }
    }

    /// Starts another game with the answer `answer`.
    pub fn reset(&mut self, answer: [char; WORDLE_COLS])
        requires
            old(self).wf(),
        ensures
            final(self).wf(),
            final(self)@ == old(self)@.reset(answer@),
    {
        let ghost before = *self;
        self.game_board = [[UpperLetter::new();WORDLE_COLS];WORDLE_ROWS];
        self.used_letters = letter_keys();
        self.answer = answer;
        self.curr_letter = (0, 0);
        self.game_state = GameState::NotOver;
        self.you_won_box.restore();
        self.shown_answer_box.restore();
        self.invalid_word.restore();
        self.replay_button.restore();
        self.see_stats_button.restore();
        proof {
            lemma_keyboard_is_alphabet();
            let after = before@.reset(answer@);
            assert forall|r: int| 0 <= r < 6 implies #[trigger] self@.board[r] =~= after.board[r] by {
                assert(self.game_board@[r]@.len() == 5);
            }
            assert(self@.board =~= after.board);
            assert(self@.keyboard =~= after.keyboard);
            assert(self@ =~= after);
            law_reset_starts_over(before@, answer@);
        }
    }
}

/// Opening or closing the overlay does no harm to the session.
proof fn lemma_overlay_keeps_wf(before: Wordle, after: Wordle)
    requires
        before.wf(),
        after.stats@ == (Record { shown: after.stats@.shown, ..before.stats@ }),
        after.game_board == before.game_board,
        after.used_letters == before.used_letters,
        after.enter_button == before.enter_button,
        after.delete_button == before.delete_button,
        after.answer == before.answer,
        after.curr_letter == before.curr_letter,
        after.game_state == before.game_state,
        after.you_won_box == before.you_won_box,
        after.shown_answer_box == before.shown_answer_box,
        after.invalid_word == before.invalid_word,
        after.replay_button == before.replay_button,
        after.see_stats_button == before.see_stats_button,
        after.all_words == before.all_words,
    ensures
        after.wf(),
        after@ == (Session { stats: after.stats@, ..before@ }),
{
    assert(after@.board =~= before@.board);
    assert(after@.keyboard =~= before@.keyboard);
    assert(after@ =~= Session { stats: after.stats@, ..before@ });
}

/// A key that types `letter`, whose label `label` is that letter.
fn letter_key(label: &str, letter: char) -> (key: LowerLetter)
    requires
        label@.len() == 1,
        label@[0] == letter,
    ensures
        key@ == (Key { value: seq![letter], state: State::NotFinalized, action: Action::Letter }),
{
    assert(label@ =~= seq![letter]);
    LowerLetter::new(&String::from_str(label), Action::Letter)
}

/// The letter keys, in the order in which the keyboard shows them.
fn letter_keys() -> (keys: [LowerLetter; WORDLE_LETTERS_COUNT])
    ensures
        forall|i: int|
            0 <= i < 26 ==> (#[trigger] keys@[i])@ == (Key {
                value: seq![key_letters()[i]],
                state: State::NotFinalized,
                action: Action::Letter,
            }),
{
    proof {
        reveal_strlit("Q");
        reveal_strlit("W");
        reveal_strlit("E");
        reveal_strlit("R");
        reveal_strlit("T");
        reveal_strlit("Y");
        reveal_strlit("U");
        reveal_strlit("I");
        reveal_strlit("O");
        reveal_strlit("P");
        reveal_strlit("A");
        reveal_strlit("S");
        reveal_strlit("D");
        reveal_strlit("F");
        reveal_strlit("G");
        reveal_strlit("H");
        reveal_strlit("J");
        reveal_strlit("K");
        reveal_strlit("L");
        reveal_strlit("Z");
        reveal_strlit("X");
        reveal_strlit("C");
        reveal_strlit("V");
        reveal_strlit("B");
        reveal_strlit("N");
        reveal_strlit("M");
    }
    [
        letter_key("Q", 'Q'),
        letter_key("W", 'W'),
        letter_key("E", 'E'),
        letter_key("R", 'R'),
        letter_key("T", 'T'),
        letter_key("Y", 'Y'),
        letter_key("U", 'U'),
        letter_key("I", 'I'),
        letter_key("O", 'O'),
        letter_key("P", 'P'),
        letter_key("A", 'A'),
        letter_key("S", 'S'),
        letter_key("D", 'D'),
        letter_key("F", 'F'),
        letter_key("G", 'G'),
        letter_key("H", 'H'),
        letter_key("J", 'J'),
        letter_key("K", 'K'),
        letter_key("L", 'L'),
        letter_key("Z", 'Z'),
        letter_key("X", 'X'),
        letter_key("C", 'C'),
        letter_key("V", 'V'),
        letter_key("B", 'B'),
        letter_key("N", 'N'),
        letter_key("M", 'M'),
    ]
}

} // verus!
