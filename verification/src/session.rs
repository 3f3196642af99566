//! The state of a game session as a mathematical value, what each input
//! makes of it, and what holds of every session.

use crate::animation::{Clock, Panel};
use crate::feedback::{outcomes, State};
use crate::letters::{Action, Tile};
use crate::statistics::Record;
use crate::words::{is_capital, listed};
use vstd::prelude::*;

verus! {

/// How far a game has come.
#[derive(Clone, Copy, Debug, PartialEq, Eq, Structural)]
pub enum GameState {
    NotOver,
    Won,
    Lost,
}

/// The letters of the keys, in the order in which the keyboard shows them.
pub open spec fn key_letters() -> Seq<char> {
    seq![
        'Q', 'W', 'E', 'R', 'T', 'Y', 'U', 'I', 'O', 'P', 'A', 'S', 'D', 'F', 'G', 'H', 'J', 'K',
        'L', 'Z', 'X', 'C', 'V', 'B', 'N', 'M',
    ]
}

/// The place of the key for `c` on the keyboard; the first place for a
/// character that has no key.
pub open spec fn key_position(c: char) -> int {
    if c == 'W' {
        1
    } else if c == 'E' {
        2
    } else if c == 'R' {
        3
    } else if c == 'T' {
        4
    } else if c == 'Y' {
        5
    } else if c == 'U' {
        6
    } else if c == 'I' {
        7
    } else if c == 'O' {
        8
    } else if c == 'P' {
        9
    } else if c == 'A' {
        10
    } else if c == 'S' {
        11
    } else if c == 'D' {
        12
    } else if c == 'F' {
        13
    } else if c == 'G' {
        14
    } else if c == 'H' {
        15
    } else if c == 'J' {
        16
    } else if c == 'K' {
        17
    } else if c == 'L' {
        18
    } else if c == 'Z' {
        19
    } else if c == 'X' {
        20
    } else if c == 'C' {
        21
    } else if c == 'V' {
        22
    } else if c == 'B' {
        23
    } else if c == 'N' {
        24
    } else if c == 'M' {
        25
    } else {
        0
    }
}

/// The keyboard has one key for each capital letter and no other.
pub proof fn lemma_keyboard_is_alphabet()
    ensures
        key_letters().len() == 26,
        forall|i: int| 0 <= i < 26 ==> key_position(#[trigger] key_letters()[i]) == i,
        forall|i: int| 0 <= i < 26 ==> is_capital(#[trigger] key_letters()[i]),
        forall|c: char| is_capital(c) ==> key_letters()[#[trigger] key_position(c)] == c,
        forall|c: char| 0 <= #[trigger] key_position(c) < 26,
{
    let keys = key_letters();
    assert(keys[0] == 'Q' && keys[1] == 'W' && keys[2] == 'E' && keys[3] == 'R' && keys[4] == 'T'
        && keys[5] == 'Y' && keys[6] == 'U' && keys[7] == 'I' && keys[8] == 'O' && keys[9] == 'P');
    assert(keys[10] == 'A' && keys[11] == 'S' && keys[12] == 'D' && keys[13] == 'F' && keys[14]
        == 'G' && keys[15] == 'H' && keys[16] == 'J' && keys[17] == 'K' && keys[18] == 'L');
    assert(keys[19] == 'Z' && keys[20] == 'X' && keys[21] == 'C' && keys[22] == 'V' && keys[23]
        == 'B' && keys[24] == 'N' && keys[25] == 'M');
    assert forall|c: char| is_capital(c) implies keys[#[trigger] key_position(c)] == c by {
        let n = c as u32;
        assert(65 <= n <= 90);
        assert(c == 'A' || c == 'B' || c == 'C' || c == 'D' || c == 'E' || c == 'F' || c == 'G'
            || c == 'H' || c == 'I' || c == 'J' || c == 'K' || c == 'L' || c == 'M' || c == 'N'
            || c == 'O' || c == 'P' || c == 'Q' || c == 'R' || c == 'S' || c == 'T' || c == 'U'
            || c == 'V' || c == 'W' || c == 'X' || c == 'Y' || c == 'Z');
    }
}

/// The best feedback among the first `upto` places of the guess whose letter
/// belongs to the key of `c`; none where there is no such place.
pub open spec fn best_feedback(guess: Seq<char>, scores: Seq<State>, c: char, upto: int) -> State
    decreases upto,
{
    if upto <= 0 {
        State::NotFinalized
    } else if key_position(guess[upto - 1]) == key_position(c) {
        best_feedback(guess, scores, c, upto - 1).higher(scores[upto - 1])
    } else {
        best_feedback(guess, scores, c, upto - 1)
    }
}

/// The keyboard after a scored guess: each letter shows the better of what it
/// showed before and the best feedback the guess brought for it.
pub open spec fn aggregate(keyboard: Map<char, State>, guess: Seq<char>, scores: Seq<State>) -> Map<
    char,
    State,
> {
    Map::new(
        |c: char| keyboard.dom().contains(c),
        |c: char| keyboard[c].higher(best_feedback(guess, scores, c, guess.len() as int)),
    )
}

/// What the host is asked to do after an input.
#[derive(Clone, Copy, Debug, PartialEq, Eq)]
pub enum Request {
    /// Nothing.
    Nothing,
    /// A game has ended: store the seven counts of the statistics.
    SaveStatistics([u32; 7]),
    /// The player wants another game: draw a new answer and reset the session
    /// with it.
    NewGame,
}

impl Request {
    /// Whether this asks to store exactly the counts of `stats`.
    pub open spec fn saves(self, stats: Record) -> bool {
        self matches Request::SaveStatistics(counters) && counters@.map_values(|n: u32| n as nat)
            == stats.counters()
    }
}

/// What the player pointed at with a click.
#[derive(Clone, Copy, Debug, PartialEq, Eq)]
pub enum Target {
    /// The button that closes the statistics overlay.
    CloseStatistics,
    /// The key of a letter.
    Letter(char),
    /// The key that erases a letter.
    Delete,
    /// The key that submits the row.
    Enter,
    /// The button that opens the statistics overlay.
    SeeStatistics,
    /// The button that starts another game.
    Replay,
    /// None of these.
    Nothing,
}

/// A key pressed on the keyboard of the machine.
#[derive(Clone, Copy, Debug, PartialEq, Eq)]
pub enum KeyPress {
    /// The key of a letter, given as a capital.
    Letter(char),
    /// The backspace key.
    Back,
    /// The return key.
    Return,
    /// Any other key.
    Other,
}

/// The state of a game session.
#[verifier::ext_equal]
pub struct Session {
    /// Six rows of five cells.
    pub board: Seq<Seq<Tile>>,
    /// The best feedback seen for each capital letter.
    pub keyboard: Map<char, State>,
    /// The hidden word.
    pub answer: Seq<char>,
    /// The row that is being written.
    pub row: int,
    /// The next cell to write in that row; 5 when the row is full.
    pub col: int,
    /// How far the game has come.
    pub game_state: GameState,
    /// The notice of a win.
    pub you_won_box: Panel,
    /// The notice that shows the answer after a loss.
    pub shown_answer_box: Panel,
    /// The notice of a guess that was not accepted.
    pub invalid_word: Panel,
    /// The button that starts another game.
    pub replay_button: Panel,
    /// The button that opens the statistics overlay.
    pub see_stats_button: Panel,
    /// The record of finished games and whether its overlay is open.
    pub stats: Record,
    /// The word list.
    pub words: Seq<Seq<char>>,
}

impl Session {
    /// The board is six by five and written up to the cursor with capital
    /// letters, the keyboard has the capital letters, the answer has five
    /// letters, and a finished game has its last row full: with the answer
    /// where it is won, with another word in the sixth row where it is lost.
    pub open spec fn wf(self) -> bool {
        &&& self.board.len() == 6
        &&& forall|r: int| 0 <= r < 6 ==> (#[trigger] self.board[r]).len() == 5
        &&& self.answer.len() == 5
        &&& 0 <= self.row < 6
        &&& 0 <= self.col <= 5
        &&& forall|c: char| self.keyboard.dom().contains(c) <==> is_capital(c)
        &&& forall|r: int, c: int|
            0 <= r < 6 && 0 <= c < 5 ==> ((#[trigger] self.board[r][c]).letter is Some <==> (r
                < self.row || (r == self.row && c < self.col)))
        &&& forall|r: int, c: int|
            0 <= r < 6 && 0 <= c < 5 ==> ((#[trigger] self.board[r][c]).letter matches Some(l)
                ==> is_capital(l))
        &&& self.game_state != GameState::NotOver ==> self.col == 5
        &&& self.game_state == GameState::Won ==> self.current_guess() == self.answer
        &&& self.game_state == GameState::Lost ==> self.row == 5 && self.current_guess()
            != self.answer
        &&& self.you_won_box.wf()
        &&& self.shown_answer_box.wf()
        &&& self.invalid_word.wf()
        &&& self.replay_button.wf()
        &&& self.see_stats_button.wf()
        &&& self.stats.wf()
    }

    /// The letters of row `r`.
    pub open spec fn word_at(self, r: int) -> Seq<char> {
        Seq::new(5, |c: int| self.board[r][c].letter->0)
    }

    /// The letters of the row that is being written.
    pub open spec fn current_guess(self) -> Seq<char> {
        self.word_at(self.row)
    }

    /// The session with cell `(r, c)` replaced.
    pub open spec fn with_tile(self, r: int, c: int, tile: Tile) -> Session {
        Session { board: self.board.update(r, self.board[r].update(c, tile)), ..self }
    }

    /// A new game: an empty board, a keyboard without feedback, the cursor at
    /// the first cell.
    pub open spec fn start(
        answer: Seq<char>,
        words: Seq<Seq<char>>,
        stats: Record,
        you_won_box: Panel,
        shown_answer_box: Panel,
        invalid_word: Panel,
        replay_button: Panel,
        see_stats_button: Panel,
    ) -> Session {
        Session {
            board: Seq::new(
                6,
                |r: int| Seq::new(5, |c: int| Tile { letter: None, state: State::NotFinalized }),
            ),
            keyboard: Map::new(|c: char| is_capital(c), |c: char| State::NotFinalized),
            answer,
            row: 0,
            col: 0,
            game_state: GameState::NotOver,
            you_won_box,
            shown_answer_box,
            invalid_word,
            replay_button,
            see_stats_button,
            stats,
            words,
        }
    }

    /// Typing a letter writes it at the cursor and moves the cursor on;
    /// nothing happens in a full row or a finished game.
    pub open spec fn type_letter(self, ch: char) -> Session {
        if self.col == 5 || self.game_state != GameState::NotOver {
            self
        } else {
            Session {
                col: self.col + 1,
                ..self.with_tile(
                    self.row,
                    self.col,
                    Tile { letter: Some(ch), ..self.board[self.row][self.col] },
                )
            }
        }
    }

    /// Deleting moves the cursor back and erases the letter there; nothing
    /// happens in an empty row or a finished game.
    pub open spec fn delete_letter(self) -> Session {
        if self.col == 0 || self.game_state != GameState::NotOver {
            self
        } else {
            Session {
                col: self.col - 1,
                ..self.with_tile(
                    self.row,
                    self.col - 1,
                    Tile { letter: None, ..self.board[self.row][self.col - 1] },
                )
            }
        }
    }

    /// Whether a submission now would be a guess: the game is on, the row is
    /// full and the word list has the row's word.
    pub open spec fn accepts_guess(self) -> bool {
        &&& self.game_state == GameState::NotOver
        &&& self.col == 5
        &&& listed(self.words, self.current_guess())
    }

    /// The session with the feedback for `word` written into the current row
    /// and merged into the keyboard.
    pub open spec fn scored(self, word: Seq<char>) -> Session {
        let scores = outcomes(word, self.answer);
        Session {
            board: self.board.update(
                self.row,
                Seq::new(5, |c: int| Tile { state: scores[c], ..self.board[self.row][c] }),
            ),
            keyboard: aggregate(self.keyboard, word, scores),
            ..self
        }
    }

    /// What scoring `word` in the current row decides: a win where it is the
    /// answer, else a loss in the last row, else that the game goes on.
    pub open spec fn verdict(self, word: Seq<char>) -> GameState {
        if word == self.answer {
            GameState::Won
        } else if self.row != 5 {
            GameState::NotOver
        } else {
            GameState::Lost
        }
    }

    /// Submitting the row. In a finished game nothing happens. A row that is
    /// not full, or whose word the list lacks, brings up the notice and
    /// changes nothing else. Otherwise the row is scored; the answer wins the
    /// game, which is recorded with the number of rows used; another word in
    /// the last row loses it, which is recorded too; any other word moves the
    /// cursor to the start of the next row.
    pub open spec fn submit_guess(self) -> Session {
        if self.game_state != GameState::NotOver {
            self
        } else if !self.accepts_guess() {
            Session { invalid_word: Panel { visible: true, ..self.invalid_word }, ..self }
        } else {
            let word = self.current_guess();
            let scored = self.scored(word);
            match self.verdict(word) {
                GameState::Won => Session {
                    game_state: GameState::Won,
                    you_won_box: Panel { visible: true, ..self.you_won_box },
                    replay_button: Panel { visible: true, ..self.replay_button },
                    see_stats_button: Panel { visible: true, ..self.see_stats_button },
                    stats: self.stats.record_result(Some((self.row + 1) as nat)),
                    ..scored
                },
                GameState::Lost => Session {
                    game_state: GameState::Lost,
                    shown_answer_box: Panel { visible: true, ..self.shown_answer_box },
                    replay_button: Panel { visible: true, ..self.replay_button },
                    see_stats_button: Panel { visible: true, ..self.see_stats_button },
                    stats: self.stats.record_result(None),
                    ..scored
                },
                GameState::NotOver => Session { row: self.row + 1, col: 0, ..scored },
            }
        }
    }

    /// Whether a submission now ends the game.
    pub open spec fn submission_ends_game(self) -> bool {
        self.accepts_guess() && self.verdict(self.current_guess()) != GameState::NotOver
    }

    /// What a submission that ends the game adds to the record: a win with
    /// the number of rows used, or a loss.
    pub open spec fn result_of_submission(self) -> Option<nat> {
        if self.verdict(self.current_guess()) == GameState::Won {
            Some((self.row + 1) as nat)
        } else {
            None
        }
    }

    /// Whether the record can take what a submission now would add to it.
    pub open spec fn has_room_for_submission(self) -> bool {
        self.submission_ends_game() ==> self.stats.has_room_for(self.result_of_submission())
    }

    /// Another game with the answer `answer`: the board and the keyboard are
    /// cleared, the cursor is at the first cell, every panel is at rest; the
    /// statistics and the word list stay.
    pub open spec fn reset(self, answer: Seq<char>) -> Session {
        Session::start(
            answer,
            self.words,
            self.stats,
            self.you_won_box.at_rest(),
            self.shown_answer_box.at_rest(),
            self.invalid_word.at_rest(),
            self.replay_button.at_rest(),
            self.see_stats_button.at_rest(),
        )
    }

    /// What pressing a key with the action `action` and the letter `value`
    /// does.
    pub open spec fn pressed(self, action: Action, value: Option<char>) -> Session {
        match action {
            Action::Letter => self.type_letter(value->0),
            Action::Enter => self.submit_guess(),
            Action::Delete => self.delete_letter(),
        }
    }

    /// What a key of the machine's keyboard does. While the statistics
    /// overlay is open the board takes no input.
    pub open spec fn key_pressed(self, key: KeyPress) -> Session {
        if self.stats.shown {
            self
        } else {
            match key {
                KeyPress::Letter(ch) => if is_capital(ch) {
                    self.type_letter(ch)
                } else {
                    self
                },
                KeyPress::Back => self.delete_letter(),
                KeyPress::Return => self.submit_guess(),
                KeyPress::Other => self,
            }
        }
    }

    /// Whether the key ends the game.
    pub open spec fn key_ends_game(self, key: KeyPress) -> bool {
        !self.stats.shown && key is Return && self.submission_ends_game()
    }

    /// What a click does. The two buttons of the overlay open and close it at
    /// any time. While it is open the board takes no input. A letter key
    /// answers the left button only.
    pub open spec fn clicked(self, left_button: bool, target: Target) -> Session {
        match target {
            Target::CloseStatistics => Session {
                stats: Record { shown: false, ..self.stats },
                ..self
            },
            Target::SeeStatistics => Session { stats: Record { shown: true, ..self.stats }, ..self },
            Target::Letter(ch) => if !self.stats.shown && left_button && is_capital(ch) {
                self.type_letter(ch)
            } else {
                self
            },
            Target::Delete => if !self.stats.shown {
                self.delete_letter()
            } else {
                self
            },
            Target::Enter => if !self.stats.shown {
                self.submit_guess()
            } else {
                self
            },
            Target::Replay => self,
            Target::Nothing => self,
        }
    }

    /// Whether the click ends the game.
    pub open spec fn click_ends_game(self, target: Target) -> bool {
        !self.stats.shown && target is Enter && self.submission_ends_game()
    }

    /// Whether the click asks for another game: a click on the replay button
    /// while the overlay is closed.
    pub open spec fn click_asks_new_game(self, target: Target) -> bool {
        !self.stats.shown && target is Replay
    }

    /// The number of rows that hold a scored guess: those above the cursor,
    /// and the row of the cursor once the game is over.
    pub open spec fn rows_scored(self) -> int {
        if self.game_state == GameState::NotOver {
            self.row
        } else {
            self.row + 1
        }
    }

    /// The feedback for the word in row `r`.
    pub open spec fn feedback_at(self, r: int) -> Seq<State> {
        outcomes(self.word_at(r), self.answer)
    }

    /// The best feedback that the words in the first `rows` rows bring for
    /// the letter `c`; none where they bring none.
    pub open spec fn best_seen(self, c: char, rows: int) -> State
        decreases rows,
    {
        if rows <= 0 {
            State::NotFinalized
        } else {
            self.best_seen(c, rows - 1).higher(
                best_feedback(self.word_at(rows - 1), self.feedback_at(rows - 1), c, 5),
            )
        }
    }

    /// Whether the session shows what its guesses deserve: each scored row
    /// shows the feedback for its word, every other cell shows none, and
    /// each letter of the keyboard shows the best feedback that the scored
    /// rows bring for it.
    pub open spec fn shows_feedback(self) -> bool {
        &&& forall|r: int, c: int|
            0 <= r < 6 && 0 <= c < 5 ==> (#[trigger] self.board[r][c]).state == if r
                < self.rows_scored() {
                self.feedback_at(r)[c]
            } else {
                State::NotFinalized
            }
        &&& forall|c: char|
            is_capital(c) ==> #[trigger] self.keyboard[c] == self.best_seen(c, self.rows_scored())
    }

    /// Whether `next` is what a tick can lead to: the three moving panels are
    /// each one tick further and nothing else has changed.
    pub open spec fn ticks_to(self, clock: Clock, next: Session) -> bool {
        &&& self.invalid_word.advances_to(clock, next.invalid_word)
        &&& self.replay_button.advances_to(clock, next.replay_button)
        &&& self.see_stats_button.advances_to(clock, next.see_stats_button)
        &&& next == Session {
            invalid_word: next.invalid_word,
            replay_button: next.replay_button,
            see_stats_button: next.see_stats_button,
            ..self
        }
    }
}

/// Typing a capital letter, deleting and submitting each lead from a
/// well-formed session to a well-formed session.
pub proof fn law_inputs_keep_wf(session: Session, ch: char)
    requires
        session.wf(),
    ensures
        is_capital(ch) ==> session.type_letter(ch).wf(),
        session.delete_letter().wf(),
        session.submit_guess().wf(),
{
    let typed = session.type_letter(ch);
    if is_capital(ch) {
        assert forall|r: int| 0 <= r < 6 implies (#[trigger] typed.board[r]).len() == 5 by {
            assert(session.board[r].len() == 5);
        }
        assert forall|r: int, c: int| 0 <= r < 6 && 0 <= c < 5 implies ((
        #[trigger] typed.board[r][c]).letter is Some <==> (r < typed.row || (r == typed.row && c
            < typed.col))) by {
            assert(session.board[r][c].letter is Some <==> (r < session.row || (r == session.row
                && c < session.col)));
        }
        assert forall|r: int, c: int| 0 <= r < 6 && 0 <= c < 5 implies ((
        #[trigger] typed.board[r][c]).letter matches Some(l) ==> is_capital(l)) by {
            assert(session.board[r][c].letter matches Some(l) ==> is_capital(l));
        }
    }
    let erased = session.delete_letter();
    assert forall|r: int| 0 <= r < 6 implies (#[trigger] erased.board[r]).len() == 5 by {
        assert(session.board[r].len() == 5);
    }
    assert forall|r: int, c: int| 0 <= r < 6 && 0 <= c < 5 implies ((
    #[trigger] erased.board[r][c]).letter is Some <==> (r < erased.row || (r == erased.row && c
        < erased.col))) by {
        assert(session.board[r][c].letter is Some <==> (r < session.row || (r == session.row && c
            < session.col)));
    }
    assert forall|r: int, c: int| 0 <= r < 6 && 0 <= c < 5 implies ((
    #[trigger] erased.board[r][c]).letter matches Some(l) ==> is_capital(l)) by {
        assert(session.board[r][c].letter matches Some(l) ==> is_capital(l));
    }
    let sent = session.submit_guess();
    assert forall|r: int| 0 <= r < 6 implies (#[trigger] sent.board[r]).len() == 5 by {
        assert(session.board[r].len() == 5);
    }
    assert forall|r: int, c: int| 0 <= r < 6 && 0 <= c < 5 implies ((
    #[trigger] sent.board[r][c]).letter is Some <==> (r < sent.row || (r == sent.row && c
        < sent.col))) by {
        assert(session.board[r][c].letter is Some <==> (r < session.row || (r == session.row && c
            < session.col)));
    }
    assert forall|r: int, c: int| 0 <= r < 6 && 0 <= c < 5 implies ((
    #[trigger] sent.board[r][c]).letter matches Some(l) ==> is_capital(l)) by {
        assert(session.board[r][c].letter matches Some(l) ==> is_capital(l));
    }
    if sent.game_state != GameState::NotOver {
        assert(sent.current_guess() =~= session.current_guess());
    }
}

/// Two sessions with the same answer and the same words in their first rows
/// have seen the same feedback there.
proof fn lemma_best_seen_agrees(one: Session, other: Session, c: char, rows: int)
    requires
        one.answer == other.answer,
        forall|r: int| 0 <= r < rows ==> #[trigger] one.word_at(r) == other.word_at(r),
    ensures
        one.best_seen(c, rows) == other.best_seen(c, rows),
    decreases rows,
{
    if rows > 0 {
        lemma_best_seen_agrees(one, other, c, rows - 1);
        assert(one.word_at(rows - 1) == other.word_at(rows - 1));
    }
}

/// The words in the rows of `other` are those of `one` wherever the two
/// boards hold the same letters.
proof fn lemma_words_agree(one: Session, other: Session, rows: int)
    requires
        rows <= 6,
        forall|r: int, c: int|
            0 <= r < rows && 0 <= c < 5 ==> (#[trigger] one.board[r][c]).letter
                == other.board[r][c].letter,
    ensures
        forall|r: int| 0 <= r < rows ==> #[trigger] one.word_at(r) == other.word_at(r),
{
    assert forall|r: int| 0 <= r < rows implies #[trigger] one.word_at(r) == other.word_at(
        r,
    ) by {
        assert forall|c: int| 0 <= c < 5 implies one.word_at(r)[c] == other.word_at(r)[c] by {
            assert(one.board[r][c].letter == other.board[r][c].letter);
        }
        assert(one.word_at(r) =~= other.word_at(r));
    }
}

/// Typing, deleting and submitting make of a session that shows what its
/// guesses deserve a session that does so too.
pub proof fn law_inputs_keep_feedback(session: Session, ch: char)
    requires
        session.wf(),
        session.shows_feedback(),
    ensures
        session.type_letter(ch).shows_feedback(),
        session.delete_letter().shows_feedback(),
        session.submit_guess().shows_feedback(),
{
    let rows = session.rows_scored();
    let typed = session.type_letter(ch);
    assert(typed.shows_feedback()) by {
        lemma_words_agree(session, typed, rows);
        assert forall|r: int, c: int| 0 <= r < 6 && 0 <= c < 5 implies (
        #[trigger] typed.board[r][c]).state == if r < typed.rows_scored() {
            typed.feedback_at(r)[c]
        } else {
            State::NotFinalized
        } by {
            assert(typed.board[r][c].state == session.board[r][c].state);
        }
        assert forall|c: char| is_capital(c) implies #[trigger] typed.keyboard[c]
            == typed.best_seen(c, typed.rows_scored()) by {
            lemma_best_seen_agrees(session, typed, c, rows);
        }
    }
    let erased = session.delete_letter();
    assert(erased.shows_feedback()) by {
        lemma_words_agree(session, erased, rows);
        assert forall|r: int, c: int| 0 <= r < 6 && 0 <= c < 5 implies (
        #[trigger] erased.board[r][c]).state == if r < erased.rows_scored() {
            erased.feedback_at(r)[c]
        } else {
            State::NotFinalized
        } by {
            assert(erased.board[r][c].state == session.board[r][c].state);
        }
        assert forall|c: char| is_capital(c) implies #[trigger] erased.keyboard[c]
            == erased.best_seen(c, erased.rows_scored()) by {
            lemma_best_seen_agrees(session, erased, c, rows);
        }
    }
    let sent = session.submit_guess();
    assert(sent.shows_feedback()) by {
        lemma_words_agree(session, sent, 6);
        if session.accepts_guess() {
            let word = session.current_guess();
            let scores = outcomes(word, session.answer);
            assert(sent.rows_scored() == session.row + 1);
            assert(sent.word_at(session.row) == word);
            assert forall|r: int, c: int| 0 <= r < 6 && 0 <= c < 5 implies (
            #[trigger] sent.board[r][c]).state == if r < sent.rows_scored() {
                sent.feedback_at(r)[c]
            } else {
                State::NotFinalized
            } by {
                if r != session.row {
                    assert(sent.board[r][c].state == session.board[r][c].state);
                    assert(sent.word_at(r) == session.word_at(r));
                }
            }
            assert forall|c: char| is_capital(c) implies #[trigger] sent.keyboard[c]
                == sent.best_seen(c, sent.rows_scored()) by {
                lemma_best_seen_agrees(session, sent, c, session.row);
                assert(session.keyboard[c] == session.best_seen(c, session.row));
            }
        } else {
            assert forall|r: int, c: int| 0 <= r < 6 && 0 <= c < 5 implies (
            #[trigger] sent.board[r][c]).state == if r < sent.rows_scored() {
                sent.feedback_at(r)[c]
            } else {
                State::NotFinalized
            } by {
                assert(sent.board[r][c].state == session.board[r][c].state);
                assert(sent.word_at(r) == session.word_at(r));
            }
            assert forall|c: char| is_capital(c) implies #[trigger] sent.keyboard[c]
                == sent.best_seen(c, sent.rows_scored()) by {
                lemma_best_seen_agrees(session, sent, c, rows);
            }
        }
    }
}

/// A session at the start of a game shows what its guesses deserve: nothing
/// yet. So does a session after a reset.
pub proof fn law_new_game_shows_nothing(session: Session, answer: Seq<char>)
    ensures
        session.reset(answer).shows_feedback(),
        Session::start(
            answer,
            session.words,
            session.stats,
            session.you_won_box,
            session.shown_answer_box,
            session.invalid_word,
            session.replay_button,
            session.see_stats_button,
        ).shows_feedback(),
{
}

/// Whatever key is pressed and whatever is clicked, a session that shows what
/// its guesses deserve still does so afterwards; and so it does after a tick.
pub proof fn law_events_keep_feedback(
    session: Session,
    key: KeyPress,
    left_button: bool,
    target: Target,
    clock: Clock,
    next: Session,
)
    requires
        session.wf(),
        session.shows_feedback(),
    ensures
        session.key_pressed(key).shows_feedback(),
        session.clicked(left_button, target).shows_feedback(),
        session.ticks_to(clock, next) ==> next.shows_feedback(),
{
    let ch = match key {
        KeyPress::Letter(ch) => ch,
        _ => 'A',
    };
    law_inputs_keep_feedback(session, ch);
    let ch = match target {
        Target::Letter(ch) => ch,
        _ => 'A',
    };
    law_inputs_keep_feedback(session, ch);
    let rows = session.rows_scored();
    let seen = session.clicked(left_button, target);
    if target is CloseStatistics || target is SeeStatistics {
        lemma_words_agree(session, seen, rows);
        assert forall|c: char| is_capital(c) implies #[trigger] seen.keyboard[c]
            == seen.best_seen(c, seen.rows_scored()) by {
            lemma_best_seen_agrees(session, seen, c, rows);
        }
    }
    if session.ticks_to(clock, next) {
        lemma_words_agree(session, next, rows);
        assert forall|c: char| is_capital(c) implies #[trigger] next.keyboard[c]
            == next.best_seen(c, next.rows_scored()) by {
            lemma_best_seen_agrees(session, next, c, rows);
        }
    }
}

/// Resetting gives a well-formed session at the start of a game: the board
/// is empty, the keyboard shows nothing, the cursor is at the first cell and
/// the answer is the new one; the statistics are what they were.
pub proof fn law_reset_starts_over(session: Session, answer: Seq<char>)
    requires
        session.wf(),
        answer.len() == 5,
    ensures
        session.reset(answer).wf(),
        session.reset(answer).row == 0,
        session.reset(answer).col == 0,
        session.reset(answer).game_state == GameState::NotOver,
        session.reset(answer).answer == answer,
        session.reset(answer).stats == session.stats,
        session.reset(answer).words == session.words,
        forall|r: int, c: int|
            0 <= r < 6 && 0 <= c < 5 ==> #[trigger] session.reset(answer).board[r][c] == (Tile {
                letter: None,
                state: State::NotFinalized,
            }),
        forall|c: char|
            is_capital(c) ==> #[trigger] session.reset(answer).keyboard[c] == State::NotFinalized,
        !session.reset(answer).you_won_box.visible,
        !session.reset(answer).shown_answer_box.visible,
        !session.reset(answer).invalid_word.visible,
        !session.reset(answer).replay_button.visible,
        !session.reset(answer).see_stats_button.visible,
{
}

/// The best feedback for a letter is at least the feedback of every place
/// that holds it, and is the feedback of one such place unless there is none.
pub proof fn law_best_feedback_is_maximum(guess: Seq<char>, scores: Seq<State>, c: char, upto: int)
    requires
        0 <= upto <= guess.len(),
        forall|i: int| 0 <= i < upto ==> is_capital(#[trigger] guess[i]),
        is_capital(c),
    ensures
        forall|i: int|
            0 <= i < upto && guess[i] == c ==> (#[trigger] scores[i]).rank() <= best_feedback(
                guess,
                scores,
                c,
                upto,
            ).rank(),
        best_feedback(guess, scores, c, upto) == State::NotFinalized || exists|i: int|
            0 <= i < upto && guess[i] == c && #[trigger] scores[i] == best_feedback(
                guess,
                scores,
                c,
                upto,
            ),
    decreases upto,
{
    if upto > 0 {
        lemma_keyboard_is_alphabet();
        law_best_feedback_is_maximum(guess, scores, c, upto - 1);
        let before = best_feedback(guess, scores, c, upto - 1);
        let now = best_feedback(guess, scores, c, upto);
        assert(is_capital(guess[upto - 1]));
        assert(key_position(guess[upto - 1]) == key_position(c) <==> guess[upto - 1] == c);
        if now != State::NotFinalized {
            if now == before {
                let i = choose|i: int|
                    0 <= i < upto - 1 && guess[i] == c && #[trigger] scores[i] == before;
                assert(0 <= i < upto && guess[i] == c && scores[i] == now);
            } else {
                assert(guess[upto - 1] == c && scores[upto - 1] == now);
            }
        }
    }
}

/// No letter of the keyboard shows less after a guess was merged in than it
/// showed before, and it shows at least what the guess brought for it.
pub proof fn law_keyboard_never_downgrades(
    keyboard: Map<char, State>,
    guess: Seq<char>,
    scores: Seq<State>,
    c: char,
)
    requires
        keyboard.dom().contains(c),
    ensures
        aggregate(keyboard, guess, scores).dom() == keyboard.dom(),
        aggregate(keyboard, guess, scores)[c].rank() >= keyboard[c].rank(),
        aggregate(keyboard, guess, scores)[c].rank() >= best_feedback(
            guess,
            scores,
            c,
            guess.len() as int,
        ).rank(),
        aggregate(keyboard, guess, scores)[c] == keyboard[c] || aggregate(
            keyboard,
            guess,
            scores,
        )[c] == best_feedback(guess, scores, c, guess.len() as int),
{
    assert(aggregate(keyboard, guess, scores).dom() =~= keyboard.dom());
}

/// Whatever the input, no letter of the keyboard shows less after it than
/// before.
pub proof fn law_inputs_never_downgrade_keyboard(session: Session, ch: char, c: char)
    requires
        session.wf(),
        is_capital(c),
    ensures
        session.type_letter(ch).keyboard[c] == session.keyboard[c],
        session.delete_letter().keyboard[c] == session.keyboard[c],
        session.submit_guess().keyboard[c].rank() >= session.keyboard[c].rank(),
{
    law_keyboard_never_downgrades(
        session.keyboard,
        session.current_guess(),
        outcomes(session.current_guess(), session.answer),
        c,
    );
}

/// Whatever key is pressed and whatever is clicked, no letter of the keyboard
/// shows less after it than before.
pub proof fn law_events_never_downgrade_keyboard(
    session: Session,
    key: KeyPress,
    left_button: bool,
    target: Target,
    c: char,
)
    requires
        session.wf(),
        is_capital(c),
    ensures
        session.key_pressed(key).keyboard[c].rank() >= session.keyboard[c].rank(),
        session.clicked(left_button, target).keyboard[c].rank() >= session.keyboard[c].rank(),
{
    law_inputs_never_downgrade_keyboard(session, 'A', c);
}

/// A record in which every count can still grow has room for whatever a
/// submission adds.
pub proof fn law_room_for_every_result(session: Session)
    requires
        session.wf(),
        session.stats.has_room(),
    ensures
        session.has_room_for_submission(),
{
    if session.result_of_submission() is Some {
        assert(session.stats.wins[session.row] < u32::MAX);
    }
}

/// A finished game takes no input: typing, deleting and submitting leave the
/// session as it is.
pub proof fn law_finished_game_ignores_input(session: Session, ch: char)
    requires
        session.wf(),
        session.game_state != GameState::NotOver,
    ensures
        session.type_letter(ch) == session,
        session.delete_letter() == session,
        session.submit_guess() == session,
        !session.submission_ends_game(),
{
}

/// A guess that is not accepted, because the row is not full or the word
/// list lacks the word, brings up the notice and leaves the board, the
/// cursor, the keyboard and the statistics as they are.
pub proof fn law_rejected_guess_changes_nothing(session: Session)
    requires
        session.wf(),
        session.game_state == GameState::NotOver,
        !session.accepts_guess(),
    ensures
        session.submit_guess().invalid_word.visible,
        session.submit_guess() == (Session {
            invalid_word: session.submit_guess().invalid_word,
            ..session
        }),
{
}

/// An accepted guess in the last row that is not the answer loses the game:
/// the answer is shown, one loss is added to the record, and a second
/// submission adds nothing.
pub proof fn law_last_row_miss_loses(session: Session)
    requires
        session.wf(),
        session.accepts_guess(),
        session.row == 5,
        session.current_guess() != session.answer,
    ensures
        session.submit_guess().game_state == GameState::Lost,
        session.submit_guess().shown_answer_box.visible,
        session.submit_guess().stats == session.stats.record_result(None),
        session.submit_guess().stats.losses == session.stats.losses + 1,
        session.submit_guess().stats.games_played() == session.stats.games_played() + 1,
        session.submit_guess().submit_guess() == session.submit_guess(),
        session.submission_ends_game(),
{
}

/// An accepted guess that is the answer wins the game: every cell of the row
/// is correct, the win is recorded with the number of rows used, which
/// becomes the last result, and a second submission adds nothing.
pub proof fn law_win_is_recorded(session: Session)
    requires
        session.wf(),
        session.accepts_guess(),
        session.current_guess() == session.answer,
    ensures
        session.submit_guess().game_state == GameState::Won,
        session.submit_guess().you_won_box.visible,
        forall|c: int|
            0 <= c < 5 ==> (#[trigger] session.submit_guess().board[session.row][c]).state
                == State::CorrectInWord,
        session.submit_guess().stats == session.stats.record_result(
            Some((session.row + 1) as nat),
        ),
        session.submit_guess().stats.games_played() == session.stats.games_played() + 1,
        session.submit_guess().stats.last_result == Some((session.row + 1) as nat),
        session.submit_guess().submit_guess() == session.submit_guess(),
        session.submission_ends_game(),
{
}

/// An accepted guess before the last row that is not the answer moves the
/// cursor to the start of the next row and leaves the record as it is; the
/// row shows the feedback for the guess.
pub proof fn law_miss_moves_to_next_row(session: Session)
    requires
        session.wf(),
        session.accepts_guess(),
        session.row < 5,
        session.current_guess() != session.answer,
    ensures
        session.submit_guess().game_state == GameState::NotOver,
        session.submit_guess().row == session.row + 1,
        session.submit_guess().col == 0,
        session.submit_guess().stats == session.stats,
        forall|c: int|
            0 <= c < 5 ==> (#[trigger] session.submit_guess().board[session.row][c]).state
                == outcomes(session.current_guess(), session.answer)[c],
        !session.submission_ends_game(),
{
}

} // verus!
