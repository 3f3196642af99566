//! The record of finished games: how many were won with each number of
//! guesses, how many were lost, and what is derived from those counts.

use vstd::prelude::*;

verus! {

/// The record of finished games, as numbers.
#[verifier::ext_equal]
pub struct Record {
    /// `wins[n - 1]` is the number of games won with `n` guesses.
    pub wins: Seq<nat>,
    /// The number of games lost.
    pub losses: nat,
    /// The number of guesses of the win recorded last, if any was.
    pub last_result: Option<nat>,
    /// Whether the statistics overlay is open.
    pub shown: bool,
}

/// The larger of two numbers.
pub open spec fn larger(a: nat, b: nat) -> nat {
    if a >= b {
        a
    } else {
        b
    }
}

impl Record {
    /// There is one count of wins for each number of guesses.
    pub open spec fn wf(self) -> bool {
        self.wins.len() == 6
    }

    /// Whether `attempts` is a result that a game can end with: a loss, or a
    /// win with one to six guesses.
    pub open spec fn is_result(attempts: Option<nat>) -> bool {
        attempts matches Some(n) ==> 1 <= n <= 6
    }

    /// The record after one more game: a win with `n` guesses for `Some(n)`,
    /// which becomes the last result, a loss for `None`.
    pub open spec fn record_result(self, attempts: Option<nat>) -> Record {
        match attempts {
            Some(n) => Record {
                wins: self.wins.update(n - 1, self.wins[n - 1] + 1),
                last_result: Some(n),
                ..self
            },
            None => Record { losses: self.losses + 1, ..self },
        }
    }

    /// The number of games won.
    pub open spec fn games_won(self) -> nat {
        self.wins[0] + self.wins[1] + self.wins[2] + self.wins[3] + self.wins[4] + self.wins[5]
    }

    /// The number of games finished.
    pub open spec fn games_played(self) -> nat {
        self.games_won() + self.losses
    }

    /// The share of games won, in percent and rounded to the nearest whole
    /// number, halves upwards; there is none before the first game.
    pub open spec fn win_rate(self) -> Option<nat> {
        if self.games_played() == 0 {
            None
        } else {
            Some(((200 * self.games_won() + self.games_played()) / (2 * self.games_played())) as nat)
        }
    }

    /// The largest of the six counts of wins.
    pub open spec fn most_wins(self) -> nat {
        larger(
            larger(larger(self.wins[0], self.wins[1]), larger(self.wins[2], self.wins[3])),
            larger(self.wins[4], self.wins[5]),
        )
    }

    /// The width of the bar for wins with `attempts` guesses in a chart whose
    /// longest bar is `widest`: in proportion to the count, and `narrowest`
    /// where that is less or where nothing was won yet.
    pub open spec fn bar_width(self, attempts: nat, widest: nat, narrowest: nat) -> nat {
        if self.most_wins() == 0 {
            narrowest
        } else {
            larger(self.wins[attempts - 1] * widest / self.most_wins(), narrowest)
        }
    }

    /// The seven counts in the order in which they are stored: wins with one
    /// to six guesses, then losses.
    pub open spec fn counters(self) -> Seq<nat> {
        self.wins.push(self.losses)
    }

    /// The record that seven stored counts stand for, with no last result
    /// and the overlay closed.
    pub open spec fn of_counters(counters: Seq<u32>) -> Record {
        Record {
            wins: Seq::new(6, |i: int| counters[i] as nat),
            losses: counters[6] as nat,
            last_result: None,
            shown: false,
        }
    }

    /// Whether the count that `attempts` adds to is below the largest number
    /// that fits it.
    pub open spec fn has_room_for(self, attempts: Option<nat>) -> bool {
        match attempts {
            Some(n) => self.wins[n - 1] < u32::MAX,
            None => self.losses < u32::MAX,
        }
    }

    /// Whether every count is below the largest number that fits it.
    pub open spec fn has_room(self) -> bool {
        &&& self.losses < u32::MAX
        &&& forall|i: int| 0 <= i < 6 ==> #[trigger] self.wins[i] < u32::MAX
    }
}

/// Recording a result adds one finished game; a win becomes the last result
/// and a loss leaves the last result as it was.
pub proof fn law_record_counts_one_game(record: Record, attempts: Option<nat>)
    requires
        record.wf(),
        Record::is_result(attempts),
    ensures
        record.record_result(attempts).wf(),
        record.record_result(attempts).games_played() == record.games_played() + 1,
        attempts is Some ==> record.record_result(attempts).last_result == attempts,
        attempts is None ==> record.record_result(attempts).last_result == record.last_result,
        attempts is None ==> record.record_result(attempts).games_won() == record.games_won(),
        record.record_result(attempts).shown == record.shown,
{
}

/// The largest count of wins is one of the six counts and none exceeds it.
pub proof fn law_most_wins_is_maximum(record: Record)
    requires
        record.wf(),
    ensures
        forall|i: int| 0 <= i < 6 ==> #[trigger] record.wins[i] <= record.most_wins(),
        exists|i: int| 0 <= i < 6 && #[trigger] record.wins[i] == record.most_wins(),
{
    let m = record.most_wins();
    if record.wins[0] == m {
    } else if record.wins[1] == m {
    } else if record.wins[2] == m {
    } else if record.wins[3] == m {
    } else if record.wins[4] == m {
    } else {
        assert(record.wins[5] == m);
    }
}

/// The win rate lies between 0 and 100, is 100 exactly when no game was
/// lost, and is absent exactly when no game was played.
pub proof fn law_win_rate_is_percentage(record: Record)
    requires
        record.wf(),
    ensures
        record.win_rate() is None <==> record.games_played() == 0,
        record.win_rate() matches Some(rate) ==> rate <= 100,
        record.win_rate() matches Some(rate) ==> (rate == 100 <==> 200 * record.losses
            <= record.games_played()),
{
    let played = record.games_played() as int;
    let won = record.games_won() as int;
    if played > 0 {
        let rate = (200 * won + played) / (2 * played);
        assert(0 <= rate <= 100 && (rate == 100 <==> 200 * won + played >= 200 * played))
            by (nonlinear_arith)
            requires
                0 <= won <= played,
                played > 0,
                rate == (200 * won + played) / (2 * played),
        ;
    }
}

/// The statistics of finished games.
#[derive(Clone, Copy, Debug)]
pub struct Statistics {
    games_won_by_first_try: u32,
    games_won_by_second_try: u32,
    games_won_by_third_try: u32,
    games_won_by_fourth_try: u32,
    games_won_by_fifth_try: u32,
    games_won_by_sixth_try: u32,
    games_lost: u32,
    is_being_shown: bool,
    last_guessed_by_attempt: Option<u8>,
}

impl View for Statistics {
    type V = Record;

    closed spec fn view(&self) -> Record {
        Record {
            wins: seq![
                self.games_won_by_first_try as nat,
                self.games_won_by_second_try as nat,
                self.games_won_by_third_try as nat,
                self.games_won_by_fourth_try as nat,
                self.games_won_by_fifth_try as nat,
                self.games_won_by_sixth_try as nat,
            ],
            losses: self.games_lost as nat,
            last_result: match self.last_guessed_by_attempt {
                Some(n) => Some(n as nat),
                None => None,
            },
            shown: self.is_being_shown,
        }
    }
}

impl Statistics {
    /// The record of any statistics is well formed, and each of its counts
    /// fits 32 bits.
    pub proof fn lemma_view_wf(&self)
        ensures
            self@.wf(),
            self@.losses <= u32::MAX,
            forall|i: int| 0 <= i < 6 ==> #[trigger] self@.wins[i] <= u32::MAX,
    {
    }

    /// The statistics that the seven stored counts stand for: wins with one to
    /// six guesses, then losses. Nothing is the last result yet and the
    /// overlay is closed.
    pub fn new(counters: [u32; 7]) -> (stats: Statistics)
        ensures
            stats@ == Record::of_counters(counters@),
    {
        let stats = Statistics {
            games_won_by_first_try: counters[0],
            games_won_by_second_try: counters[1],
            games_won_by_third_try: counters[2],
            games_won_by_fourth_try: counters[3],
            games_won_by_fifth_try: counters[4],
            games_won_by_sixth_try: counters[5],
            games_lost: counters[6],
            is_being_shown: false,
            last_guessed_by_attempt: None,
        };
        assert(stats@ =~= Record::of_counters(counters@));
        stats
    }

    /// The seven counts in the order in which they are stored.
    pub fn counters(&self) -> (counters: [u32; 7])
        ensures
            counters@.map_values(|n: u32| n as nat) == self@.counters(),
            forall|i: int| 0 <= i < 6 ==> #[trigger] counters@[i] == self@.wins[i],
            counters@[6] == self@.losses,
    {
        let counters = [
            self.games_won_by_first_try,
            self.games_won_by_second_try,
            self.games_won_by_third_try,
            self.games_won_by_fourth_try,
            self.games_won_by_fifth_try,
            self.games_won_by_sixth_try,
            self.games_lost,
        ];
        assert(counters@.map_values(|n: u32| n as nat) =~= self@.counters());
        counters
    }

    /// The number of games won with `attempts` guesses.
    pub fn get_wins(&self, attempts: u32) -> (wins: u32)
        requires
            1 <= attempts <= 6,
        ensures
            wins == self@.wins[attempts - 1],
    {
        match attempts {
            1 => self.games_won_by_first_try,
            2 => self.games_won_by_second_try,
            3 => self.games_won_by_third_try,
            4 => self.games_won_by_fourth_try,
            5 => self.games_won_by_fifth_try,
            _ => self.games_won_by_sixth_try,
        }
    }

    /// The number of games lost.
    pub fn get_games_lost(&self) -> (losses: u32)
        ensures
            losses == self@.losses,
    {
        self.games_lost
    }

    /// The number of guesses of the win recorded last, if any was.
    pub fn get_last_result(&self) -> (last: Option<u8>)
        ensures
            last is Some <==> self@.last_result is Some,
            last matches Some(n) ==> self@.last_result == Some(n as nat),
    {
        self.last_guessed_by_attempt
    }

    /// The number of games finished.
    pub fn get_games_played(&self) -> (played: u64)
        ensures
            played == self@.games_played(),
    {
        self.games_won_by_first_try as u64 + self.games_won_by_second_try as u64
            + self.games_won_by_third_try as u64 + self.games_won_by_fourth_try as u64
            + self.games_won_by_fifth_try as u64 + self.games_won_by_sixth_try as u64
            + self.games_lost as u64
    }

    /// The share of games won, in percent to the nearest whole number; `None`
    /// before the first game.
    pub fn get_win_rate(&self) -> (rate: Option<u32>)
        ensures
            rate is Some <==> self@.win_rate() is Some,
            rate matches Some(percent) ==> self@.win_rate() == Some(percent as nat),
    {
        let played: u64 = self.get_games_played();
        if played == 0 {
            return None;
        }
        let won: u64 = played - self.games_lost as u64;
        let percent: u64 = (200 * won + played) / (2 * played);
        proof {
            law_win_rate_is_percentage(self@);
        }
        Some(percent as u32)
    }

    /// The largest of the six counts of wins.
    pub fn get_most_wins(&self) -> (most: u32)
        ensures
            most == self@.most_wins(),
    {
        let mut most: u32 = self.games_won_by_first_try;
        if self.games_won_by_second_try > most {
            most = self.games_won_by_second_try;
        }
        if self.games_won_by_third_try > most {
            most = self.games_won_by_third_try;
        }
        if self.games_won_by_fourth_try > most {
            most = self.games_won_by_fourth_try;
        }
        if self.games_won_by_fifth_try > most {
            most = self.games_won_by_fifth_try;
        }
        if self.games_won_by_sixth_try > most {
            most = self.games_won_by_sixth_try;
        }
        most
    }

    /// The width of the bar for wins with `attempts` guesses in a chart whose
    /// longest bar is `widest` and whose shortest is `narrowest`.
    pub fn bar_width(&self, attempts: u32, widest: u32, narrowest: u32) -> (width: u32)
        requires
            1 <= attempts <= 6,
        ensures
            width == self@.bar_width(attempts as nat, widest as nat, narrowest as nat),
    {
        let most: u32 = self.get_most_wins();
        if most == 0 {
            return narrowest;
        }
        let wins: u32 = self.get_wins(attempts);
        proof {
            law_most_wins_is_maximum(self@);
            assert(self@.wins[attempts - 1] <= most);
            assert(wins as int * widest as int <= most as int * widest as int)
                by (nonlinear_arith)
                requires
                    0 <= wins <= most,
                    0 <= widest,
            ;
            assert((wins as int * widest as int) / (most as int) <= widest as int)
                by (nonlinear_arith)
                requires
                    0 <= wins as int * widest as int <= most as int * widest as int,
                    0 < most,
            ;
            assert(wins as int * widest as int <= u32::MAX * u32::MAX) by (nonlinear_arith)
                requires
                    0 <= wins <= u32::MAX,
                    0 <= widest <= u32::MAX,
            ;
        }
        let scaled: u64 = wins as u64 * widest as u64 / most as u64;
        if scaled <= narrowest as u64 {
            narrowest
        } else {
            scaled as u32
        }
    }

    /// Whether the bar for wins with `attempts` guesses stands out as the
    /// result recorded last.
    pub fn is_last_result(&self, attempts: u32) -> (last: bool)
        ensures
            last == (self@.last_result == Some(attempts as nat)),
    {
        match self.last_guessed_by_attempt {
            Some(n) => n as u32 == attempts,
            None => false,
        }
    }

    /// Whether the statistics overlay is open.
    pub fn is_on_screen(&self) -> (shown: bool)
        ensures
            shown == self@.shown,
    {
        self.is_being_shown == true
    }

    /// Opens the statistics overlay.
    pub fn put_on_screen(&mut self)
        ensures
            final(self)@ == (Record { shown: true, ..old(self)@ }),
    {
        self.is_being_shown = true;
    }

    /// Closes the statistics overlay.
    pub fn remove_from_screen(&mut self)
        ensures
            final(self)@ == (Record { shown: false, ..old(self)@ }),
    {
        self.is_being_shown = false;
    }

    /// Whether every count can still grow by one.
    pub fn can_record(&self) -> (room: bool)
        ensures
            room == self@.has_room(),
    {
        let room = self.games_won_by_first_try < u32::MAX && self.games_won_by_second_try
            < u32::MAX && self.games_won_by_third_try < u32::MAX && self.games_won_by_fourth_try
            < u32::MAX && self.games_won_by_fifth_try < u32::MAX && self.games_won_by_sixth_try
            < u32::MAX && self.games_lost < u32::MAX;
        proof {
            if room {
                assert forall|i: int| 0 <= i < 6 implies #[trigger] self@.wins[i] < u32::MAX by {}
            } else if self.games_lost < u32::MAX {
                if self.games_won_by_first_try == u32::MAX {
                    assert(self@.wins[0] == u32::MAX);
                } else if self.games_won_by_second_try == u32::MAX {
                    assert(self@.wins[1] == u32::MAX);
                } else if self.games_won_by_third_try == u32::MAX {
                    assert(self@.wins[2] == u32::MAX);
                } else if self.games_won_by_fourth_try == u32::MAX {
                    assert(self@.wins[3] == u32::MAX);
                } else if self.games_won_by_fifth_try == u32::MAX {
                    assert(self@.wins[4] == u32::MAX);
                } else {
                    assert(self@.wins[5] == u32::MAX);
                }
            }
        }
        room
    }

    /// Records one finished game, a win with `n` guesses for `Some(n)` and a
    /// loss for `None`, and returns the seven counts to be stored.
    pub fn update_stats(&mut self, input: Option<u32>) -> (counters: [u32; 7])
        requires
            input matches Some(n) ==> 1 <= n <= 6,
            old(self)@.has_room_for(
                match input {
                    Some(n) => Some(n as nat),
                    None => None,
                },
            ),
        ensures
            final(self)@ == old(self)@.record_result(
                match input {
                    Some(n) => Some(n as nat),
                    None => None,
                },
            ),
            counters@.map_values(|n: u32| n as nat) == final(self)@.counters(),
            forall|i: int| 0 <= i < 6 ==> #[trigger] counters@[i] == final(self)@.wins[i],
            counters@[6] == final(self)@.losses,
    {
        match input {
            None => {
                self.games_lost += 1;
            },
            Some(attempts) => {
                match attempts {
                    1 => {
                        self.games_won_by_first_try += 1;
                    },
                    2 => {
                        self.games_won_by_second_try += 1;
                    },
                    3 => {
                        self.games_won_by_third_try += 1;
                    },
                    4 => {
                        self.games_won_by_fourth_try += 1;
                    },
                    5 => {
                        self.games_won_by_fifth_try += 1;
                    },
                    _ => {
                        self.games_won_by_sixth_try += 1;
                    },
                }
                self.last_guessed_by_attempt = Some(attempts as u8);
            },
        }
        assert(self@ =~= old(self)@.record_result(
            match input {
                Some(n) => Some(n as nat),
                None => None,
            },
        ));
        self.counters()
    }
}

} // verus!
