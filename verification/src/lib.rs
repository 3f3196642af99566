//! A five-letter word guessing game: scoring of guesses, the session state
//! machine, win/loss statistics and the timed motion of on-screen panels.

pub mod feedback;
pub mod letters;
pub mod statistics;
pub mod random;
pub mod animation;
pub mod words;
pub mod persistence;
pub mod session;
pub mod wordle;
