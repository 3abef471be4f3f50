//! A number-guessing game as a verified state machine, with the small text
//! helpers that live beside it.
//!
//! * [`input`] turns a line of text into a guess, or into nothing.
//! * [`game`] holds the secret, judges guesses and knows when the game is over.
//! * [`secret`] draws the secret number.
//! * [`chars`] lays out the characters of a text for indexing.
//! * [`words`] and [`teams`] are two self-contained text helpers.

pub mod chars;
pub mod game;
pub mod input;
pub mod secret;
pub mod teams;
pub mod words;
