//! A five-letter word-guessing game: the dictionary, the letter scoring,
//! the board of attempts and the engine that ties them together.

pub mod board;
pub mod case;
pub mod dictionary;
pub mod engine;
pub mod game;
pub mod lines;
pub mod score;
pub mod word;
