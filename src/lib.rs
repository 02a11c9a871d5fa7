//! A five-letter word-guessing game: a lexicon of legal words, the scoring of a
//! guess against a hidden target, and the turn rules of a game.

pub mod feedback;
pub mod lexicon;
pub mod game;
