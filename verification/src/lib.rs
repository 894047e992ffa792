//! Verified core of a spelling-bee style word puzzle.
//!
//! A puzzle is built around seven distinct letters, one of them the center
//! letter.  Every dictionary word is classified as not valid, valid, or a
//! pangram (a word whose distinct letters are exactly the seven), and valid
//! words are scored by their length.  The modules below hold the letter set
//! and classification (`comb`), word scoring (`utils`, `valid_word`), the
//! evaluated daily game (`game`), and the plain data carried around them
//! (`lang`, `word_list`, `user`).

pub mod comb;
pub mod game;
pub mod lang;
pub mod user;
pub mod utils;
pub mod valid_word;
pub mod word_list;
