//! A word-guessing game library: a catalog of languages is built from
//! dictionary word lists, and rounds of ten random words are served from it.

pub mod paths;
pub mod text;
pub mod alias;
pub mod catalog;
pub mod game;
