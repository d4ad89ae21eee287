//! A high-card game over a standard 52-card deck: the deck model, the
//! ASCII-art hand renderer and the rules that deal cards and pick a winner.

pub mod cards;
pub mod game;
pub mod text;
