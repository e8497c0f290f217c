//! Setting up chess puzzles from text and driving a game against the
//! engine of the `chess_engine` crate.

pub mod model;
pub mod engine;
pub mod text;
pub mod gameparse;
pub mod game;
pub mod solution;
