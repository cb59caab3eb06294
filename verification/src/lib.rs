//! Verified introductory exercises: a number-guessing game, and small
//! functions on variables, loops and the ownership of strings.

pub mod guessing_game;
pub mod ownership;
pub mod variables;
