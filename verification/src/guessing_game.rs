//! A number-guessing game: the player guesses a secret number between 1 and
//! 100 and is told after each guess whether it was too small or too big.

pub mod guess;
pub mod secret;
pub mod session;
