//! A terminal word-guessing game library.
//!
//! A hidden five-letter solution is chosen from a word store; the player
//! submits guesses and receives per-letter feedback (correct position,
//! present elsewhere, absent), together with cumulative suggestions
//! derived from the whole guess history.

pub mod config;
pub mod feedback;
pub mod words;
pub mod wordle;
