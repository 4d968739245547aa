//! Characters, sequences of characters and decimal numbers: the vocabulary
//! in which the rest of the crate states what it computes.

pub mod chars;
pub mod numbers;
pub mod seqs;
pub mod strings;
