//! Feedback patterns and entropy scoring for a five-letter word-guessing game: comparing a
//! guess with a secret, enumerating every pattern, tabulating all pairs of a dictionary, and
//! counting how the secrets spread over the patterns of a guess.

pub mod error;
pub mod feedback;
pub mod lookup;
pub mod patterns;
pub mod scoring;
