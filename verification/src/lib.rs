//! A verified library for a number-guessing session: a hidden target value,
//! a bounded budget of attempts, three-way classification of each guess, and
//! recovery from malformed input. A few small verified helpers on integers
//! and strings accompany it.

pub mod laws;
pub mod numbers;
pub mod parse;
pub mod session;
pub mod text;
pub mod user;
