//! Random passwords drawn from a configurable universe of symbols.

pub mod ascending;
pub mod delivery;
pub mod error;
pub mod password;
pub mod request;
pub mod symbols;
pub mod trusted;
pub mod universe;
