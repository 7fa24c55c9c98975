//! Finite automata over single-character symbols: a table-driven
//! deterministic acceptor, a stack-augmented acceptor that follows a fixed
//! push-then-pop discipline, and a builder that derives a deterministic
//! table from a small pattern notation.

pub mod symbols;
pub mod error;
pub mod dfa;
pub mod regex;
pub mod builder;
pub mod pda;
pub mod stack;
pub mod graph;
