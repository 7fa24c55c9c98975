//! What can go wrong when a table is checked and when an input is run.

use vstd::prelude::*;

verus! {

/// Where a table names a state. Rows, columns and positions count from 1.
#[derive(Debug, Clone, Copy, PartialEq, Eq)]
pub enum Place {
    /// A cell of the transition table.
    Cell { row: usize, column: usize },
    /// The start state.
    Start,
    /// An entry of the list of accepting states.
    Accept { position: usize },
}

/// Why a table is refused.
#[derive(Debug, Clone, Copy, PartialEq, Eq)]
pub enum ValidationError {
    /// Row `row` has `found` columns where the alphabet has `expected`.
    ShapeMismatch { row: usize, found: usize, expected: usize },
    /// The state `value` named at `place` is not a row of the table.
    InvalidStateReference { place: Place, value: usize },
}

/// A column that the stack discipline needs and the alphabet lacks.
#[derive(Debug, Clone, Copy, PartialEq, Eq)]
pub enum Missing {
    /// No column for the epsilon symbol.
    Epsilon,
    /// No column for a pivot symbol.
    Pivot,
}

/// Why a run halted before it reached a verdict. States count from 1.
#[derive(Debug, Clone, Copy, PartialEq, Eq)]
pub enum ExecutionError {
    /// `symbol` was read in `state` and the alphabet has no column for it.
    UnknownSymbol { symbol: char, state: usize },
    /// A transition asked to pop `expected`; the top of the stack was
    /// `found`, or the stack was empty.
    StackMismatch { expected: char, found: Option<char> },
    /// The alphabet lacks a column that the stack discipline relies on.
    ConfigurationError { missing: Missing },
}

} // verus!
