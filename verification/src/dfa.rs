//! The deterministic automaton: its table, the check of the table, and the
//! run of an input through it.

use vstd::prelude::*;
use crate::error::{ExecutionError, Place, ValidationError};
use crate::symbols::{holds_state, last_column, last_column_upto_bounds, last_position};

verus! {

/// A deterministic automaton. States are the rows of `transitions`,
/// numbered from 1; the columns follow `alphabet`.
#[derive(Debug)]
pub struct DFA {
    /// The symbols, in column order.
    pub alphabet: Vec<char>,
    /// The state in which every run begins.
    pub start: usize,
    /// The accepting states.
    pub accept: Vec<usize>,
    /// For each state and each column, the state to go to.
    pub transitions: Vec<Vec<usize>>,
}

/// One transition taken during a run. States count from 1.
#[derive(Debug, Clone, Copy, PartialEq, Eq)]
pub struct Step {
    pub from: usize,
    pub symbol: char,
    pub to: usize,
}

/// What a run leaves behind: the transitions it took, in order, and either
/// the verdict (`true` for accept) or the reason it halted.
#[derive(Debug)]
pub struct Run {
    pub trace: Vec<Step>,
    pub verdict: Result<bool, ExecutionError>,
}

impl DFA {
    /// The number of states.
    pub open spec fn state_count(&self) -> int {
        self.transitions@.len() as int
    }

    /// Whether `state` names a row of the table.
    pub open spec fn is_state(&self, state: usize) -> bool {
        1 <= state <= self.transitions@.len()
    }

    /// Whether row `r` (from 0) has one cell per symbol.
    pub open spec fn row_fits(&self, r: int) -> bool {
        self.transitions@[r]@.len() == self.alphabet@.len()
    }

    /// Whether the cell in row `r`, column `c` (both from 0) names a state.
    pub open spec fn cell_fits(&self, r: int, c: int) -> bool {
        self.is_state(self.transitions@[r]@[c])
    }

    /// Whether entry `k` (from 0) of the accepting states names a state.
    pub open spec fn accept_fits(&self, k: int) -> bool {
        self.is_state(self.accept@[k])
    }

    /// Every row has one cell per symbol.
    pub open spec fn rows_fit(&self) -> bool {
        forall|r: int| 0 <= r < self.state_count() ==> #[trigger] self.row_fits(r)
    }

    /// Every cell names a state.
    pub open spec fn cells_fit(&self) -> bool {
        forall|r: int, c: int|
            0 <= r < self.state_count() && 0 <= c < self.alphabet@.len() ==> #[trigger] self.cell_fits(r, c)
    }

    /// The table can be run: the rows have the alphabet's length, and every
    /// cell, the start state and every accepting state name a row.
    pub open spec fn well_formed(&self) -> bool {
        &&& self.rows_fit()
        &&& self.cells_fit()
        &&& self.is_state(self.start)
        &&& forall|k: int| 0 <= k < self.accept@.len() ==> #[trigger] self.accept_fits(k)
    }

    /// Whether `e` is the fault that a check in the fixed order meets first:
    /// row lengths from the first row down, then cells row by row and left
    /// to right, then the start state, then the accepting states in order.
    pub open spec fn first_violation(&self, e: ValidationError) -> bool {
        match e {
            ValidationError::ShapeMismatch { row, found, expected } => {
                &&& 1 <= row <= self.state_count()
                &&& !self.row_fits(row - 1)
                &&& found == self.transitions@[row - 1]@.len()
                &&& expected == self.alphabet@.len()
                &&& forall|r: int| 0 <= r < row - 1 ==> #[trigger] self.row_fits(r)
            },
            ValidationError::InvalidStateReference { place: Place::Cell { row, column }, value } => {
                &&& self.rows_fit()
                &&& 1 <= row <= self.state_count()
                &&& 1 <= column <= self.alphabet@.len()
                &&& !self.cell_fits(row - 1, column - 1)
                &&& value == self.transitions@[row - 1]@[column - 1]
                &&& forall|r: int, c: int|
                    0 <= r < row - 1 && 0 <= c < self.alphabet@.len() ==> #[trigger] self.cell_fits(r, c)
                &&& forall|c: int| 0 <= c < column - 1 ==> #[trigger] self.cell_fits(row - 1, c)
            },
            ValidationError::InvalidStateReference { place: Place::Start, value } => {
                &&& self.rows_fit()
                &&& self.cells_fit()
                &&& !self.is_state(self.start)
                &&& value == self.start
            },
            ValidationError::InvalidStateReference { place: Place::Accept { position }, value } => {
                &&& self.rows_fit()
                &&& self.cells_fit()
                &&& self.is_state(self.start)
                &&& 1 <= position <= self.accept@.len()
                &&& !self.accept_fits(position - 1)
                &&& value == self.accept@[position - 1]
                &&& forall|k: int| 0 <= k < position - 1 ==> #[trigger] self.accept_fits(k)
            },
        }
    }

    /// Checks the table. Succeeds exactly on a well-formed table; otherwise
    /// reports the first fault in the fixed order of the checks.
    pub fn validate(&self) -> (result: Result<(), ValidationError>)
        ensures
            result is Ok <==> self.well_formed(),
            match result {
                Ok(_) => true,
                Err(e) => self.first_violation(e),
            },
    {
        let n: usize = self.transitions.len();
        let width: usize = self.alphabet.len();
        let mut r: usize = 0;
        while r < n
            invariant
                n == self.transitions@.len(),
                width == self.alphabet@.len(),
                r <= n,
                forall|j: int| 0 <= j < r ==> #[trigger] self.row_fits(j),
            decreases n - r,
        {
            if self.transitions[r].len() != width {
                assert(!self.row_fits(r as int));
                return Err(
                    ValidationError::ShapeMismatch {
                        row: r + 1,
                        found: self.transitions[r].len(),
                        expected: width,
                    },
                );
            }
            assert(self.row_fits(r as int));
            r += 1;
        }
        let mut r: usize = 0;
        while r < n
            invariant
                n == self.transitions@.len(),
                width == self.alphabet@.len(),
                r <= n,
                self.rows_fit(),
                forall|j: int, c: int| 0 <= j < r && 0 <= c < width ==> #[trigger] self.cell_fits(j, c),
            decreases n - r,
        {
            let mut c: usize = 0;
            assert(self.row_fits(r as int));
            while c < width
                invariant
                    n == self.transitions@.len(),
                    width == self.alphabet@.len(),
                    r < n,
                    c <= width,
                    self.rows_fit(),
                    self.row_fits(r as int),
                    forall|j: int, k: int| 0 <= j < r && 0 <= k < width ==> #[trigger] self.cell_fits(j, k),
                    forall|k: int| 0 <= k < c ==> #[trigger] self.cell_fits(r as int, k),
                decreases width - c,
            {
                let target: usize = self.transitions[r][c];
                if target < 1 || target > n {
                    let row: usize = r + 1;
                    let column: usize = c + 1;
                    proof {
                        assert(!self.cell_fits(row - 1, column - 1));
                        assert forall|j: int, k: int|
                            0 <= j < row - 1 && 0 <= k < self.alphabet@.len() implies #[trigger] self.cell_fits(
                            j,
                            k,
                        ) by {}
                        assert forall|k: int| 0 <= k < column - 1 implies #[trigger] self.cell_fits(
                            row - 1,
                            k,
                        ) by {
                            assert(self.cell_fits(r as int, k));
                        }
                    }
                    return Err(
                        ValidationError::InvalidStateReference {
                            place: Place::Cell { row, column },
                            value: target,
                        },
                    );
                }
                assert(self.cell_fits(r as int, c as int));
                c += 1;
            }
            r += 1;
        }
        if self.start < 1 || self.start > n {
            return Err(
                ValidationError::InvalidStateReference { place: Place::Start, value: self.start },
            );
        }
        let mut k: usize = 0;
        while k < self.accept.len()
            invariant
                n == self.transitions@.len(),
                k <= self.accept@.len(),
                self.rows_fit(),
                self.cells_fit(),
                self.is_state(self.start),
                forall|j: int| 0 <= j < k ==> #[trigger] self.accept_fits(j),
            decreases self.accept@.len() - k,
        {
            let state: usize = self.accept[k];
            if state < 1 || state > n {
                assert(!self.accept_fits(k as int));
                return Err(
                    ValidationError::InvalidStateReference {
                        place: Place::Accept { position: k + 1 },
                        value: state,
                    },
                );
            }
            assert(self.accept_fits(k as int));
            k += 1;
        }
        Ok(())
    }

    /// What `check_for_errors` says of a table that is not well-formed: it
    /// names the first of the four checks that fails.
    pub open spec fn complaint(&self) -> Seq<char> {
        if !self.rows_fit() {
            "Error. Transitions are not defined for all symbols."@
        } else if !self.cells_fit() {
            "Error. A state in the transition table is not valid."@
        } else if !self.is_state(self.start) {
            "Error. The start state is not a valid state."@
        } else {
            "Error. One or more accept states are not valid states."@
        }
    }

    /// Checks the table as `validate` does and, for a table that fails,
    /// says in a fixed sentence which of the four checks failed first.
    pub fn check_for_errors(&self) -> (result: Result<(), &'static str>)
        ensures
            result is Ok <==> self.well_formed(),
            match result {
                Ok(_) => true,
                Err(message) => message@ == self.complaint(),
            },
    {
        match self.validate() {
            Ok(_) => Ok(()),
            Err(ValidationError::ShapeMismatch { row, .. }) => {
                assert(!self.row_fits(row - 1));
                Err("Error. Transitions are not defined for all symbols.")
            },
            Err(ValidationError::InvalidStateReference { place: Place::Cell { row, column }, .. }) => {
                assert(!self.cell_fits(row - 1, column - 1));
                Err("Error. A state in the transition table is not valid.")
            },
            Err(ValidationError::InvalidStateReference { place: Place::Start, .. }) => Err(
                "Error. The start state is not a valid state.",
            ),
            Err(ValidationError::InvalidStateReference { place: Place::Accept { position }, .. }) => {
                assert(!self.accept_fits(position - 1));
                Err("Error. One or more accept states are not valid states.")
            },
        }
    }

    /// Counts the states of the table.
    pub fn compute_states(&self) -> (count: usize)
        ensures
            count == self.state_count(),
    {
        self.transitions.len()
    }

    /// Whether the alphabet has a column for `symbol`.
    pub open spec fn knows(&self, symbol: char) -> bool {
        last_column(self.alphabet@, symbol) is Some
    }

    /// The state reached from `state` on `symbol`. Where the alphabet
    /// lists a symbol more than once, its last column counts.
    pub open spec fn target(&self, state: usize, symbol: char) -> usize {
        self.transitions@[state - 1]@[last_column(self.alphabet@, symbol).unwrap()]
    }

    /// The state reached after the first `k` symbols of `input`, all of
    /// them known to the alphabet.
    pub open spec fn state_after(&self, input: Seq<char>, k: int) -> usize
        decreases k,
    {
        if k <= 0 {
            self.start
        } else {
            self.target(self.state_after(input, k - 1), input[k - 1])
        }
    }

    /// The record of the transition taken on symbol `k` (from 0) of `input`.
    pub open spec fn step_at(&self, input: Seq<char>, k: int) -> Step {
        Step { from: self.state_after(input, k), symbol: input[k], to: self.state_after(input, k + 1) }
    }

    /// Whether entry `k` of `trace` records the transition on symbol `k` of
    /// `input`, a symbol that the alphabet knows.
    pub open spec fn step_taken(&self, input: Seq<char>, trace: Seq<Step>, k: int) -> bool {
        self.knows(input[k]) && trace[k] == self.step_at(input, k)
    }

    /// Whether `trace` and `verdict` are what running `input` gives: one
    /// transition per symbol up to the first symbol that the alphabet lacks,
    /// where the run halts with that symbol and the state it was read in;
    /// with every symbol read, the verdict is whether the last state accepts.
    pub open spec fn is_run(
        &self,
        input: Seq<char>,
        trace: Seq<Step>,
        verdict: Result<bool, ExecutionError>,
    ) -> bool {
        &&& trace.len() <= input.len()
        &&& forall|k: int| 0 <= k < trace.len() ==> #[trigger] self.step_taken(input, trace, k)
        &&& trace.len() == input.len() ==> verdict == Ok::<bool, ExecutionError>(
            self.accept@.contains(self.state_after(input, input.len() as int)),
        )
        &&& trace.len() < input.len() ==> !self.knows(input[trace.len() as int]) && verdict == Err::<
            bool,
            ExecutionError,
        >(
            ExecutionError::UnknownSymbol {
                symbol: input[trace.len() as int],
                state: self.state_after(input, trace.len() as int),
            },
        )
    }

    /// On a well-formed table, reading known symbols never leaves the table.
    pub proof fn state_after_is_state(&self, input: Seq<char>, k: int)
        requires
            self.well_formed(),
            0 <= k <= input.len(),
            forall|j: int| 0 <= j < k ==> self.knows(#[trigger] input[j]),
        ensures
            self.is_state(self.state_after(input, k)),
        decreases k,
    {
        if k > 0 {
            self.state_after_is_state(input, k - 1);
            let s = self.state_after(input, k - 1);
            assert(self.knows(input[k - 1]));
            last_column_upto_bounds(self.alphabet@, input[k - 1], self.alphabet@.len() as int);
            let c = last_column(self.alphabet@, input[k - 1]).unwrap();
            assert(self.row_fits(s - 1));
            assert(self.cell_fits(s - 1, c));
        }
    }

    /// Runs `input` through the table from the start state, one transition
    /// per symbol, and reports the transitions taken and the outcome.
    pub fn process(&self, input: &str) -> (run: Run)
        requires
            self.well_formed(),
        ensures
            self.is_run(input@, run.trace@, run.verdict),
    {
        let len: usize = input.unicode_len();
        let mut trace: Vec<Step> = Vec::new();
        let mut current: usize = self.start;
        let mut i: usize = 0;
        while i < len
            invariant
                self.well_formed(),
                len == input@.len(),
                i <= len,
                trace@.len() == i,
                current == self.state_after(input@, i as int),
                self.is_state(current),
                forall|k: int| 0 <= k < i ==> #[trigger] self.step_taken(input@, trace@, k),
            decreases len - i,
        {
            let symbol: char = input.get_char(i);
            match last_position(&self.alphabet, symbol) {
                None => {
                    return Run {
                        trace,
                        verdict: Err(ExecutionError::UnknownSymbol { symbol, state: current }),
                    };
                },
                Some(column) => {
                    proof {
                        assert(self.row_fits(current - 1));
                        assert(self.cell_fits(current - 1, column as int));
                    }
                    let next: usize = self.transitions[current - 1][column];
                    let ghost before = trace@;
                    trace.push(Step { from: current, symbol, to: next });
                    proof {
                        assert(next == self.state_after(input@, i + 1));
                        assert(self.step_taken(input@, trace@, i as int));
                        assert forall|k: int| 0 <= k < i implies #[trigger] self.step_taken(
                            input@,
                            trace@,
                            k,
                        ) by {
                            assert(self.step_taken(input@, before, k));
                        }
                    }
                    current = next;
                    i += 1;
                },
            }
        }
        let accepted: bool = holds_state(&self.accept, current);
        Run { trace, verdict: Ok(accepted) }
    }
}

/// A run of the empty input takes no transition and accepts exactly when
/// the start state is an accepting state.
pub proof fn empty_input_run(
    automaton: DFA,
    trace: Seq<Step>,
    verdict: Result<bool, ExecutionError>,
)
    requires
        automaton.is_run(Seq::<char>::empty(), trace, verdict),
    ensures
        trace.len() == 0,
        verdict == Ok::<bool, ExecutionError>(automaton.accept@.contains(automaton.start)),
{
}

/// Two runs of one input through one table take the same transitions, so
/// visit the same states in the same order, and end alike.
pub proof fn runs_agree(
    automaton: DFA,
    input: Seq<char>,
    first_trace: Seq<Step>,
    first_verdict: Result<bool, ExecutionError>,
    second_trace: Seq<Step>,
    second_verdict: Result<bool, ExecutionError>,
)
    requires
        automaton.is_run(input, first_trace, first_verdict),
        automaton.is_run(input, second_trace, second_verdict),
    ensures
        first_trace == second_trace,
        first_verdict == second_verdict,
{
    if first_trace.len() < second_trace.len() {
        assert(automaton.step_taken(input, second_trace, first_trace.len() as int));
    }
    if second_trace.len() < first_trace.len() {
        assert(automaton.step_taken(input, first_trace, second_trace.len() as int));
    }
    assert forall|k: int| 0 <= k < first_trace.len() implies first_trace[k] == second_trace[k] by {
        assert(automaton.step_taken(input, first_trace, k));
        assert(automaton.step_taken(input, second_trace, k));
    }
    assert(first_trace =~= second_trace);
}

/// A table has at most one first fault: whatever the check reports for
/// it, it reports every time.
pub proof fn first_violation_is_unique(automaton: DFA, one: ValidationError, other: ValidationError)
    requires
        automaton.first_violation(one),
        automaton.first_violation(other),
    ensures
        one == other,
{
    match (one, other) {
        (
            ValidationError::ShapeMismatch { row: r1, .. },
            ValidationError::ShapeMismatch { row: r2, .. },
        ) => {
            if r1 < r2 {
                assert(automaton.row_fits(r1 - 1));
            }
            if r2 < r1 {
                assert(automaton.row_fits(r2 - 1));
            }
        },
        (ValidationError::ShapeMismatch { row, .. }, _) => {
            assert(automaton.row_fits(row - 1));
        },
        (_, ValidationError::ShapeMismatch { row, .. }) => {
            assert(automaton.row_fits(row - 1));
        },
        (
            ValidationError::InvalidStateReference { place: Place::Cell { row: r1, column: c1 }, .. },
            ValidationError::InvalidStateReference { place: Place::Cell { row: r2, column: c2 }, .. },
        ) => {
            if r1 < r2 || (r1 == r2 && c1 < c2) {
                assert(automaton.cell_fits(r1 - 1, c1 - 1));
            }
            if r2 < r1 || (r1 == r2 && c2 < c1) {
                assert(automaton.cell_fits(r2 - 1, c2 - 1));
            }
        },
        (ValidationError::InvalidStateReference { place: Place::Cell { row, column }, .. }, _) => {
            assert(automaton.cell_fits(row - 1, column - 1));
        },
        (_, ValidationError::InvalidStateReference { place: Place::Cell { row, column }, .. }) => {
            assert(automaton.cell_fits(row - 1, column - 1));
        },
        (
            ValidationError::InvalidStateReference { place: Place::Accept { position: left }, .. },
            ValidationError::InvalidStateReference { place: Place::Accept { position: right }, .. },
        ) => {
            if left < right {
                assert(automaton.accept_fits(left - 1));
            }
            if right < left {
                assert(automaton.accept_fits(right - 1));
            }
        },
        _ => {},
    }
}

} // verus!
