//! The stack automaton: a table whose cells also name a symbol to pop and
//! a symbol to push, and a run that follows one fixed discipline: enter,
//! read the first half, turn, read the second half, leave.

use vstd::prelude::*;
use crate::error::{ExecutionError, Missing, Place, ValidationError};
use crate::symbols::{first_column, holds_state, pivot_column, BOTTOM, EPSILON};

verus! {

/// One cell of a stack automaton's table.
#[derive(Debug, Clone, Copy, PartialEq, Eq)]
pub struct PDA {
    /// The state to go to.
    pub state: usize,
    /// The symbol to take off the stack; epsilon for none.
    pub pop: char,
    /// The symbol to put on the stack; epsilon for none.
    pub push: char,
}

/// A stack automaton as it is defined: states are the rows of
/// `transitions`, numbered from 1; the columns follow `alphabet`.
#[derive(Debug)]
pub struct DFA {
    /// The symbols, in column order.
    pub alphabet: Vec<char>,
    /// The state in which every run begins.
    pub start: usize,
    /// The accepting states.
    pub accept: Vec<usize>,
    /// For each state and each column, the transition to take.
    pub transitions: Vec<Vec<PDA>>,
}

impl DFA {
    /// The number of states.
    pub open spec fn state_count(&self) -> int {
        self.transitions@.len() as int
    }

    /// Whether `state` names a row of the table.
    pub open spec fn is_state(&self, state: usize) -> bool {
        1 <= state <= self.transitions@.len()
    }

    /// Whether row `r` (from 0) has one cell per symbol.
    pub open spec fn row_fits(&self, r: int) -> bool {
        self.transitions@[r]@.len() == self.alphabet@.len()
    }

    /// Whether the cell in row `r`, column `c` (both from 0) leads to a state.
    pub open spec fn cell_fits(&self, r: int, c: int) -> bool {
        self.is_state(self.transitions@[r]@[c].state)
    }

    /// Whether entry `k` (from 0) of the accepting states names a state.
    pub open spec fn accept_fits(&self, k: int) -> bool {
        self.is_state(self.accept@[k])
    }

    /// Every row has one cell per symbol.
    pub open spec fn rows_fit(&self) -> bool {
        forall|r: int| 0 <= r < self.state_count() ==> #[trigger] self.row_fits(r)
    }

    /// Every cell leads to a state.
    pub open spec fn cells_fit(&self) -> bool {
        forall|r: int, c: int|
            0 <= r < self.state_count() && 0 <= c < self.alphabet@.len() ==> #[trigger] self.cell_fits(r, c)
    }

    /// The table can be run: the rows have the alphabet's length, and every
    /// cell, the start state and every accepting state name a row.
    pub open spec fn well_formed(&self) -> bool {
        &&& self.rows_fit()
        &&& self.cells_fit()
        &&& self.is_state(self.start)
        &&& forall|k: int| 0 <= k < self.accept@.len() ==> #[trigger] self.accept_fits(k)
    }

    /// Whether `e` is the fault that a check in the fixed order meets first:
    /// row lengths from the first row down, then cells row by row and left
    /// to right, then the start state, then the accepting states in order.
    pub open spec fn first_violation(&self, e: ValidationError) -> bool {
        match e {
            ValidationError::ShapeMismatch { row, found, expected } => {
                &&& 1 <= row <= self.state_count()
                &&& !self.row_fits(row - 1)
                &&& found == self.transitions@[row - 1]@.len()
                &&& expected == self.alphabet@.len()
                &&& forall|r: int| 0 <= r < row - 1 ==> #[trigger] self.row_fits(r)
            },
            ValidationError::InvalidStateReference { place: Place::Cell { row, column }, value } => {
                &&& self.rows_fit()
                &&& 1 <= row <= self.state_count()
                &&& 1 <= column <= self.alphabet@.len()
                &&& !self.cell_fits(row - 1, column - 1)
                &&& value == self.transitions@[row - 1]@[column - 1].state
                &&& forall|r: int, c: int|
                    0 <= r < row - 1 && 0 <= c < self.alphabet@.len() ==> #[trigger] self.cell_fits(r, c)
                &&& forall|c: int| 0 <= c < column - 1 ==> #[trigger] self.cell_fits(row - 1, c)
            },
            ValidationError::InvalidStateReference { place: Place::Start, value } => {
                &&& self.rows_fit()
                &&& self.cells_fit()
                &&& !self.is_state(self.start)
                &&& value == self.start
            },
            ValidationError::InvalidStateReference { place: Place::Accept { position }, value } => {
                &&& self.rows_fit()
                &&& self.cells_fit()
                &&& self.is_state(self.start)
                &&& 1 <= position <= self.accept@.len()
                &&& !self.accept_fits(position - 1)
                &&& value == self.accept@[position - 1]
                &&& forall|k: int| 0 <= k < position - 1 ==> #[trigger] self.accept_fits(k)
            },
        }
    }

    /// Checks the table. Succeeds exactly on a well-formed table; otherwise
    /// reports the first fault in the fixed order of the checks.
    pub fn validate(&self) -> (result: Result<(), ValidationError>)
        ensures
            result is Ok <==> self.well_formed(),
            match result {
                Ok(_) => true,
                Err(e) => self.first_violation(e),
            },
    {
        let n: usize = self.transitions.len();
        let width: usize = self.alphabet.len();
        let mut r: usize = 0;
        while r < n
            invariant
                n == self.transitions@.len(),
                width == self.alphabet@.len(),
                r <= n,
                forall|j: int| 0 <= j < r ==> #[trigger] self.row_fits(j),
            decreases n - r,
        {
            if self.transitions[r].len() != width {
                assert(!self.row_fits(r as int));
                return Err(
                    ValidationError::ShapeMismatch {
                        row: r + 1,
                        found: self.transitions[r].len(),
                        expected: width,
                    },
                );
            }
            assert(self.row_fits(r as int));
            r += 1;
        }
        let mut r: usize = 0;
        while r < n
            invariant
                n == self.transitions@.len(),
                width == self.alphabet@.len(),
                r <= n,
                self.rows_fit(),
                forall|j: int, c: int| 0 <= j < r && 0 <= c < width ==> #[trigger] self.cell_fits(j, c),
            decreases n - r,
        {
            let mut c: usize = 0;
            assert(self.row_fits(r as int));
            while c < width
                invariant
                    n == self.transitions@.len(),
                    width == self.alphabet@.len(),
                    r < n,
                    c <= width,
                    self.rows_fit(),
                    self.row_fits(r as int),
                    forall|j: int, k: int| 0 <= j < r && 0 <= k < width ==> #[trigger] self.cell_fits(j, k),
                    forall|k: int| 0 <= k < c ==> #[trigger] self.cell_fits(r as int, k),
                decreases width - c,
            {
                let target: usize = self.transitions[r][c].state;
                if target < 1 || target > n {
                    let row: usize = r + 1;
                    let column: usize = c + 1;
                    proof {
                        assert(!self.cell_fits(row - 1, column - 1));
                        assert forall|k: int| 0 <= k < column - 1 implies #[trigger] self.cell_fits(
                            row - 1,
                            k,
                        ) by {
                            assert(self.cell_fits(r as int, k));
                        }
                    }
                    return Err(
                        ValidationError::InvalidStateReference {
                            place: Place::Cell { row, column },
                            value: target,
                        },
                    );
                }
                assert(self.cell_fits(r as int, c as int));
                c += 1;
            }
            r += 1;
        }
        if self.start < 1 || self.start > n {
            return Err(
                ValidationError::InvalidStateReference { place: Place::Start, value: self.start },
            );
        }
        let mut k: usize = 0;
        while k < self.accept.len()
            invariant
                n == self.transitions@.len(),
                k <= self.accept@.len(),
                self.rows_fit(),
                self.cells_fit(),
                self.is_state(self.start),
                forall|j: int| 0 <= j < k ==> #[trigger] self.accept_fits(j),
            decreases self.accept@.len() - k,
        {
            let state: usize = self.accept[k];
            if state < 1 || state > n {
                assert(!self.accept_fits(k as int));
                return Err(
                    ValidationError::InvalidStateReference {
                        place: Place::Accept { position: k + 1 },
                        value: state,
                    },
                );
            }
            assert(self.accept_fits(k as int));
            k += 1;
        }
        Ok(())
    }
}

/// One state of the graph: whether it accepts, and its transitions by
/// column, with target states counted from 0.
#[derive(Debug)]
pub struct State {
    pub accept_state: bool,
    pub transitions: Vec<PDA>,
}

/// A stack automaton laid out state by state, with states counted from 0.
#[derive(Debug)]
pub struct StateGraph {
    /// The symbols, in column order.
    pub alphabet: Vec<char>,
    /// The state in which every run begins.
    pub start_state: usize,
    /// The states.
    pub states: Vec<State>,
}

/// One move of the discipline.
#[derive(Debug, Clone, Copy, PartialEq, Eq)]
pub enum Move {
    /// Put the bottom marker on the stack and take the epsilon transition.
    Enter,
    /// Read the input symbol at `index` (from 0).
    Read { index: usize },
    /// Take the pivot column's transition, before the middle symbol of an
    /// input of odd length is read.
    Pivot,
    /// Take the epsilon transition that ends the first half.
    Turn,
    /// Take the bottom marker off the stack and the epsilon transition.
    Leave,
}

/// A state and a stack, between two moves. The state counts from 0; the
/// top of the stack is its last symbol.
pub struct Config {
    pub state: usize,
    pub stack: Seq<char>,
}

/// One transition taken during a run. States count from 1; `stack` is
/// the stack after the transition, its top last.
#[derive(Debug)]
pub struct Step {
    pub kind: Move,
    pub from: usize,
    pub symbol: char,
    pub to: usize,
    pub stack: Vec<char>,
}

/// A transition record as plain values.
pub struct StepView {
    pub kind: Move,
    pub from: usize,
    pub symbol: char,
    pub to: usize,
    pub stack: Seq<char>,
}

impl View for Step {
    type V = StepView;

    open spec fn view(&self) -> StepView {
        StepView {
            kind: self.kind,
            from: self.from,
            symbol: self.symbol,
            to: self.to,
            stack: self.stack@,
        }
    }
}

/// The records of a trace as plain values.
pub open spec fn trace_view(trace: Seq<Step>) -> Seq<StepView> {
    Seq::new(trace.len(), |k: int| trace[k]@)
}

/// What a run leaves behind: the transitions it took, in order, and either
/// the verdict (`true` for accept) or the reason it halted.
#[derive(Debug)]
pub struct Run {
    pub trace: Vec<Step>,
    pub verdict: Result<bool, ExecutionError>,
}

/// The top of a stack, if it has one.
pub open spec fn top(stack: Seq<char>) -> Option<char> {
    if stack.len() == 0 {
        None
    } else {
        Some(stack.last())
    }
}

/// How many moves the discipline makes on an input of `len` symbols, with
/// `len` at least 1: enter, one per symbol, the pivot where `len` is odd,
/// turn, leave.
pub open spec fn plan_len(len: int) -> int {
    if len % 2 == 1 {
        len + 4
    } else {
        len + 3
    }
}

/// Move `k` (from 0) of the discipline on an input of `len` symbols.
pub open spec fn move_at(len: int, k: int) -> Move {
    let mid = len / 2;
    let extra: int = if len % 2 == 1 {
        1
    } else {
        0
    };
    if k <= 0 {
        Move::Enter
    } else if k <= mid {
        Move::Read { index: (k - 1) as usize }
    } else if k == mid + 1 && extra == 1 {
        Move::Pivot
    } else if k == mid + 1 + extra {
        Move::Turn
    } else if k < len + 2 + extra {
        Move::Read { index: (k - 2 - extra) as usize }
    } else {
        Move::Leave
    }
}

/// The symbol that the record of a move shows.
pub open spec fn symbol_of(input: Seq<char>, kind: Move) -> char {
    match kind {
        Move::Read { index } => input[index as int],
        Move::Pivot => input[(input.len() / 2) as int],
        _ => EPSILON,
    }
}

impl StateGraph {
    /// The graph can be run: the start state is a state, every state has
    /// one transition per symbol, and every transition leads to a state.
    pub open spec fn well_formed(&self) -> bool {
        &&& self.start_state < self.states@.len()
        &&& forall|r: int|
            0 <= r < self.states@.len() ==> (#[trigger] self.states@[r]).transitions@.len()
                == self.alphabet@.len()
        &&& forall|r: int, c: int|
            0 <= r < self.states@.len() && 0 <= c < self.alphabet@.len() ==> (
            #[trigger] self.states@[r].transitions@[c]).state < self.states@.len()
    }

    /// Whether the graph is the table of `automaton`, with states counted
    /// from 0 and each state flagged as the accepting list says.
    pub open spec fn mirrors(&self, automaton: &DFA) -> bool {
        &&& self.alphabet@ == automaton.alphabet@
        &&& self.start_state == automaton.start - 1
        &&& self.states@.len() == automaton.transitions@.len()
        &&& forall|r: int|
            0 <= r < self.states@.len() ==> {
                &&& (#[trigger] self.states@[r]).accept_state == automaton.accept@.contains(
                    (r + 1) as usize,
                )
                &&& self.states@[r].transitions@.len() == automaton.alphabet@.len()
            }
        &&& forall|r: int, c: int|
            0 <= r < self.states@.len() && 0 <= c < self.alphabet@.len() ==> (
            #[trigger] self.states@[r].transitions@[c]) == (PDA {
                state: (automaton.transitions@[r]@[c].state - 1) as usize,
                pop: automaton.transitions@[r]@[c].pop,
                push: automaton.transitions@[r]@[c].push,
            })
    }

    /// Lays a checked table out as a graph of states counted from 0.
    pub fn new_from_dfa(dfa: &DFA) -> (graph: StateGraph)
        requires
            dfa.well_formed(),
        ensures
            graph.mirrors(dfa),
            graph.well_formed(),
    {
        let mut states: Vec<State> = Vec::new();
        let width: usize = dfa.alphabet.len();
        let mut r: usize = 0;
        while r < dfa.transitions.len()
            invariant
                dfa.well_formed(),
                width == dfa.alphabet@.len(),
                r <= dfa.transitions@.len(),
                states@.len() == r,
                forall|j: int|
                    0 <= j < r ==> {
                        &&& (#[trigger] states@[j]).accept_state == dfa.accept@.contains(
                            (j + 1) as usize,
                        )
                        &&& states@[j].transitions@.len() == width
                    },
                forall|j: int, c: int|
                    0 <= j < r && 0 <= c < width ==> (#[trigger] states@[j].transitions@[c]) == (PDA {
                        state: (dfa.transitions@[j]@[c].state - 1) as usize,
                        pop: dfa.transitions@[j]@[c].pop,
                        push: dfa.transitions@[j]@[c].push,
                    }),
            decreases dfa.transitions@.len() - r,
        {
            let mut cells: Vec<PDA> = Vec::new();
            let mut c: usize = 0;
            assert(dfa.row_fits(r as int));
            while c < width
                invariant
                    dfa.well_formed(),
                    dfa.row_fits(r as int),
                    width == dfa.alphabet@.len(),
                    r < dfa.transitions@.len(),
                    c <= width,
                    cells@.len() == c,
                    forall|k: int|
                        0 <= k < c ==> (#[trigger] cells@[k]) == (PDA {
                            state: (dfa.transitions@[r as int]@[k].state - 1) as usize,
                            pop: dfa.transitions@[r as int]@[k].pop,
                            push: dfa.transitions@[r as int]@[k].push,
                        }),
                decreases width - c,
            {
                assert(dfa.cell_fits(r as int, c as int));
                let cell: PDA = dfa.transitions[r][c];
                cells.push(PDA { state: cell.state - 1, pop: cell.pop, push: cell.push });
                c += 1;
            }
            let accept_state: bool = holds_state(&dfa.accept, r + 1);
            states.push(State { accept_state, transitions: cells });
            r += 1;
        }
        let graph = StateGraph {
            alphabet: dfa.alphabet.clone(),
            start_state: dfa.start - 1,
            states,
        };
        proof {
            assert(graph.alphabet@ =~= dfa.alphabet@);
            assert forall|j: int, c: int|
                0 <= j < graph.states@.len() && 0 <= c < graph.alphabet@.len() implies (
            #[trigger] graph.states@[j].transitions@[c]).state < graph.states@.len() by {
                assert(dfa.cell_fits(j, c));
            }
        }
        graph
    }

    /// The column of the epsilon symbol.
    pub open spec fn epsilon_column(&self) -> int {
        first_column(self.alphabet@, EPSILON).unwrap()
    }

    /// The transition in `column` taken from `cfg`: where the cell names a
    /// symbol to pop, it must be the top of the stack and is taken off;
    /// where it names a symbol to push, that is put on; the state becomes
    /// the cell's target.
    pub open spec fn apply(&self, cfg: Config, column: int) -> Result<Config, ExecutionError> {
        let cell = self.states@[cfg.state as int].transitions@[column];
        if cell.pop != EPSILON && top(cfg.stack) != Some(cell.pop) {
            Err(ExecutionError::StackMismatch { expected: cell.pop, found: top(cfg.stack) })
        } else {
            let popped = if cell.pop != EPSILON {
                cfg.stack.drop_last()
            } else {
                cfg.stack
            };
            let pushed = if cell.push != EPSILON {
                popped.push(cell.push)
            } else {
                popped
            };
            Ok(Config { state: cell.state, stack: pushed })
        }
    }

    /// The state that the epsilon transition leads to from `state`.
    pub open spec fn glide(&self, state: usize) -> usize {
        self.states@[state as int].transitions@[self.epsilon_column()].state
    }

    /// One move taken from `cfg`.
    pub open spec fn step(&self, input: Seq<char>, cfg: Config, kind: Move) -> Result<
        Config,
        ExecutionError,
    > {
        match kind {
            Move::Enter => Ok(
                Config { state: self.glide(cfg.state), stack: cfg.stack.push(BOTTOM) },
            ),
            Move::Read { index } => match first_column(self.alphabet@, input[index as int]) {
                Some(column) => self.apply(cfg, column),
                None => Err(
                    ExecutionError::UnknownSymbol {
                        symbol: input[index as int],
                        state: (cfg.state + 1) as usize,
                    },
                ),
            },
            Move::Pivot => match pivot_column(self.alphabet@) {
                Some(column) => self.apply(cfg, column),
                None => Err(ExecutionError::ConfigurationError { missing: Missing::Pivot }),
            },
            Move::Turn => Ok(Config { state: self.glide(cfg.state), stack: cfg.stack }),
            Move::Leave => if top(cfg.stack) == Some(BOTTOM) {
                Ok(Config { state: self.glide(cfg.state), stack: cfg.stack.drop_last() })
            } else {
                Err(ExecutionError::StackMismatch { expected: BOTTOM, found: top(cfg.stack) })
            },
        }
    }

    /// The state and stack after the first `k` moves on `input`, or the
    /// fault that one of them met.
    pub open spec fn config_after(&self, input: Seq<char>, k: int) -> Result<Config, ExecutionError>
        decreases k,
    {
        if k <= 0 {
            Ok(Config { state: self.start_state, stack: Seq::empty() })
        } else {
            match self.config_after(input, k - 1) {
                Ok(cfg) => self.step(input, cfg, move_at(input.len() as int, k - 1)),
                Err(e) => Err(e),
            }
        }
    }

    /// The record of move `k` (from 0) on `input`, a move that met no fault.
    pub open spec fn record(&self, input: Seq<char>, k: int) -> StepView {
        let kind = move_at(input.len() as int, k);
        let before = self.config_after(input, k).unwrap();
        let after = self.config_after(input, k + 1).unwrap();
        StepView {
            kind,
            from: (before.state + 1) as usize,
            symbol: symbol_of(input, kind),
            to: (after.state + 1) as usize,
            stack: after.stack,
        }
    }

    /// Whether move `k` on `input` met no fault and entry `k` of `trace`
    /// is its record.
    pub open spec fn move_taken(&self, input: Seq<char>, trace: Seq<StepView>, k: int) -> bool {
        self.config_after(input, k + 1) is Ok && trace[k] == self.record(input, k)
    }

    /// Whether `trace` and `verdict` are what running `input` gives.
    /// Without an epsilon column nothing is done. The empty input takes no
    /// move and is judged by the start state. Any other input is taken
    /// through the moves of the discipline up to the first fault; with
    /// every move taken, the verdict is whether the last state accepts.
    pub open spec fn is_run(
        &self,
        input: Seq<char>,
        trace: Seq<StepView>,
        verdict: Result<bool, ExecutionError>,
    ) -> bool {
        if first_column(self.alphabet@, EPSILON) is None {
            trace.len() == 0 && verdict == Err::<bool, ExecutionError>(
                ExecutionError::ConfigurationError { missing: Missing::Epsilon },
            )
        } else if input.len() == 0 {
            trace.len() == 0 && verdict == Ok::<bool, ExecutionError>(
                self.states@[self.start_state as int].accept_state,
            )
        } else {
            let moves = plan_len(input.len() as int);
            &&& trace.len() <= moves
            &&& forall|k: int| 0 <= k < trace.len() ==> #[trigger] self.move_taken(input, trace, k)
            &&& trace.len() == moves ==> verdict == Ok::<bool, ExecutionError>(
                self.states@[self.config_after(input, moves).unwrap().state as int].accept_state,
            )
            &&& trace.len() < moves ==> match self.config_after(input, (trace.len() + 1) as int) {
                Ok(_) => false,
                Err(e) => verdict == Err::<bool, ExecutionError>(e),
            }
        }
    }
}

/// A table has at most one first fault: whatever the check reports for
/// it, it reports every time.
pub proof fn first_violation_is_unique(automaton: DFA, one: ValidationError, other: ValidationError)
    requires
        automaton.first_violation(one),
        automaton.first_violation(other),
    ensures
        one == other,
{
    match (one, other) {
        (
            ValidationError::ShapeMismatch { row: r1, .. },
            ValidationError::ShapeMismatch { row: r2, .. },
        ) => {
            if r1 < r2 {
                assert(automaton.row_fits(r1 - 1));
            }
            if r2 < r1 {
                assert(automaton.row_fits(r2 - 1));
            }
        },
        (ValidationError::ShapeMismatch { row, .. }, _) => {
            assert(automaton.row_fits(row - 1));
        },
        (_, ValidationError::ShapeMismatch { row, .. }) => {
            assert(automaton.row_fits(row - 1));
        },
        (
            ValidationError::InvalidStateReference { place: Place::Cell { row: r1, column: c1 }, .. },
            ValidationError::InvalidStateReference { place: Place::Cell { row: r2, column: c2 }, .. },
        ) => {
            if r1 < r2 || (r1 == r2 && c1 < c2) {
                assert(automaton.cell_fits(r1 - 1, c1 - 1));
            }
            if r2 < r1 || (r1 == r2 && c2 < c1) {
                assert(automaton.cell_fits(r2 - 1, c2 - 1));
            }
        },
        (ValidationError::InvalidStateReference { place: Place::Cell { row, column }, .. }, _) => {
            assert(automaton.cell_fits(row - 1, column - 1));
        },
        (_, ValidationError::InvalidStateReference { place: Place::Cell { row, column }, .. }) => {
            assert(automaton.cell_fits(row - 1, column - 1));
        },
        (
            ValidationError::InvalidStateReference { place: Place::Accept { position: left }, .. },
            ValidationError::InvalidStateReference { place: Place::Accept { position: right }, .. },
        ) => {
            if left < right {
                assert(automaton.accept_fits(left - 1));
            }
            if right < left {
                assert(automaton.accept_fits(right - 1));
            }
        },
        _ => {},
    }
}

} // verus!
