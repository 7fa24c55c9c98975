//! A deterministic automaton laid out state by state, and a run through it
//! in which the wildcard column stands in for word symbols that the
//! alphabet does not list.

use vstd::prelude::*;
use crate::dfa::{Run, Step, DFA};
use crate::error::ExecutionError;
use crate::symbols::{first_column, holds_state, position, WILDCARD};

verus! {

/// One state of the graph: whether it accepts, and its target states by
/// column, counted from 0.
#[derive(Debug)]
pub struct State {
    pub accept_state: bool,
    pub transitions: Vec<usize>,
}

/// A deterministic automaton with its states counted from 0.
#[derive(Debug)]
pub struct StateGraph {
    /// The symbols, in column order.
    pub alphabet: Vec<char>,
    /// The state in which every run begins.
    pub start_state: usize,
    /// The states.
    pub states: Vec<State>,
}

/// Whether the wildcard may stand in for `c`: a lower-case letter, a
/// digit or a blank.
pub open spec fn is_word_symbol(c: char) -> bool {
    ('a' <= c && c <= 'z') || ('0' <= c && c <= '9') || c == ' '
}

/// The column that `symbol` is read in: its own first column; without
/// one, the first wildcard column if `symbol` is a word symbol.
pub open spec fn column_for(alphabet: Seq<char>, symbol: char) -> Option<int> {
    match first_column(alphabet, symbol) {
        Some(column) => Some(column),
        None => if is_word_symbol(symbol) {
            first_column(alphabet, WILDCARD)
        } else {
            None
        },
    }
}

/// Finds the column that `symbol` is read in.
pub fn find_column(alphabet: &Vec<char>, symbol: char) -> (found: Option<usize>)
    ensures
        match found {
            Some(c) => column_for(alphabet@, symbol) == Some(c as int) && c < alphabet@.len(),
            None => column_for(alphabet@, symbol) is None,
        },
{
    match position(alphabet, symbol) {
        Some(column) => Some(column),
        None => {
            let word: bool = ('a' <= symbol && symbol <= 'z') || ('0' <= symbol && symbol <= '9')
                || symbol == ' ';
            if word {
                position(alphabet, WILDCARD)
            } else {
                None
            }
        },
    }
}

impl StateGraph {
    /// The graph can be run: the start state is a state, every state has
    /// one target per symbol, and every target is a state.
    pub open spec fn well_formed(&self) -> bool {
        &&& self.start_state < self.states@.len()
        &&& forall|r: int|
            0 <= r < self.states@.len() ==> (#[trigger] self.states@[r]).transitions@.len()
                == self.alphabet@.len()
        &&& forall|r: int, c: int|
            0 <= r < self.states@.len() && 0 <= c < self.alphabet@.len() ==> (
            #[trigger] self.states@[r].transitions@[c]) < self.states@.len()
    }

    /// Whether the graph is the table of `automaton`, with states counted
    /// from 0 and each state flagged as the accepting list says.
    pub open spec fn mirrors(&self, automaton: &DFA) -> bool {
        &&& self.alphabet@ == automaton.alphabet@
        &&& self.start_state == automaton.start - 1
        &&& self.states@.len() == automaton.transitions@.len()
        &&& forall|r: int|
            0 <= r < self.states@.len() ==> {
                &&& (#[trigger] self.states@[r]).accept_state == automaton.accept@.contains(
                    (r + 1) as usize,
                )
                &&& self.states@[r].transitions@.len() == automaton.alphabet@.len()
            }
        &&& forall|r: int, c: int|
            0 <= r < self.states@.len() && 0 <= c < self.alphabet@.len() ==> (
            #[trigger] self.states@[r].transitions@[c]) == automaton.transitions@[r]@[c] - 1
    }

    /// Lays a checked table out as a graph of states counted from 0.
    pub fn new_from_dfa(dfa: &DFA) -> (graph: StateGraph)
        requires
            dfa.well_formed(),
        ensures
            graph.mirrors(dfa),
            graph.well_formed(),
    {
        let mut states: Vec<State> = Vec::new();
        let width: usize = dfa.alphabet.len();
        let mut r: usize = 0;
        while r < dfa.transitions.len()
            invariant
                dfa.well_formed(),
                width == dfa.alphabet@.len(),
                r <= dfa.transitions@.len(),
                states@.len() == r,
                forall|j: int|
                    0 <= j < r ==> {
                        &&& (#[trigger] states@[j]).accept_state == dfa.accept@.contains(
                            (j + 1) as usize,
                        )
                        &&& states@[j].transitions@.len() == width
                    },
                forall|j: int, c: int|
                    0 <= j < r && 0 <= c < width ==> (#[trigger] states@[j].transitions@[c])
                        == dfa.transitions@[j]@[c] - 1,
            decreases dfa.transitions@.len() - r,
        {
            let mut targets: Vec<usize> = Vec::new();
            let mut c: usize = 0;
            assert(dfa.row_fits(r as int));
            while c < width
                invariant
                    dfa.well_formed(),
                    dfa.row_fits(r as int),
                    width == dfa.alphabet@.len(),
                    r < dfa.transitions@.len(),
                    c <= width,
                    targets@.len() == c,
                    forall|k: int|
                        0 <= k < c ==> (#[trigger] targets@[k]) == dfa.transitions@[r as int]@[k] - 1,
                decreases width - c,
            {
                assert(dfa.cell_fits(r as int, c as int));
                targets.push(dfa.transitions[r][c] - 1);
                c += 1;
            }
            let accept_state: bool = holds_state(&dfa.accept, r + 1);
            states.push(State { accept_state, transitions: targets });
            r += 1;
        }
        let graph = StateGraph {
            alphabet: dfa.alphabet.clone(),
            start_state: dfa.start - 1,
            states,
        };
        proof {
            assert(graph.alphabet@ =~= dfa.alphabet@);
            assert forall|j: int, c: int|
                0 <= j < graph.states@.len() && 0 <= c < graph.alphabet@.len() implies (
            #[trigger] graph.states@[j].transitions@[c]) < graph.states@.len() by {
                assert(dfa.cell_fits(j, c));
            }
        }
        graph
    }

    /// Whether `symbol` has a column to be read in.
    pub open spec fn reads(&self, symbol: char) -> bool {
        column_for(self.alphabet@, symbol) is Some
    }

    /// The state (from 0) after the first `k` symbols of `input`, each of
    /// which has a column.
    pub open spec fn state_after(&self, input: Seq<char>, k: int) -> usize
        decreases k,
    {
        if k <= 0 {
            self.start_state
        } else {
            self.states@[self.state_after(input, k - 1) as int].transitions@[column_for(
                self.alphabet@,
                input[k - 1],
            ).unwrap()]
        }
    }

    /// The record of the transition on symbol `k` (from 0) of `input`,
    /// with its states counted from 1.
    pub open spec fn step_at(&self, input: Seq<char>, k: int) -> Step {
        Step {
            from: (self.state_after(input, k) + 1) as usize,
            symbol: input[k],
            to: (self.state_after(input, k + 1) + 1) as usize,
        }
    }

    /// Whether entry `k` of `trace` records the transition on symbol `k`
    /// of `input`, a symbol that has a column.
    pub open spec fn step_taken(&self, input: Seq<char>, trace: Seq<Step>, k: int) -> bool {
        self.reads(input[k]) && trace[k] == self.step_at(input, k)
    }

    /// Whether `trace` and `verdict` are what running `input` gives: one
    /// transition per symbol up to the first symbol without a column, where
    /// the run halts with that symbol and the state it was read in; with
    /// every symbol read, the verdict is the last state's flag.
    pub open spec fn is_run(
        &self,
        input: Seq<char>,
        trace: Seq<Step>,
        verdict: Result<bool, ExecutionError>,
    ) -> bool {
        &&& trace.len() <= input.len()
        &&& forall|k: int| 0 <= k < trace.len() ==> #[trigger] self.step_taken(input, trace, k)
        &&& trace.len() == input.len() ==> verdict == Ok::<bool, ExecutionError>(
            self.states@[self.state_after(input, input.len() as int) as int].accept_state,
        )
        &&& trace.len() < input.len() ==> !self.reads(input[trace.len() as int]) && verdict == Err::<
            bool,
            ExecutionError,
        >(
            ExecutionError::UnknownSymbol {
                symbol: input[trace.len() as int],
                state: (self.state_after(input, trace.len() as int) + 1) as usize,
            },
        )
    }

    /// Runs `sentence` through the graph from the start state, one
    /// transition per symbol, and reports the transitions taken and the
    /// outcome.
    pub fn test_sentence(&self, sentence: &str) -> (run: Run)
        requires
            self.well_formed(),
        ensures
            self.is_run(sentence@, run.trace@, run.verdict),
    {
        let len: usize = sentence.unicode_len();
        let count: usize = self.states.len();
        let mut trace: Vec<Step> = Vec::new();
        let mut state: usize = self.start_state;
        let mut i: usize = 0;
        while i < len
            invariant
                self.well_formed(),
                len == sentence@.len(),
                count == self.states@.len(),
                i <= len,
                trace@.len() == i,
                state == self.state_after(sentence@, i as int),
                state < count,
                forall|k: int| 0 <= k < i ==> #[trigger] self.step_taken(sentence@, trace@, k),
            decreases len - i,
        {
            let symbol: char = sentence.get_char(i);
            match find_column(&self.alphabet, symbol) {
                None => {
                    return Run {
                        trace,
                        verdict: Err(ExecutionError::UnknownSymbol { symbol, state: state + 1 }),
                    };
                },
                Some(column) => {
                    let next: usize = self.states[state].transitions[column];
                    let ghost before = trace@;
                    trace.push(Step { from: state + 1, symbol, to: next + 1 });
                    proof {
                        assert(next == self.state_after(sentence@, i + 1));
                        assert(self.step_taken(sentence@, trace@, i as int));
                        assert forall|k: int| 0 <= k < i implies #[trigger] self.step_taken(
                            sentence@,
                            trace@,
                            k,
                        ) by {
                            assert(self.step_taken(sentence@, before, k));
                        }
                    }
                    state = next;
                    i += 1;
                },
            }
        }
        Run { trace, verdict: Ok(self.states[state].accept_state) }
    }
}

/// A run of the empty sentence takes no transition and is judged by the
/// start state's flag.
pub proof fn empty_sentence_run(
    graph: StateGraph,
    trace: Seq<Step>,
    verdict: Result<bool, ExecutionError>,
)
    requires
        graph.is_run(Seq::<char>::empty(), trace, verdict),
    ensures
        trace.len() == 0,
        verdict == Ok::<bool, ExecutionError>(graph.states@[graph.start_state as int].accept_state),
{
}

/// Two runs of one sentence through one graph take the same transitions
/// and end alike.
pub proof fn runs_agree(
    graph: StateGraph,
    input: Seq<char>,
    first_trace: Seq<Step>,
    first_verdict: Result<bool, ExecutionError>,
    second_trace: Seq<Step>,
    second_verdict: Result<bool, ExecutionError>,
)
    requires
        graph.is_run(input, first_trace, first_verdict),
        graph.is_run(input, second_trace, second_verdict),
    ensures
        first_trace == second_trace,
        first_verdict == second_verdict,
{
    if first_trace.len() < second_trace.len() {
        assert(graph.step_taken(input, second_trace, first_trace.len() as int));
    }
    if second_trace.len() < first_trace.len() {
        assert(graph.step_taken(input, first_trace, second_trace.len() as int));
    }
    assert forall|k: int| 0 <= k < first_trace.len() implies first_trace[k] == second_trace[k] by {
        assert(graph.step_taken(input, first_trace, k));
        assert(graph.step_taken(input, second_trace, k));
    }
    assert(first_trace =~= second_trace);
}

} // verus!
