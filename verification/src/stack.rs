//! Running an input through a stack automaton.

use vstd::prelude::*;
use crate::error::{ExecutionError, Missing};
use crate::pda::{
    move_at, plan_len, top, trace_view, Config, Move, Run, StateGraph, Step, StepView,
};
use crate::symbols::{
    first_column, first_column_from_bounds, pivot_column, pivot_column_bounds, pivot_position,
    position, BOTTOM, EPSILON,
};

verus! {

/// A run in progress: the state (from 0), the stack with its top last, and
/// the transitions taken so far.
#[derive(Debug)]
pub struct Walk {
    pub state: usize,
    pub stack: Vec<char>,
    pub trace: Vec<Step>,
}

impl StateGraph {
    /// Whether `walk` is where the moves recorded in its trace lead on
    /// `input`, and each of its records is that of the move it stands for.
    pub open spec fn walked(&self, input: Seq<char>, walk: Walk) -> bool {
        &&& self.config_after(input, walk.trace@.len() as int) == Ok::<Config, ExecutionError>(
            Config { state: walk.state, stack: walk.stack@ },
        )
        &&& walk.state < self.states@.len()
        &&& forall|j: int|
            0 <= j < walk.trace@.len() ==> #[trigger] self.move_taken(input, trace_view(walk.trace@), j)
    }

    /// Takes the transition in `column` from `state` on `stack`.
    pub fn apply_cell(&self, state: usize, column: usize, stack: &mut Vec<char>) -> (result: Result<
        usize,
        ExecutionError,
    >)
        requires
            self.well_formed(),
            state < self.states@.len(),
            column < self.alphabet@.len(),
        ensures
            match self.apply((Config { state, stack: old(stack)@ }), column as int) {
                Ok(cfg) => result == Ok::<usize, ExecutionError>(cfg.state) && final(stack)@
                    == cfg.stack && cfg.state < self.states@.len(),
                Err(e) => result == Err::<usize, ExecutionError>(e) && final(stack)@ == old(stack)@,
            },
    {
        let cell = self.states[state].transitions[column];
        if cell.pop != EPSILON {
            let height: usize = stack.len();
            if height == 0 {
                return Err(ExecutionError::StackMismatch { expected: cell.pop, found: None });
            }
            let found: char = stack[height - 1];
            if found != cell.pop {
                return Err(
                    ExecutionError::StackMismatch { expected: cell.pop, found: Some(found) },
                );
            }
            stack.pop();
            assert(stack@ =~= old(stack)@.drop_last());
        }
        if cell.push != EPSILON {
            stack.push(cell.push);
        }
        Ok(cell.state)
    }

    /// Takes one move of the discipline from `state` on `stack`.
    pub fn take(&self, input: &str, kind: Move, eps: usize, state: usize, stack: &mut Vec<char>) -> (result:
        Result<usize, ExecutionError>)
        requires
            self.well_formed(),
            state < self.states@.len(),
            first_column(self.alphabet@, EPSILON) == Some(eps as int),
            match kind {
                Move::Read { index } => index < input@.len(),
                _ => true,
            },
        ensures
            match self.step(input@, (Config { state, stack: old(stack)@ }), kind) {
                Ok(cfg) => result == Ok::<usize, ExecutionError>(cfg.state) && final(stack)@
                    == cfg.stack && cfg.state < self.states@.len(),
                Err(e) => result == Err::<usize, ExecutionError>(e) && final(stack)@ == old(stack)@,
            },
    {
        proof {
            first_column_from_bounds(self.alphabet@, EPSILON, 0);
        }
        let count: usize = self.states.len();
        match kind {
            Move::Enter => {
                stack.push(BOTTOM);
                Ok(self.states[state].transitions[eps].state)
            },
            Move::Read { index } => {
                let symbol: char = input.get_char(index);
                match position(&self.alphabet, symbol) {
                    Some(column) => self.apply_cell(state, column, stack),
                    None => Err(ExecutionError::UnknownSymbol { symbol, state: state + 1 }),
                }
            },
            Move::Pivot => {
                match pivot_position(&self.alphabet) {
                    Some(column) => self.apply_cell(state, column, stack),
                    None => Err(ExecutionError::ConfigurationError { missing: Missing::Pivot }),
                }
            },
            Move::Turn => Ok(self.states[state].transitions[eps].state),
            Move::Leave => {
                let height: usize = stack.len();
                if height == 0 {
                    return Err(ExecutionError::StackMismatch { expected: BOTTOM, found: None });
                }
                let found: char = stack[height - 1];
                if found != BOTTOM {
                    return Err(
                        ExecutionError::StackMismatch { expected: BOTTOM, found: Some(found) },
                    );
                }
                stack.pop();
                assert(stack@ =~= old(stack)@.drop_last());
                Ok(self.states[state].transitions[eps].state)
            },
        }
    }

    /// Takes the next move of the discipline and records it. On a fault
    /// the trace is left as it was and the fault is handed back.
    pub fn advance(&self, input: &str, kind: Move, eps: usize, walk: &mut Walk) -> (fault: Option<
        ExecutionError,
    >)
        requires
            self.well_formed(),
            input@.len() > 0,
            first_column(self.alphabet@, EPSILON) == Some(eps as int),
            self.walked(input@, *old(walk)),
            kind == move_at(input@.len() as int, old(walk).trace@.len() as int),
            old(walk).trace@.len() < plan_len(input@.len() as int),
        ensures
            final(walk).trace@.len() <= plan_len(input@.len() as int),
            forall|j: int|
                0 <= j < final(walk).trace@.len() ==> #[trigger] self.move_taken(
                    input@,
                    trace_view(final(walk).trace@),
                    j,
                ),
            fault is None ==> self.walked(input@, *final(walk)) && final(walk).trace@.len() == old(
                walk,
            ).trace@.len() + 1,
            fault matches Some(e) ==> self.config_after(
                input@,
                (final(walk).trace@.len() + 1) as int,
            ) == Err::<Config, ExecutionError>(e) && final(walk).trace@ == old(walk).trace@
                && final(walk).state == old(walk).state && final(walk).stack@ == old(walk).stack@,
    {
        let from: usize = walk.state;
        let count: usize = self.states.len();
        let symbol: char = match kind {
            Move::Read { index } => input.get_char(index),
            Move::Pivot => input.get_char(input.unicode_len() / 2),
            _ => EPSILON,
        };
        let ghost k = walk.trace@.len() as int;
        let ghost before = trace_view(walk.trace@);
        match self.take(input, kind, eps, from, &mut walk.stack) {
            Err(e) => Some(e),
            Ok(next) => {
                let snapshot: Vec<char> = walk.stack.clone();
                assert(snapshot@ =~= walk.stack@);
                walk.trace.push(Step { kind, from: from + 1, symbol, to: next + 1, stack: snapshot });
                walk.state = next;
                proof {
                    let after = trace_view(walk.trace@);
                    assert(after[k] == self.record(input@, k));
                    assert(self.move_taken(input@, after, k));
                    assert forall|j: int| 0 <= j < k implies #[trigger] self.move_taken(
                        input@,
                        after,
                        j,
                    ) by {
                        assert(self.move_taken(input@, before, j));
                        assert(after[j] == before[j]);
                    }
                }
                None
            },
        }
    }

    /// Runs `sentence` through the graph. The alphabet must have an
    /// epsilon column, else nothing is done. The empty sentence is judged
    /// by the start state alone. Any other sentence is taken through the
    /// discipline: enter, read the first half, take the pivot column where
    /// the length is odd, turn, read the rest, leave; the first fault ends
    /// the run, and with none the last state gives the verdict.
    pub fn test_sentence(&self, sentence: &str) -> (run: Run)
        requires
            self.well_formed(),
        ensures
            self.is_run(sentence@, trace_view(run.trace@), run.verdict),
    {
        let eps: usize = match position(&self.alphabet, EPSILON) {
            Some(column) => column,
            None => {
                return Run {
                    trace: Vec::new(),
                    verdict: Err(ExecutionError::ConfigurationError { missing: Missing::Epsilon }),
                };
            },
        };
        let len: usize = sentence.unicode_len();
        if len == 0 {
            return Run {
                trace: Vec::new(),
                verdict: Ok(self.states[self.start_state].accept_state),
            };
        }
        let mid: usize = len / 2;
        let odd: bool = len % 2 > 0;
        let mut walk = Walk { state: self.start_state, stack: Vec::new(), trace: Vec::new() };
        assert(walk.stack@ =~= Seq::<char>::empty());
        if let Some(e) = self.advance(sentence, Move::Enter, eps, &mut walk) {
            return Run { trace: walk.trace, verdict: Err(e) };
        }
        let mut i: usize = 0;
        while i < len
            invariant
                self.well_formed(),
                len == sentence@.len(),
                len > 0,
                mid == len / 2,
                odd == (len % 2 == 1),
                i <= len,
                first_column(self.alphabet@, EPSILON) == Some(eps as int),
                self.walked(sentence@, walk),
                walk.trace@.len() == i + 1 + (if i > mid {
                    if odd {
                        2int
                    } else {
                        1int
                    }
                } else {
                    0int
                }),
            decreases len - i,
        {
            if i == mid {
                if odd {
                    if let Some(e) = self.advance(sentence, Move::Pivot, eps, &mut walk) {
                        return Run { trace: walk.trace, verdict: Err(e) };
                    }
                }
                if let Some(e) = self.advance(sentence, Move::Turn, eps, &mut walk) {
                    return Run { trace: walk.trace, verdict: Err(e) };
                }
            }
            if let Some(e) = self.advance(sentence, Move::Read { index: i }, eps, &mut walk) {
                return Run { trace: walk.trace, verdict: Err(e) };
            }
            i += 1;
        }
        if let Some(e) = self.advance(sentence, Move::Leave, eps, &mut walk) {
            return Run { trace: walk.trace, verdict: Err(e) };
        }
        Run { verdict: Ok(self.states[walk.state].accept_state), trace: walk.trace }
    }
}

/// Once a move has met a fault, the moves after it leave the fault as it is.
pub proof fn fault_stays(graph: StateGraph, input: Seq<char>, at: int, later: int)
    requires
        0 <= at <= later,
        graph.config_after(input, at) is Err,
    ensures
        graph.config_after(input, later) == graph.config_after(input, at),
    decreases later - at,
{
    if at < later {
        fault_stays(graph, input, at, later - 1);
    }
}

/// In the trace of a run, a record is that of the pivot move exactly when
/// the input has odd length and the record stands right after the reads
/// of the first half; a run of such an input that reaches a verdict holds
/// that record. So an input of odd length takes the pivot column once, at
/// its middle, and an input of even length never.
pub proof fn pivot_taken_once(
    graph: StateGraph,
    input: Seq<char>,
    trace: Seq<StepView>,
    verdict: Result<bool, ExecutionError>,
)
    requires
        graph.is_run(input, trace, verdict),
    ensures
        forall|k: int|
            0 <= k < trace.len() ==> ((#[trigger] trace[k]).kind == Move::Pivot <==> input.len() % 2
                == 1 && k == input.len() / 2 + 1),
        verdict is Ok && input.len() % 2 == 1 ==> trace.len() > input.len() / 2 + 1,
{
    assert forall|k: int| 0 <= k < trace.len() implies ((#[trigger] trace[k]).kind == Move::Pivot
        <==> input.len() % 2 == 1 && k == input.len() / 2 + 1) by {
        assert(graph.move_taken(input, trace, k));
    }
}

/// The stack that the last move finds, where every move before it met no
/// fault.
pub open spec fn stack_at_leave(graph: StateGraph, input: Seq<char>) -> Seq<char> {
    graph.config_after(input, plan_len(input.len() as int) - 1).unwrap().stack
}

/// A run that has taken every move but the last reaches a verdict exactly
/// when the top of the stack is the bottom marker. With any other symbol
/// on top, or with an empty stack, it halts with a stack mismatch: it
/// never turns that into a rejection.
pub proof fn leave_needs_bottom_marker(
    graph: StateGraph,
    input: Seq<char>,
    trace: Seq<StepView>,
    verdict: Result<bool, ExecutionError>,
)
    requires
        graph.is_run(input, trace, verdict),
        first_column(graph.alphabet@, EPSILON) is Some,
        input.len() > 0,
        graph.config_after(input, plan_len(input.len() as int) - 1) is Ok,
    ensures
        top(stack_at_leave(graph, input)) == Some(BOTTOM) ==> verdict is Ok,
        top(stack_at_leave(graph, input)) != Some(BOTTOM) ==> verdict == Err::<bool, ExecutionError>(
            (ExecutionError::StackMismatch {
                expected: BOTTOM,
                found: top(stack_at_leave(graph, input)),
            }),
        ),
{
    let moves = plan_len(input.len() as int);
    if trace.len() < moves - 1 {
        fault_stays(graph, input, (trace.len() + 1) as int, moves - 1);
    } else if trace.len() == moves {
        assert(graph.move_taken(input, trace, moves - 1));
    }
}

/// Whether the bottom marker stands nowhere in `stack` but at its bottom.
pub open spec fn marker_below_all(stack: Seq<char>) -> bool {
    forall|i: int| 0 < i < stack.len() ==> stack[i] != BOTTOM
}

/// Whether no transition of `graph` pushes the bottom marker.
pub open spec fn never_pushes_marker(graph: StateGraph) -> bool {
    forall|r: int, c: int|
        0 <= r < graph.states@.len() && 0 <= c < graph.alphabet@.len() ==> (
        #[trigger] graph.states@[r].transitions@[c]).push != BOTTOM
}

/// Where no transition pushes the bottom marker, the marker is never
/// above another symbol; so when it is on top, the stack holds it alone.
pub proof fn marker_stays_below(graph: StateGraph, input: Seq<char>, k: int)
    requires
        graph.well_formed(),
        never_pushes_marker(graph),
        first_column(graph.alphabet@, EPSILON) is Some,
        input.len() > 0,
        0 <= k <= plan_len(input.len() as int),
        graph.config_after(input, k) is Ok,
    ensures
        graph.config_after(input, k).unwrap().state < graph.states@.len(),
        marker_below_all(graph.config_after(input, k).unwrap().stack),
        top(graph.config_after(input, k).unwrap().stack) == Some(BOTTOM) ==> graph.config_after(
            input,
            k,
        ).unwrap().stack == seq![BOTTOM],
        k == 0 ==> graph.config_after(input, k).unwrap().stack.len() == 0,
    decreases k,
{
    if k > 0 {
        marker_stays_below(graph, input, k - 1);
        let before = graph.config_after(input, k - 1).unwrap();
        let after = graph.config_after(input, k).unwrap();
        let kind = move_at(input.len() as int, k - 1);
        first_column_from_bounds(graph.alphabet@, EPSILON, 0);
        assert(graph.states@[before.state as int].transitions@.len() == graph.alphabet@.len());
        match kind {
            Move::Read { index } => {
                first_column_from_bounds(graph.alphabet@, input[index as int], 0);
                let column = first_column(graph.alphabet@, input[index as int]).unwrap();
                let cell = graph.states@[before.state as int].transitions@[column];
                assert(cell.state < graph.states@.len());
                assert(cell.push != BOTTOM);
            },
            Move::Pivot => {
                pivot_column_bounds(graph.alphabet@, 0);
                let column = pivot_column(graph.alphabet@).unwrap();
                let cell = graph.states@[before.state as int].transitions@[column];
                assert(cell.state < graph.states@.len());
                assert(cell.push != BOTTOM);
            },
            _ => {
                let cell = graph.states@[before.state as int].transitions@[graph.epsilon_column()];
                assert(cell.state < graph.states@.len());
            },
        }
        let stack = after.stack;
        if top(stack) == Some(BOTTOM) {
            assert(stack.len() == 1);
            assert(stack =~= seq![BOTTOM]);
        }
    }
}

/// Where no transition pushes the bottom marker, a run reaches a verdict
/// only if the stack holds the bottom marker and nothing else when the
/// last move finds it.
pub proof fn verdict_needs_marker_alone(
    graph: StateGraph,
    input: Seq<char>,
    trace: Seq<StepView>,
    verdict: Result<bool, ExecutionError>,
)
    requires
        graph.well_formed(),
        never_pushes_marker(graph),
        first_column(graph.alphabet@, EPSILON) is Some,
        input.len() > 0,
        graph.is_run(input, trace, verdict),
        verdict is Ok,
    ensures
        stack_at_leave(graph, input) == seq![BOTTOM],
{
    let moves = plan_len(input.len() as int);
    assert(trace.len() == moves);
    assert(graph.move_taken(input, trace, moves - 1));
    if graph.config_after(input, moves - 1) is Err {
        fault_stays(graph, input, moves - 1, moves);
    }
    marker_stays_below(graph, input, moves - 1);
}

/// A run of the empty input through a graph with an epsilon column takes
/// no move, leaves no record, and is judged by the start state's flag.
pub proof fn empty_input_run(
    graph: StateGraph,
    trace: Seq<StepView>,
    verdict: Result<bool, ExecutionError>,
)
    requires
        first_column(graph.alphabet@, EPSILON) is Some,
        graph.is_run(Seq::<char>::empty(), trace, verdict),
    ensures
        trace.len() == 0,
        verdict == Ok::<bool, ExecutionError>(graph.states@[graph.start_state as int].accept_state),
{
}

/// Two runs of one input through one graph take the same moves, leave
/// the same records and end alike.
pub proof fn runs_agree(
    graph: StateGraph,
    input: Seq<char>,
    first_trace: Seq<StepView>,
    first_verdict: Result<bool, ExecutionError>,
    second_trace: Seq<StepView>,
    second_verdict: Result<bool, ExecutionError>,
)
    requires
        graph.is_run(input, first_trace, first_verdict),
        graph.is_run(input, second_trace, second_verdict),
    ensures
        first_trace == second_trace,
        first_verdict == second_verdict,
{
    if first_column(graph.alphabet@, EPSILON) is Some && input.len() > 0 {
        if first_trace.len() < second_trace.len() {
            assert(graph.move_taken(input, second_trace, first_trace.len() as int));
        }
        if second_trace.len() < first_trace.len() {
            assert(graph.move_taken(input, first_trace, second_trace.len() as int));
        }
        assert forall|k: int| 0 <= k < first_trace.len() implies first_trace[k] == second_trace[k] by {
            assert(graph.move_taken(input, first_trace, k));
            assert(graph.move_taken(input, second_trace, k));
        }
    }
    assert(first_trace =~= second_trace);
}

} // verus!
