use automata::dfa::{Step, DFA};
use automata::error::ExecutionError;
use automata::graph::{find_column, StateGraph};
use automata::symbols::{last_position, pivot_position, position};

#[test]
fn main_test1() {
    let dfa = DFA::new_from_regex("a*b").expect("pattern compiles");
    let state_graph = StateGraph::new_from_dfa(&dfa);
    assert_eq!(state_graph.alphabet, vec!['a', 'b', 'Σ']);
    assert_eq!(state_graph.start_state, 0);
    let rows: Vec<Vec<usize>> = state_graph.states.iter().map(|s| s.transitions.clone()).collect();
    assert_eq!(rows, vec![vec![1, 2, 0], vec![1, 2, 0], vec![2, 2, 2]]);
    let flags: Vec<bool> = state_graph.states.iter().map(|s| s.accept_state).collect();
    assert_eq!(flags, vec![false, false, true]);
}

#[test]
fn graph_run_agrees_with_the_table_on_listed_symbols() {
    let dfa = DFA::new_from_regex("a*b").expect("pattern compiles");
    let graph = StateGraph::new_from_dfa(&dfa);
    let run = graph.test_sentence("aab");
    assert_eq!(run.verdict, Ok(true));
    assert_eq!(
        run.trace,
        vec![
            Step { from: 1, symbol: 'a', to: 2 },
            Step { from: 2, symbol: 'a', to: 2 },
            Step { from: 2, symbol: 'b', to: 3 },
        ]
    );
    assert_eq!(graph.test_sentence("b").verdict, Ok(true));
    assert_eq!(graph.test_sentence("").verdict, Ok(false));
    assert_eq!(dfa.process("aab").trace, run.trace);
}

#[test]
fn wildcard_stands_in_for_unlisted_word_symbols() {
    let dfa = DFA::new_from_regex("a*b").expect("pattern compiles");
    let graph = StateGraph::new_from_dfa(&dfa);
    let run = graph.test_sentence("az7 b");
    assert_eq!(run.verdict, Ok(true));
    assert_eq!(
        run.trace,
        vec![
            Step { from: 1, symbol: 'a', to: 2 },
            Step { from: 2, symbol: 'z', to: 1 },
            Step { from: 1, symbol: '7', to: 1 },
            Step { from: 1, symbol: ' ', to: 1 },
            Step { from: 1, symbol: 'b', to: 3 },
        ]
    );
}

#[test]
fn symbols_outside_the_word_set_are_unknown() {
    let dfa = DFA::new_from_regex("a*b").expect("pattern compiles");
    let graph = StateGraph::new_from_dfa(&dfa);
    let run = graph.test_sentence("aZb");
    assert_eq!(run.verdict, Err(ExecutionError::UnknownSymbol { symbol: 'Z', state: 2 }));
    assert_eq!(run.trace, vec![Step { from: 1, symbol: 'a', to: 2 }]);
    assert_eq!(
        dfa.process("az").verdict,
        Err(ExecutionError::UnknownSymbol { symbol: 'z', state: 2 })
    );
}

#[test]
fn column_lookups() {
    let alphabet = vec!['x', 'y', 'x', '1', '0', 'Σ'];
    assert_eq!(position(&alphabet, 'x'), Some(0));
    assert_eq!(last_position(&alphabet, 'x'), Some(2));
    assert_eq!(position(&alphabet, 'q'), None);
    assert_eq!(last_position(&alphabet, 'q'), None);
    assert_eq!(pivot_position(&alphabet), Some(3));
    assert_eq!(pivot_position(&vec!['x', 'y']), None);
    assert_eq!(find_column(&alphabet, 'y'), Some(1));
    assert_eq!(find_column(&alphabet, 'q'), Some(5));
    assert_eq!(find_column(&alphabet, 'Q'), None);
    assert_eq!(find_column(&vec!['x'], 'q'), None);
}

#[test]
fn coarse_check_names_the_failing_check() {
    let mut dfa = DFA {
        alphabet: vec!['x', 'y'],
        start: 1,
        accept: vec![2],
        transitions: vec![vec![2, 1], vec![2, 1]],
    };
    assert_eq!(dfa.check_for_errors(), Ok(()));
    assert_eq!(dfa.compute_states(), 2);
    dfa.accept = vec![3];
    assert_eq!(
        dfa.check_for_errors(),
        Err("Error. One or more accept states are not valid states.")
    );
    dfa.start = 0;
    assert_eq!(dfa.check_for_errors(), Err("Error. The start state is not a valid state."));
    dfa.transitions[1][0] = 7;
    assert_eq!(
        dfa.check_for_errors(),
        Err("Error. A state in the transition table is not valid.")
    );
    dfa.transitions[0].push(1);
    assert_eq!(
        dfa.check_for_errors(),
        Err("Error. Transitions are not defined for all symbols.")
    );
}
