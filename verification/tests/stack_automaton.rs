use automata::error::{ExecutionError, Missing, Place, ValidationError};
use automata::pda::{Move, StateGraph, DFA, PDA};

const EPS: char = 'Ɛ';

fn cell(state: usize, pop: char, push: char) -> PDA {
    PDA { state, pop, push }
}

fn palindromes() -> DFA {
    DFA {
        alphabet: vec!['0', '1', EPS],
        start: 1,
        accept: vec![4],
        transitions: vec![
            vec![cell(1, EPS, EPS), cell(1, EPS, EPS), cell(2, EPS, '$')],
            vec![cell(2, EPS, '0'), cell(2, EPS, '1'), cell(3, EPS, EPS)],
            vec![cell(3, '0', EPS), cell(3, '1', EPS), cell(4, '$', EPS)],
            vec![cell(4, EPS, EPS), cell(4, EPS, EPS), cell(4, EPS, EPS)],
        ],
    }
}

fn graph_of(dfa: &DFA) -> StateGraph {
    assert_eq!(dfa.validate(), Ok(()));
    StateGraph::new_from_dfa(dfa)
}

#[test]
fn test2() {
    let pda = palindromes();
    pda.validate().expect("Validation Failure:");
}

#[test]
fn graph_counts_states_from_zero() {
    let graph = graph_of(&palindromes());
    assert_eq!(graph.alphabet, vec!['0', '1', EPS]);
    assert_eq!(graph.start_state, 0);
    assert_eq!(graph.states.len(), 4);
    assert_eq!(graph.states[1].transitions, vec![cell(1, EPS, '0'), cell(1, EPS, '1'), cell(2, EPS, EPS)]);
    let flags: Vec<bool> = graph.states.iter().map(|s| s.accept_state).collect();
    assert_eq!(flags, vec![false, false, false, true]);
}

#[test]
fn accepts_even_palindrome() {
    let graph = graph_of(&palindromes());
    let run = graph.test_sentence("0110");
    assert_eq!(run.verdict, Ok(true));
    let kinds: Vec<Move> = run.trace.iter().map(|s| s.kind).collect();
    assert_eq!(
        kinds,
        vec![
            Move::Enter,
            Move::Read { index: 0 },
            Move::Read { index: 1 },
            Move::Turn,
            Move::Read { index: 2 },
            Move::Read { index: 3 },
            Move::Leave,
        ]
    );
    let stacks: Vec<String> = run.trace.iter().map(|s| s.stack.iter().collect()).collect();
    assert_eq!(stacks, vec!["$", "$0", "$01", "$01", "$0", "$", ""]);
    let states: Vec<(usize, char, usize)> =
        run.trace.iter().map(|s| (s.from, s.symbol, s.to)).collect();
    assert_eq!(
        states,
        vec![
            (1, EPS, 2),
            (2, '0', 2),
            (2, '1', 2),
            (2, EPS, 3),
            (3, '1', 3),
            (3, '0', 3),
            (3, EPS, 4),
        ]
    );
}

#[test]
fn odd_input_takes_the_pivot_column_once_at_its_middle() {
    let graph = graph_of(&palindromes());
    let run = graph.test_sentence("000");
    assert_eq!(run.verdict, Ok(true));
    let pivots: Vec<usize> = run
        .trace
        .iter()
        .enumerate()
        .filter(|(_, s)| s.kind == Move::Pivot)
        .map(|(k, _)| k)
        .collect();
    assert_eq!(pivots, vec![2]);
    assert_eq!(run.trace.len(), 7);
    assert_eq!(run.trace[2].symbol, '0');
    assert_eq!(run.trace[2].stack, vec!['$', '0', '0']);
}

#[test]
fn even_input_takes_no_pivot_column() {
    let graph = graph_of(&palindromes());
    let run = graph.test_sentence("1001");
    assert_eq!(run.verdict, Ok(true));
    assert!(run.trace.iter().all(|s| s.kind != Move::Pivot));
    assert_eq!(run.trace.len(), 7);
}

#[test]
fn pop_of_the_wrong_symbol_is_a_mismatch() {
    let graph = graph_of(&palindromes());
    let run = graph.test_sentence("01");
    assert_eq!(
        run.verdict,
        Err(ExecutionError::StackMismatch { expected: '1', found: Some('0') })
    );
    assert_eq!(run.trace.len(), 3);
}

#[test]
fn unknown_symbol_halts_the_run() {
    let graph = graph_of(&palindromes());
    let run = graph.test_sentence("0a10");
    assert_eq!(run.verdict, Err(ExecutionError::UnknownSymbol { symbol: 'a', state: 2 }));
    assert_eq!(run.trace.len(), 2);
}

#[test]
fn empty_input_is_judged_by_start_state_without_a_trace() {
    let graph = graph_of(&palindromes());
    let run = graph.test_sentence("");
    assert_eq!(run.verdict, Ok(false));
    assert!(run.trace.is_empty());
    let mut accepting = palindromes();
    accepting.accept = vec![1, 4];
    let run = graph_of(&accepting).test_sentence("");
    assert_eq!(run.verdict, Ok(true));
    assert!(run.trace.is_empty());
}

#[test]
fn missing_epsilon_column_is_a_configuration_error() {
    let dfa = DFA {
        alphabet: vec!['0'],
        start: 1,
        accept: vec![1],
        transitions: vec![vec![cell(1, EPS, EPS)]],
    };
    let graph = graph_of(&dfa);
    let expected = Err(ExecutionError::ConfigurationError { missing: Missing::Epsilon });
    let run = graph.test_sentence("0");
    assert_eq!(run.verdict, expected);
    assert!(run.trace.is_empty());
    assert_eq!(graph.test_sentence("").verdict, expected);
}

#[test]
fn missing_pivot_column_is_a_configuration_error() {
    let dfa = DFA {
        alphabet: vec!['a', EPS],
        start: 1,
        accept: vec![1],
        transitions: vec![vec![cell(1, EPS, EPS), cell(1, EPS, EPS)]],
    };
    let graph = graph_of(&dfa);
    let run = graph.test_sentence("a");
    assert_eq!(
        run.verdict,
        Err(ExecutionError::ConfigurationError { missing: Missing::Pivot })
    );
    assert_eq!(run.trace.len(), 1);
    let run = graph.test_sentence("aa");
    assert_eq!(run.verdict, Ok(true));
}

#[test]
fn leftover_stack_is_a_mismatch_not_a_rejection() {
    let mut dfa = palindromes();
    dfa.transitions[2][0] = cell(3, EPS, EPS);
    let graph = graph_of(&dfa);
    let run = graph.test_sentence("00");
    assert_eq!(
        run.verdict,
        Err(ExecutionError::StackMismatch { expected: '$', found: Some('0') })
    );
    assert_eq!(run.trace.len(), 4);
}

#[test]
fn emptied_stack_is_a_mismatch() {
    let mut dfa = palindromes();
    dfa.transitions[1][0] = cell(2, '$', EPS);
    let graph = graph_of(&dfa);
    let run = graph.test_sentence("00");
    assert_eq!(
        run.verdict,
        Err(ExecutionError::StackMismatch { expected: '0', found: None })
    );
    let run = graph.test_sentence("0");
    assert_eq!(
        run.verdict,
        Err(ExecutionError::StackMismatch { expected: '0', found: None })
    );
}

#[test]
fn stack_table_is_validated_like_a_plain_one() {
    let mut dfa = palindromes();
    dfa.transitions[3].push(cell(1, EPS, EPS));
    assert_eq!(
        dfa.validate(),
        Err(ValidationError::ShapeMismatch { row: 4, found: 4, expected: 3 })
    );
    let mut dfa = palindromes();
    dfa.transitions[0][2] = cell(5, EPS, EPS);
    assert_eq!(
        dfa.validate(),
        Err(ValidationError::InvalidStateReference {
            place: Place::Cell { row: 1, column: 3 },
            value: 5
        })
    );
    let mut dfa = palindromes();
    dfa.start = 0;
    assert_eq!(
        dfa.validate(),
        Err(ValidationError::InvalidStateReference { place: Place::Start, value: 0 })
    );
    let mut dfa = palindromes();
    dfa.accept = vec![4, 9];
    assert_eq!(
        dfa.validate(),
        Err(ValidationError::InvalidStateReference {
            place: Place::Accept { position: 2 },
            value: 9
        })
    );
}

#[test]
fn only_the_top_of_the_stack_is_looked_at_on_leaving() {
    let mut dfa = palindromes();
    dfa.transitions[1][0] = cell(2, EPS, '$');
    dfa.transitions[2][0] = cell(3, EPS, EPS);
    let graph = graph_of(&dfa);
    let run = graph.test_sentence("00");
    assert_eq!(run.verdict, Ok(true));
    assert_eq!(run.trace.len(), 5);
    assert_eq!(run.trace[3].stack, vec!['$', '$']);
    assert_eq!(run.trace[4].kind, Move::Leave);
    assert_eq!(run.trace[4].stack, vec!['$']);
}

#[test]
fn single_symbol_takes_pivot_then_turn_then_read() {
    let graph = graph_of(&palindromes());
    let run = graph.test_sentence("0");
    assert_eq!(run.verdict, Ok(true));
    let kinds: Vec<Move> = run.trace.iter().map(|s| s.kind).collect();
    assert_eq!(
        kinds,
        vec![Move::Enter, Move::Pivot, Move::Turn, Move::Read { index: 0 }, Move::Leave]
    );
}
