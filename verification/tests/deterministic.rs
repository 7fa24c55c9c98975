use automata::dfa::{Run, Step, DFA};
use automata::error::{ExecutionError, Place, ValidationError};

fn sample() -> DFA {
    DFA {
        alphabet: vec!['x', 'y'],
        start: 1,
        accept: vec![2],
        transitions: vec![vec![2, 1], vec![2, 1]],
    }
}

fn checked(dfa: &DFA, input: &str) -> Run {
    assert_eq!(dfa.validate(), Ok(()));
    dfa.process(input)
}

#[test]
fn main_test2() {
    let dfa = sample();
    dfa.validate().expect("Validation Failure:");
    dfa.process("xyxxyx").verdict.expect("Processing Failure:");
}

#[test]
#[should_panic]
fn test3() {
    let dfa = sample();
    dfa.validate().expect("Validation Failure:");
    dfa.process("xxy101yx").verdict.expect("Processing Failure:");
}

#[test]
fn accepts_sample_sentence_with_six_transitions() {
    let run = checked(&sample(), "xyxxyx");
    assert_eq!(run.verdict, Ok(true));
    assert_eq!(
        run.trace,
        vec![
            Step { from: 1, symbol: 'x', to: 2 },
            Step { from: 2, symbol: 'y', to: 1 },
            Step { from: 1, symbol: 'x', to: 2 },
            Step { from: 2, symbol: 'x', to: 2 },
            Step { from: 2, symbol: 'y', to: 1 },
            Step { from: 1, symbol: 'x', to: 2 },
        ]
    );
}

#[test]
fn rejects_sentence_that_ends_outside_accept() {
    let run = checked(&sample(), "xy");
    assert_eq!(run.verdict, Ok(false));
    assert_eq!(run.trace.len(), 2);
}

#[test]
fn halts_on_first_unknown_symbol() {
    let run = checked(&sample(), "xxy101yx");
    assert_eq!(
        run.verdict,
        Err(ExecutionError::UnknownSymbol { symbol: '1', state: 1 })
    );
    assert_eq!(
        run.trace,
        vec![
            Step { from: 1, symbol: 'x', to: 2 },
            Step { from: 2, symbol: 'x', to: 2 },
            Step { from: 2, symbol: 'y', to: 1 },
        ]
    );
}

#[test]
fn empty_input_is_judged_by_start_state() {
    let run = checked(&sample(), "");
    assert_eq!(run.verdict, Ok(false));
    assert!(run.trace.is_empty());
    let mut accepting = sample();
    accepting.accept = vec![1, 2];
    let run = checked(&accepting, "");
    assert_eq!(run.verdict, Ok(true));
    assert!(run.trace.is_empty());
}

#[test]
fn repeated_runs_visit_the_same_states() {
    let dfa = sample();
    let first = checked(&dfa, "yyxyx");
    let second = checked(&dfa, "yyxyx");
    assert_eq!(first.trace, second.trace);
    assert_eq!(first.verdict, second.verdict);
}

#[test]
fn later_column_wins_for_a_symbol_listed_twice() {
    let dfa = DFA {
        alphabet: vec!['x', 'x'],
        start: 1,
        accept: vec![2],
        transitions: vec![vec![1, 2], vec![2, 2]],
    };
    let run = checked(&dfa, "x");
    assert_eq!(run.verdict, Ok(true));
}

#[test]
fn validate_accepts_sample() {
    assert_eq!(sample().validate(), Ok(()));
}

#[test]
fn validate_names_the_row_of_wrong_length() {
    let dfa = DFA {
        alphabet: vec!['x', 'y'],
        start: 1,
        accept: vec![2],
        transitions: vec![vec![2, 1], vec![2, 1, 1]],
    };
    assert_eq!(
        dfa.validate(),
        Err(ValidationError::ShapeMismatch { row: 2, found: 3, expected: 2 })
    );
}

#[test]
fn validate_reports_shape_before_cells() {
    let dfa = DFA {
        alphabet: vec!['x', 'y'],
        start: 9,
        accept: vec![7],
        transitions: vec![vec![5, 1], vec![2]],
    };
    assert_eq!(
        dfa.validate(),
        Err(ValidationError::ShapeMismatch { row: 2, found: 1, expected: 2 })
    );
}

#[test]
fn validate_names_the_first_bad_cell() {
    let dfa = DFA {
        alphabet: vec!['x', 'y'],
        start: 1,
        accept: vec![2],
        transitions: vec![vec![2, 1], vec![2, 3], vec![4, 0]],
    };
    assert_eq!(
        dfa.validate(),
        Err(ValidationError::InvalidStateReference {
            place: Place::Cell { row: 3, column: 1 },
            value: 4
        })
    );
}

#[test]
fn validate_refuses_state_zero_in_a_cell() {
    let dfa = DFA {
        alphabet: vec!['x'],
        start: 1,
        accept: vec![1],
        transitions: vec![vec![0]],
    };
    assert_eq!(
        dfa.validate(),
        Err(ValidationError::InvalidStateReference {
            place: Place::Cell { row: 1, column: 1 },
            value: 0
        })
    );
}

#[test]
fn validate_checks_start_then_accept() {
    let mut dfa = sample();
    dfa.start = 3;
    dfa.accept = vec![5];
    assert_eq!(
        dfa.validate(),
        Err(ValidationError::InvalidStateReference { place: Place::Start, value: 3 })
    );
    dfa.start = 2;
    dfa.accept = vec![2, 0, 5];
    assert_eq!(
        dfa.validate(),
        Err(ValidationError::InvalidStateReference {
            place: Place::Accept { position: 2 },
            value: 0
        })
    );
}

#[test]
fn validate_refuses_a_table_without_rows() {
    let dfa = DFA { alphabet: vec!['x'], start: 1, accept: vec![], transitions: vec![] };
    assert_eq!(
        dfa.validate(),
        Err(ValidationError::InvalidStateReference { place: Place::Start, value: 1 })
    );
}
