use automata::builder::{count_literals, pattern_alphabet, Builder};
use automata::dfa::DFA;
use automata::error::{Place, ValidationError};
use automata::regex::{CompileError, Patch};

fn compile(pattern: &str) -> DFA {
    let dfa = DFA::new_from_regex(pattern).expect("pattern compiles");
    assert_eq!(dfa.validate(), Ok(()));
    dfa
}

#[test]
fn compiles_star_then_literal() {
    let dfa = compile("a*b");
    assert_eq!(dfa.alphabet, vec!['a', 'b', 'Σ']);
    assert_eq!(dfa.start, 1);
    assert_eq!(dfa.accept, vec![3]);
    assert_eq!(dfa.transitions, vec![vec![2, 3, 1], vec![2, 3, 1], vec![3, 3, 3]]);
}

#[test]
fn star_pattern_accepts_b_and_rejects_empty() {
    let dfa = compile("a*b");
    assert_eq!(dfa.process("b").verdict, Ok(true));
    assert_eq!(dfa.process("").verdict, Ok(false));
}

#[test]
fn compiles_plain_literals() {
    let dfa = compile("ab");
    assert_eq!(dfa.alphabet, vec!['a', 'b', 'Σ']);
    assert_eq!(dfa.accept, vec![3]);
    assert_eq!(dfa.transitions, vec![vec![2, 1, 1], vec![2, 3, 1], vec![3, 3, 3]]);
    assert_eq!(dfa.process("ab").verdict, Ok(true));
    assert_eq!(dfa.process("b").verdict, Ok(false));
}

#[test]
fn compiles_alternation() {
    let dfa = compile("a|b");
    assert_eq!(dfa.alphabet, vec!['a', 'b', 'Σ']);
    assert_eq!(dfa.accept, vec![3, 2]);
    assert_eq!(dfa.transitions, vec![vec![2, 3, 1], vec![2, 2, 2], vec![3, 3, 3]]);
    assert_eq!(dfa.process("a").verdict, Ok(true));
    assert_eq!(dfa.process("b").verdict, Ok(true));
}

#[test]
fn compiles_plus() {
    let dfa = compile("a+");
    assert_eq!(dfa.alphabet, vec!['a', 'Σ']);
    assert_eq!(dfa.accept, vec![2]);
    assert_eq!(dfa.transitions, vec![vec![2, 1], vec![2, 2]]);
}

#[test]
fn alphabet_is_sorted_distinct_literals_then_wildcard() {
    assert_eq!(pattern_alphabet("cab|a*c+b"), vec!['a', 'b', 'c', 'Σ']);
    assert_eq!(pattern_alphabet("|*+"), vec!['Σ']);
    assert_eq!(count_literals("cab|a*c+b"), 6);
}

#[test]
fn empty_pattern_is_refused() {
    assert_eq!(DFA::new_from_regex("").err(), Some(CompileError::EmptyPattern));
}

#[test]
fn leading_repetition_is_refused() {
    assert_eq!(
        DFA::new_from_regex("*a").err(),
        Some(CompileError::NothingToRepeat { position: 0 })
    );
    assert_eq!(
        DFA::new_from_regex("+").err(),
        Some(CompileError::NothingToRepeat { position: 0 })
    );
}

#[test]
fn builder_operations_one_by_one() {
    let mut builder = Builder::new("a*b").expect("pattern is not empty");
    assert_eq!(builder.next_state, 2);
    assert_eq!(builder.final_state, 3);
    assert_eq!(builder.pending, vec![Patch { symbol: 'a', target: 2 }]);
    builder.apply_literal('a');
    assert_eq!(builder.rows, vec![vec![2, 1, 1]]);
    assert_eq!(builder.next_state, 3);
    builder.apply_star();
    assert_eq!(builder.rows, vec![vec![2, 3, 1]]);
    assert_eq!(builder.next_state, 3);
    assert_eq!(builder.last_char, '*');
    builder.prepare('b');
    assert_eq!(
        builder.pending,
        vec![Patch { symbol: 'a', target: 2 }, Patch { symbol: 'b', target: 3 }]
    );
    builder.apply_literal('b');
    assert_eq!(builder.rows, vec![vec![2, 3, 1], vec![2, 3, 1]]);
    let dfa = builder.finalize();
    assert_eq!(dfa.transitions, vec![vec![2, 3, 1], vec![2, 3, 1], vec![3, 3, 3]]);
}

#[test]
fn alternation_adds_an_accepting_row() {
    let mut builder = Builder::new("a|b").expect("pattern is not empty");
    assert_eq!(builder.feed('a', 0), Ok(()));
    builder.apply_alternation();
    assert_eq!(builder.accept, vec![3, 2]);
    assert_eq!(builder.rows, vec![vec![2, 1, 1], vec![2, 2, 2]]);
    assert_eq!(builder.last_char, '|');
    builder.prepare('b');
    assert_eq!(builder.rows[0], vec![2, 3, 1]);
}

#[test]
fn plus_replaces_the_last_row() {
    let mut builder = Builder::new("ab+").expect("pattern is not empty");
    assert_eq!(builder.feed('a', 0), Ok(()));
    assert_eq!(builder.feed('b', 1), Ok(()));
    assert_eq!(builder.rows, vec![vec![2, 1, 1], vec![2, 3, 1]]);
    builder.apply_plus();
    assert_eq!(builder.rows, vec![vec![2, 1, 1], vec![2, 3, 1]]);
    assert_eq!(builder.next_state, 4);
}

#[test]
fn sealing_settles_pending_patches() {
    let dfa = compile("ab*c");
    assert_eq!(dfa.alphabet, vec!['a', 'b', 'c', 'Σ']);
    assert_eq!(
        dfa.transitions,
        vec![vec![2, 1, 4, 1], vec![2, 3, 4, 1], vec![2, 1, 4, 1], vec![4, 4, 4, 4]]
    );
    let dfa = compile("a*bc");
    assert_eq!(
        dfa.transitions,
        vec![vec![2, 3, 1, 1], vec![2, 3, 1, 1], vec![2, 3, 4, 1], vec![4, 4, 4, 4]]
    );
}

#[test]
fn a_symbol_with_two_patches_still_gets_one_cell() {
    let dfa = compile("a|ab");
    assert_eq!(dfa.alphabet, vec!['a', 'b', 'Σ']);
    assert_eq!(dfa.accept, vec![4, 2]);
    assert_eq!(
        dfa.transitions,
        vec![vec![3, 1, 1], vec![2, 2, 2], vec![2, 4, 1], vec![4, 4, 4]]
    );
}

#[test]
fn table_that_fails_the_check_is_refused() {
    assert_eq!(
        DFA::new_from_regex("Σ").err(),
        Some(CompileError::Malformed {
            fault: ValidationError::InvalidStateReference {
                place: Place::Cell { row: 1, column: 1 },
                value: 2
            }
        })
    );
}

#[test]
fn leading_alternation_accepts_the_empty_input() {
    let dfa = compile("|a");
    assert_eq!(dfa.accept, vec![2, 1]);
    assert_eq!(dfa.transitions, vec![vec![2, 1], vec![2, 2]]);
    assert_eq!(dfa.process("").verdict, Ok(true));
    assert_eq!(dfa.process("a").verdict, Ok(true));
}
