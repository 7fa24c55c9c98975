//! Reserved symbols and column lookup in an alphabet.

use vstd::prelude::*;

verus! {

/// Marks a transition that is taken without reading input.
pub const EPSILON: char = 'Ɛ';

/// Stands for any input symbol that the alphabet does not list.
pub const WILDCARD: char = 'Σ';

/// Sits under everything else on the stack of a stack automaton.
pub const BOTTOM: char = '$';

/// The first column at or after `from` whose symbol is `symbol`.
pub open spec fn first_column_from(alphabet: Seq<char>, symbol: char, from: int) -> Option<int>
    decreases alphabet.len() - from,
{
    if from < 0 || from >= alphabet.len() {
        None
    } else if alphabet[from] == symbol {
        Some(from)
    } else {
        first_column_from(alphabet, symbol, from + 1)
    }
}

/// The first column of `alphabet` that holds `symbol`.
pub open spec fn first_column(alphabet: Seq<char>, symbol: char) -> Option<int> {
    first_column_from(alphabet, symbol, 0)
}

/// The last column below `upto` whose symbol is `symbol`.
pub open spec fn last_column_upto(alphabet: Seq<char>, symbol: char, upto: int) -> Option<int>
    decreases upto,
{
    if upto <= 0 || upto > alphabet.len() {
        None
    } else if alphabet[upto - 1] == symbol {
        Some(upto - 1)
    } else {
        last_column_upto(alphabet, symbol, upto - 1)
    }
}

/// The last column of `alphabet` that holds `symbol`.
pub open spec fn last_column(alphabet: Seq<char>, symbol: char) -> Option<int> {
    last_column_upto(alphabet, symbol, alphabet.len() as int)
}

/// Whether `symbol` is one of the two digits that mark the pivot column.
pub open spec fn is_pivot_symbol(symbol: char) -> bool {
    symbol == '0' || symbol == '1'
}

/// The first pivot column at or after `from`.
pub open spec fn pivot_column_from(alphabet: Seq<char>, from: int) -> Option<int>
    decreases alphabet.len() - from,
{
    if from < 0 || from >= alphabet.len() {
        None
    } else if is_pivot_symbol(alphabet[from]) {
        Some(from)
    } else {
        pivot_column_from(alphabet, from + 1)
    }
}

/// The first column of `alphabet` that holds a pivot symbol.
pub open spec fn pivot_column(alphabet: Seq<char>) -> Option<int> {
    pivot_column_from(alphabet, 0)
}

/// A found column lies inside the alphabet, holds the symbol, and no
/// earlier column from `from` on does.
pub proof fn first_column_from_bounds(alphabet: Seq<char>, symbol: char, from: int)
    requires
        0 <= from,
    ensures
        match first_column_from(alphabet, symbol, from) {
            Some(c) => from <= c < alphabet.len() && alphabet[c] == symbol && forall|j: int|
                from <= j < c ==> alphabet[j] != symbol,
            None => forall|j: int| from <= j < alphabet.len() ==> alphabet[j] != symbol,
        },
    decreases alphabet.len() - from,
{
    if from < alphabet.len() && alphabet[from] != symbol {
        first_column_from_bounds(alphabet, symbol, from + 1);
    }
}

/// A found column lies inside the alphabet, holds the symbol, and no
/// later column below `upto` does.
pub proof fn last_column_upto_bounds(alphabet: Seq<char>, symbol: char, upto: int)
    requires
        upto <= alphabet.len(),
    ensures
        match last_column_upto(alphabet, symbol, upto) {
            Some(c) => 0 <= c < upto && alphabet[c] == symbol && forall|j: int|
                c < j < upto ==> alphabet[j] != symbol,
            None => forall|j: int| 0 <= j < upto ==> alphabet[j] != symbol,
        },
    decreases upto,
{
    if upto > 0 && alphabet[upto - 1] != symbol {
        last_column_upto_bounds(alphabet, symbol, upto - 1);
    }
}

/// A found pivot column lies inside the alphabet.
pub proof fn pivot_column_bounds(alphabet: Seq<char>, from: int)
    requires
        0 <= from,
    ensures
        match pivot_column_from(alphabet, from) {
            Some(c) => from <= c < alphabet.len() && is_pivot_symbol(alphabet[c]),
            None => true,
        },
    decreases alphabet.len() - from,
{
    if from < alphabet.len() && !is_pivot_symbol(alphabet[from]) {
        pivot_column_bounds(alphabet, from + 1);
    }
}

/// Finds the first column of `alphabet` that holds `symbol`.
pub fn position(alphabet: &Vec<char>, symbol: char) -> (found: Option<usize>)
    ensures
        match found {
            Some(c) => first_column(alphabet@, symbol) == Some(c as int) && c < alphabet@.len(),
            None => first_column(alphabet@, symbol) is None,
        },
{
    let mut i: usize = 0;
    while i < alphabet.len()
        invariant
            i <= alphabet@.len(),
            first_column(alphabet@, symbol) == first_column_from(alphabet@, symbol, i as int),
        decreases alphabet@.len() - i,
    {
        if alphabet[i] == symbol {
            return Some(i);
        }
        i += 1;
    }
    None
}

/// Finds the last column of `alphabet` that holds `symbol`.
pub fn last_position(alphabet: &Vec<char>, symbol: char) -> (found: Option<usize>)
    ensures
        match found {
            Some(c) => last_column(alphabet@, symbol) == Some(c as int) && c < alphabet@.len(),
            None => last_column(alphabet@, symbol) is None,
        },
{
    let mut i: usize = alphabet.len();
    while i > 0
        invariant
            i <= alphabet@.len(),
            last_column(alphabet@, symbol) == last_column_upto(alphabet@, symbol, i as int),
        decreases i,
    {
        if alphabet[i - 1] == symbol {
            return Some(i - 1);
        }
        i -= 1;
    }
    None
}

/// Finds the first column of `alphabet` that holds a pivot symbol.
pub fn pivot_position(alphabet: &Vec<char>) -> (found: Option<usize>)
    ensures
        match found {
            Some(c) => pivot_column(alphabet@) == Some(c as int) && c < alphabet@.len(),
            None => pivot_column(alphabet@) is None,
        },
{
    let mut i: usize = 0;
    while i < alphabet.len()
        invariant
            i <= alphabet@.len(),
            pivot_column(alphabet@) == pivot_column_from(alphabet@, i as int),
        decreases alphabet@.len() - i,
    {
        if alphabet[i] == '0' || alphabet[i] == '1' {
            return Some(i);
        }
        i += 1;
    }
    None
}

/// Whether `list` holds `state`.
pub fn holds_state(list: &Vec<usize>, state: usize) -> (found: bool)
    ensures
        found == list@.contains(state),
{
    let mut i: usize = 0;
    while i < list.len()
        invariant
            i <= list@.len(),
            forall|j: int| 0 <= j < i ==> list@[j] != state,
        decreases list@.len() - i,
    {
        if list[i] == state {
            return true;
        }
        i += 1;
    }
    false
}

} // verus!
