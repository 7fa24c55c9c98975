//! Building a deterministic table from a pattern of literal symbols and
//! the operators `|`, `*` and `+`, each of which acts on the one literal
//! before it. The pattern is read once, left to right; forward references
//! are kept as pending patches and settled when the table is sealed.

use vstd::prelude::*;
use crate::dfa::DFA;
use crate::error::ValidationError;
use crate::symbols::WILDCARD;

verus! {

/// A forward reference: cells in the column of `symbol` that still point
/// at the reject state are meant to lead to `target`.
#[derive(Debug, Clone, Copy, PartialEq, Eq)]
pub struct Patch {
    pub symbol: char,
    pub target: usize,
}

/// Why a pattern gives no table. Positions count from 0.
#[derive(Debug, Clone, Copy, PartialEq, Eq)]
pub enum CompileError {
    /// The pattern has no symbol at all.
    EmptyPattern,
    /// The repetition at `position` has no row, or no state number, to
    /// step back to.
    NothingToRepeat { position: usize },
    /// A state number does not fit the machine's word.
    TooManyStates,
    /// The sealed table did not pass the check; `fault` is what the check
    /// found first.
    Malformed { fault: ValidationError },
}

/// Whether `c` is one of the three operators.
pub open spec fn is_operator(c: char) -> bool {
    c == '|' || c == '+' || c == '*'
}

/// The first index at or after `from` whose symbol is not below `c`.
pub open spec fn slot_from(sorted: Seq<char>, c: char, from: int) -> int
    decreases sorted.len() - from,
{
    if from < 0 || from >= sorted.len() {
        sorted.len() as int
    } else if sorted[from] >= c {
        from
    } else {
        slot_from(sorted, c, from + 1)
    }
}

/// `sorted` with `c` put in its place, unless it is there already.
pub open spec fn with_symbol(sorted: Seq<char>, c: char) -> Seq<char> {
    let slot = slot_from(sorted, c, 0);
    if slot < sorted.len() && sorted[slot] == c {
        sorted
    } else {
        sorted.insert(slot, c)
    }
}

/// The literals among the first `upto` symbols of `pattern`, each once, in
/// ascending order.
pub open spec fn literals(pattern: Seq<char>, upto: int) -> Seq<char>
    decreases upto,
{
    if upto <= 0 {
        Seq::empty()
    } else if is_operator(pattern[upto - 1]) {
        literals(pattern, upto - 1)
    } else {
        with_symbol(literals(pattern, upto - 1), pattern[upto - 1])
    }
}

/// How many of the first `upto` symbols of `pattern` are literals.
pub open spec fn literal_count(pattern: Seq<char>, upto: int) -> nat
    decreases upto,
{
    if upto <= 0 {
        0
    } else if is_operator(pattern[upto - 1]) {
        literal_count(pattern, upto - 1)
    } else {
        literal_count(pattern, upto - 1) + 1
    }
}

/// The alphabet of a pattern: its literals in ascending order, then the
/// wildcard.
pub open spec fn alphabet_of(pattern: Seq<char>) -> Seq<char> {
    literals(pattern, pattern.len() as int).push(WILDCARD)
}

/// The target of the first pending patch for `symbol` at or after `from`.
pub open spec fn first_patch(pending: Seq<Patch>, symbol: char, from: int) -> Option<usize>
    decreases pending.len() - from,
{
    if from < 0 || from >= pending.len() {
        None
    } else if pending[from].symbol == symbol {
        Some(pending[from].target)
    } else {
        first_patch(pending, symbol, from + 1)
    }
}

/// The target of the last of the first `upto` pending patches for `symbol`.
pub open spec fn last_patch(pending: Seq<Patch>, symbol: char, upto: int) -> Option<usize>
    decreases upto,
{
    if upto <= 0 {
        None
    } else if pending[upto - 1].symbol == symbol {
        Some(pending[upto - 1].target)
    } else {
        last_patch(pending, symbol, upto - 1)
    }
}

/// A star's row while it is being laid out: the cells so far, the state
/// counter, and whether the one forward step has been spent.
pub struct StarScan {
    pub row: Seq<usize>,
    pub next: int,
    pub stepped: bool,
}

/// The construction state as plain values.
pub struct Build {
    pub alphabet: Seq<char>,
    pub final_state: usize,
    pub rows: Seq<Seq<usize>>,
    pub accept: Seq<usize>,
    pub next: usize,
    pub pending: Seq<Patch>,
    pub last: char,
}

impl Build {
    /// The state before the first symbol of `pattern` is read.
    pub open spec fn start(pattern: Seq<char>) -> Build {
        let final_state = (literal_count(pattern, pattern.len() as int) + 1) as usize;
        Build {
            alphabet: alphabet_of(pattern),
            final_state,
            rows: Seq::empty(),
            accept: seq![final_state],
            next: 2,
            pending: seq![Patch { symbol: pattern[0], target: 2 }],
            last: pattern[0],
        }
    }

    /// The cell that the column of `a` gets in the row of literal `c`:
    /// the next state under `c` itself; elsewhere the target of the first
    /// pending patch for `a`, or the reject state where there is none.
    pub open spec fn literal_cell(self, c: char, a: char) -> usize {
        if a == c {
            self.next
        } else {
            match first_patch(self.pending, a, 0) {
                Some(target) => target,
                None => 1,
            }
        }
    }

    /// The row of literal `c`, one cell for each symbol of the alphabet.
    pub open spec fn literal_row(self, c: char) -> Seq<usize> {
        Seq::new(self.alphabet.len(), |n: int| self.literal_cell(c, self.alphabet[n]))
    }

    /// What reading any symbol `c` does first. After an alternation the
    /// first row is pointed at the next state under `c`, and after an
    /// alternation or a star a patch for `c` is recorded.
    pub open spec fn prepared(self, c: char) -> Build {
        if self.last == '|' {
            Build {
                rows: if self.rows.len() == 0 {
                    self.rows
                } else {
                    self.rows.update(0, self.branch_row(c))
                },
                pending: self.pending.push(Patch { symbol: c, target: self.next }),
                ..self
            }
        } else if self.last == '*' {
            Build { pending: self.pending.push(Patch { symbol: c, target: self.next }), ..self }
        } else {
            self
        }
    }

    /// The first row with the column of `c` pointed at the next state.
    pub open spec fn branch_row(self, c: char) -> Seq<usize> {
        Seq::new(
            self.rows[0].len(),
            |n: int|
                if n < self.alphabet.len() && self.alphabet[n] == c {
                    self.next
                } else {
                    self.rows[0][n]
                },
        )
    }

    /// A literal: its row is appended, unless it closes a branch, and the
    /// state counter moves on.
    pub open spec fn literal(self, c: char) -> Build {
        Build {
            rows: if self.last != '|' {
                self.rows.push(self.literal_row(c))
            } else {
                self.rows
            },
            next: (self.next + 1) as usize,
            last: c,
            ..self
        }
    }

    /// An alternation: a new row that only leads to itself becomes one more
    /// accepting state.
    pub open spec fn alternation(self) -> Build {
        let state = (self.rows.len() + 1) as usize;
        Build {
            rows: self.rows.push(Seq::new(self.alphabet.len(), |n: int| state)),
            accept: self.accept.push(state),
            last: '|',
            ..self
        }
    }

    /// The row that a plus puts in place of the last one: the repeated
    /// symbol leads to the state before; every other symbol to the target
    /// of its first pending patch, or to the reject state where it has none.
    pub open spec fn plus_row(self) -> Seq<usize> {
        Seq::new(
            self.alphabet.len(),
            |n: int|
                if self.alphabet[n] == self.last {
                    (self.next - 1) as usize
                } else {
                    match first_patch(self.pending, self.alphabet[n], 0) {
                        Some(target) => target,
                        None => 1usize,
                    }
                },
        )
    }

    /// A plus: the last row is replaced; the counter and the last symbol
    /// stay.
    pub open spec fn plus(self) -> Build {
        Build { rows: self.rows.drop_last().push(self.plus_row()), ..self }
    }

    /// A star's row over the first `upto` columns, with the counter set
    /// back by two before the first column.
    pub open spec fn star_scan(self, upto: int) -> StarScan
        decreases upto,
    {
        if upto <= 0 {
            StarScan { row: Seq::empty(), next: self.next - 2, stepped: false }
        } else {
            let before = self.star_scan(upto - 1);
            let a = self.alphabet[upto - 1];
            if a == self.last {
                StarScan {
                    row: before.row.push((before.next + 1) as usize),
                    next: before.next + 1,
                    stepped: before.stepped,
                }
            } else if a == WILDCARD {
                StarScan { row: before.row.push(1usize), ..before }
            } else if a == self.pending[0].symbol {
                StarScan { row: before.row.push(self.pending[0].target), ..before }
            } else if !before.stepped {
                StarScan {
                    row: before.row.push((before.next + 1) as usize),
                    next: before.next + 1,
                    stepped: true,
                }
            } else {
                StarScan { row: before.row.push(1usize), ..before }
            }
        }
    }

    /// A star: the last row is replaced by the star's row, and the counter
    /// ends where the row left it.
    pub open spec fn star(self) -> Build {
        let scan = self.star_scan(self.alphabet.len() as int);
        Build {
            rows: self.rows.drop_last().push(scan.row),
            next: scan.next as usize,
            last: '*',
            ..self
        }
    }

    /// Reading the symbol `c` found at `position`: the preparation, then
    /// the operator or the literal.
    pub open spec fn feed(self, c: char, position: usize) -> Result<Build, CompileError> {
        self.prepared(c).feed_ready(c, position)
    }

    /// The operator or the literal `c`, once the preparation is made. A
    /// repetition needs a row to replace and a counter to set back; the
    /// wildcard itself is passed over.
    pub open spec fn feed_ready(self, c: char, position: usize) -> Result<Build, CompileError> {
        if c == '|' {
            if self.rows.len() >= usize::MAX {
                Err(CompileError::TooManyStates)
            } else {
                Ok(self.alternation())
            }
        } else if c == '+' {
            if self.rows.len() == 0 || self.next < 1 {
                Err(CompileError::NothingToRepeat { position })
            } else {
                Ok(self.plus())
            }
        } else if c == '*' {
            if self.rows.len() == 0 || self.next < 2 {
                Err(CompileError::NothingToRepeat { position })
            } else if self.next - 2 + self.alphabet.len() > usize::MAX {
                Err(CompileError::TooManyStates)
            } else {
                Ok(self.star())
            }
        } else if c != WILDCARD {
            if self.next >= usize::MAX {
                Err(CompileError::TooManyStates)
            } else {
                Ok(self.literal(c))
            }
        } else {
            Ok(self)
        }
    }

    /// The cell in column `n` of `row` once the table is sealed: a cell
    /// that is not the row's last and still points at the reject state
    /// takes the target of the last pending patch for its symbol.
    pub open spec fn sealed_cell(self, row: Seq<usize>, n: int) -> usize {
        if n + 1 < row.len() && n < self.alphabet.len() && row[n] == 1 {
            match last_patch(self.pending, self.alphabet[n], self.pending.len() as int) {
                Some(target) => target,
                None => 1,
            }
        } else {
            row[n]
        }
    }

    /// Row `r` once the table is sealed.
    pub open spec fn sealed_row(self, r: int) -> Seq<usize> {
        Seq::new(self.rows[r].len(), |n: int| self.sealed_cell(self.rows[r], n))
    }

    /// The sealed table: every row with its pending patches settled, then
    /// one row that only leads to the final state.
    pub open spec fn sealed_rows(self) -> Seq<Seq<usize>> {
        Seq::new(self.rows.len(), |r: int| self.sealed_row(r)).push(
            Seq::new(self.alphabet.len(), |n: int| self.final_state),
        )
    }
}

/// The construction state after the first `upto` symbols of `pattern`.
pub open spec fn build_upto(pattern: Seq<char>, upto: int) -> Result<Build, CompileError>
    decreases upto,
{
    if upto <= 0 {
        Ok(Build::start(pattern))
    } else {
        match build_upto(pattern, upto - 1) {
            Ok(build) => build.feed(pattern[upto - 1], (upto - 1) as usize),
            Err(e) => Err(e),
        }
    }
}

/// What a pattern compiles to: the construction state after its last
/// symbol, or the first fault met on the way.
pub open spec fn compiled(pattern: Seq<char>) -> Result<Build, CompileError> {
    if pattern.len() == 0 {
        Err(CompileError::EmptyPattern)
    } else if literal_count(pattern, pattern.len() as int) >= usize::MAX {
        Err(CompileError::TooManyStates)
    } else {
        build_upto(pattern, pattern.len() as int)
    }
}

/// The rows of a table as sequences.
pub open spec fn table(rows: Seq<Vec<usize>>) -> Seq<Seq<usize>> {
    Seq::new(rows.len(), |r: int| rows[r]@)
}

/// Whether `automaton` is the sealed form of `build`.
pub open spec fn seals(build: Build, automaton: DFA) -> bool {
    &&& automaton.alphabet@ == build.alphabet
    &&& automaton.start == 1
    &&& automaton.accept@ == build.accept
    &&& table(automaton.transitions@) == build.sealed_rows()
}

/// Whether each symbol of `sorted` is below the one after it.
pub open spec fn ascending(sorted: Seq<char>) -> bool {
    forall|i: int, j: int| 0 <= i < j < sorted.len() ==> sorted[i] < sorted[j]
}

/// The slot of `c` lies behind every symbol below `c` and before every
/// other symbol from `from` on.
pub proof fn slot_from_bounds(sorted: Seq<char>, c: char, from: int)
    requires
        0 <= from <= sorted.len(),
    ensures
        from <= slot_from(sorted, c, from) <= sorted.len(),
        forall|i: int| from <= i < slot_from(sorted, c, from) ==> sorted[i] < c,
        slot_from(sorted, c, from) < sorted.len() ==> sorted[slot_from(sorted, c, from)] >= c,
    decreases sorted.len() - from,
{
    if from < sorted.len() && sorted[from] < c {
        slot_from_bounds(sorted, c, from + 1);
    }
}

/// Putting a symbol in its place keeps the order, and adds that symbol
/// and no other.
pub proof fn with_symbol_ascends(sorted: Seq<char>, c: char)
    requires
        ascending(sorted),
    ensures
        ascending(with_symbol(sorted, c)),
        forall|x: char| with_symbol(sorted, c).contains(x) <==> (sorted.contains(x) || x == c),
{
    slot_from_bounds(sorted, c, 0);
    let slot = slot_from(sorted, c, 0);
    let grown = with_symbol(sorted, c);
    if slot < sorted.len() && sorted[slot] == c {
        assert(sorted.contains(c));
    } else {
        sorted.insert_ensures(slot, c);
        assert forall|i: int, j: int| 0 <= i < j < grown.len() implies grown[i] < grown[j] by {
            if i > slot {
                assert(grown[i] == sorted[i - 1]);
            }
            if j > slot {
                assert(grown[j] == sorted[j - 1]);
            }
        }
        assert forall|x: char| grown.contains(x) <==> (sorted.contains(x) || x == c) by {
            if grown.contains(x) {
                let i = choose|i: int| 0 <= i < grown.len() && grown[i] == x;
                if i < slot {
                    assert(sorted[i] == x);
                } else if i > slot {
                    assert(sorted[i - 1] == x);
                }
            }
            if sorted.contains(x) {
                let i = choose|i: int| 0 <= i < sorted.len() && sorted[i] == x;
                if i < slot {
                    assert(grown[i] == x);
                } else {
                    assert(grown[i + 1] == x);
                }
            }
            if x == c {
                assert(grown[slot] == x);
            }
        }
    }
}

/// The literals of a pattern stand in ascending order, each once, and
/// they are the symbols of the pattern that are no operators.
pub proof fn literals_ascend(pattern: Seq<char>, upto: int)
    requires
        0 <= upto <= pattern.len(),
    ensures
        ascending(literals(pattern, upto)),
        forall|x: char|
            literals(pattern, upto).contains(x) <==> (!is_operator(x) && exists|k: int|
                0 <= k < upto && pattern[k] == x),
    decreases upto,
{
    if upto > 0 {
        literals_ascend(pattern, upto - 1);
        let before = literals(pattern, upto - 1);
        let c = pattern[upto - 1];
        if !is_operator(c) {
            with_symbol_ascends(before, c);
        }
        assert forall|x: char|
            literals(pattern, upto).contains(x) <==> (!is_operator(x) && exists|k: int|
                0 <= k < upto && pattern[k] == x) by {
            if !is_operator(x) && exists|k: int| 0 <= k < upto && pattern[k] == x {
                let k = choose|k: int| 0 <= k < upto && pattern[k] == x;
                if k < upto - 1 {
                    assert(before.contains(x));
                }
            }
            if literals(pattern, upto).contains(x) {
                if before.contains(x) {
                    let k = choose|k: int| 0 <= k < upto - 1 && pattern[k] == x;
                    assert(0 <= k < upto && pattern[k] == x);
                } else {
                    assert(pattern[upto - 1] == x);
                }
            }
        }
    }
}

/// Whether every row of `build` has one cell per symbol.
pub open spec fn uniform(build: Build) -> bool {
    forall|r: int| 0 <= r < build.rows.len() ==> (#[trigger] build.rows[r]).len() == build.alphabet.len()
}

/// A star's row has one cell for each column laid out.
pub proof fn star_scan_width(build: Build, upto: int)
    requires
        0 <= upto,
    ensures
        build.star_scan(upto).row.len() == upto,
    decreases upto,
{
    if upto > 0 {
        star_scan_width(build, upto - 1);
    }
}

/// Reading a symbol keeps the alphabet and keeps every row at one cell
/// per symbol.
pub proof fn feed_keeps_width(build: Build, c: char, position: usize)
    requires
        uniform(build),
    ensures
        match build.feed(c, position) {
            Ok(next) => uniform(next) && next.alphabet == build.alphabet,
            Err(_) => true,
        },
{
    let ready = build.prepared(c);
    assert(uniform(ready)) by {
        assert forall|r: int| 0 <= r < ready.rows.len() implies (#[trigger] ready.rows[r]).len()
            == ready.alphabet.len() by {
            assert(build.rows[r].len() == build.alphabet.len());
        }
    }
    star_scan_width(ready, ready.alphabet.len() as int);
    match ready.feed_ready(c, position) {
        Ok(next) => {
            assert forall|r: int| 0 <= r < next.rows.len() implies (#[trigger] next.rows[r]).len()
                == next.alphabet.len() by {
                if r < ready.rows.len() {
                    assert(ready.rows[r].len() == ready.alphabet.len());
                }
            }
        },
        Err(_) => {},
    }
}

/// While a pattern is read, every row has one cell per symbol of the
/// pattern's alphabet.
pub proof fn build_keeps_width(pattern: Seq<char>, upto: int)
    requires
        0 <= upto,
    ensures
        match build_upto(pattern, upto) {
            Ok(build) => uniform(build) && build.alphabet == alphabet_of(pattern),
            Err(_) => true,
        },
    decreases upto,
{
    if upto > 0 {
        build_keeps_width(pattern, upto - 1);
        match build_upto(pattern, upto - 1) {
            Ok(build) => {
                feed_keeps_width(build, pattern[upto - 1], (upto - 1) as usize);
            },
            Err(_) => {},
        }
    }
}

/// Every row of a sealed table has one cell per symbol of the pattern's
/// alphabet: whatever else the check may find in a compiled table, its
/// shape is right.
pub proof fn sealed_rows_fit(pattern: Seq<char>)
    requires
        compiled(pattern) is Ok,
    ensures
        forall|r: int|
            0 <= r < compiled(pattern).unwrap().sealed_rows().len() ==> (
            #[trigger] compiled(pattern).unwrap().sealed_rows()[r]).len() == alphabet_of(pattern).len(),
{
    build_keeps_width(pattern, pattern.len() as int);
    let build = compiled(pattern).unwrap();
    assert forall|r: int| 0 <= r < build.sealed_rows().len() implies (
    #[trigger] build.sealed_rows()[r]).len() == alphabet_of(pattern).len() by {
        if r < build.rows.len() {
            assert(build.rows[r].len() == build.alphabet.len());
        }
    }
}

} // verus!
