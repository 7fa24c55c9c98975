//! The builder that reads a pattern symbol by symbol and seals the table.

use vstd::prelude::*;
use crate::dfa::DFA;
use crate::regex::{
    alphabet_of, build_upto, compiled, first_patch, last_patch, literal_count, literals, seals,
    slot_from, table, Build, CompileError, Patch,
};
use crate::symbols::WILDCARD;

verus! {

/// The construction state of a table that is still being built.
#[derive(Debug)]
pub struct Builder {
    /// The pattern's literals in ascending order, then the wildcard.
    pub alphabet: Vec<char>,
    /// The state that the last row will lead to.
    pub final_state: usize,
    /// The rows built so far.
    pub rows: Vec<Vec<usize>>,
    /// The accepting states so far.
    pub accept: Vec<usize>,
    /// The state that the next literal leads to.
    pub next_state: usize,
    /// The forward references recorded so far; never empty.
    pub pending: Vec<Patch>,
    /// The symbol that steers how the next one is read.
    pub last_char: char,
}

impl View for Builder {
    type V = Build;

    open spec fn view(&self) -> Build {
        Build {
            alphabet: self.alphabet@,
            final_state: self.final_state,
            rows: table(self.rows@),
            accept: self.accept@,
            next: self.next_state,
            pending: self.pending@,
            last: self.last_char,
        }
    }
}

/// The alphabet of `pattern`.
pub fn pattern_alphabet(pattern: &str) -> (alphabet: Vec<char>)
    ensures
        alphabet@ == alphabet_of(pattern@),
{
    let len: usize = pattern.unicode_len();
    let mut sorted: Vec<char> = Vec::new();
    let mut i: usize = 0;
    while i < len
        invariant
            len == pattern@.len(),
            i <= len,
            sorted@ == literals(pattern@, i as int),
        decreases len - i,
    {
        let c: char = pattern.get_char(i);
        if !(c == '|' || c == '+' || c == '*') {
            let mut slot: usize = 0;
            while slot < sorted.len() && sorted[slot] < c
                invariant
                    slot <= sorted@.len(),
                    slot_from(sorted@, c, 0) == slot_from(sorted@, c, slot as int),
                decreases sorted@.len() - slot,
            {
                slot += 1;
            }
            if !(slot < sorted.len() && sorted[slot] == c) {
                sorted.insert(slot, c);
            }
        }
        i += 1;
    }
    sorted.push(WILDCARD);
    sorted
}

/// How many symbols of `pattern` are literals.
pub fn count_literals(pattern: &str) -> (count: usize)
    ensures
        count == literal_count(pattern@, pattern@.len() as int),
{
    let len: usize = pattern.unicode_len();
    let mut count: usize = 0;
    let mut i: usize = 0;
    while i < len
        invariant
            len == pattern@.len(),
            i <= len,
            count <= i,
            count == literal_count(pattern@, i as int),
        decreases len - i,
    {
        let c: char = pattern.get_char(i);
        if !(c == '|' || c == '+' || c == '*') {
            count += 1;
        }
        i += 1;
    }
    count
}

/// The target of the first pending patch for `symbol`, if there is one.
pub fn find_first_patch(pending: &Vec<Patch>, symbol: char) -> (found: Option<usize>)
    ensures
        found == first_patch(pending@, symbol, 0),
{
    let mut j: usize = 0;
    while j < pending.len()
        invariant
            j <= pending@.len(),
            first_patch(pending@, symbol, 0) == first_patch(pending@, symbol, j as int),
        decreases pending@.len() - j,
    {
        if pending[j].symbol == symbol {
            return Some(pending[j].target);
        }
        j += 1;
    }
    None
}

/// The target of the last pending patch for `symbol`, if there is one.
pub fn find_patch(pending: &Vec<Patch>, symbol: char) -> (found: Option<usize>)
    ensures
        found == last_patch(pending@, symbol, pending@.len() as int),
{
    let mut j: usize = pending.len();
    while j > 0
        invariant
            j <= pending@.len(),
            last_patch(pending@, symbol, pending@.len() as int) == last_patch(
                pending@,
                symbol,
                j as int,
            ),
        decreases j,
    {
        if pending[j - 1].symbol == symbol {
            return Some(pending[j - 1].target);
        }
        j -= 1;
    }
    None
}

impl Builder {
    /// Starts a table for `pattern`: no row yet, the final state counted
    /// from the pattern's literals, and one pending patch that leads the
    /// pattern's first symbol to state 2.
    pub fn new(pattern: &str) -> (result: Result<Builder, CompileError>)
        ensures
            result matches Ok(builder) ==> compiled(pattern@) == build_upto(
                pattern@,
                pattern@.len() as int,
            ) && builder@ == Build::start(pattern@) && builder.pending@.len() > 0,
            result matches Err(e) ==> compiled(pattern@) == Err::<Build, CompileError>(e) && !(e
                is Malformed),
    {
        if pattern.unicode_len() == 0 {
            return Err(CompileError::EmptyPattern);
        }
        let count: usize = count_literals(pattern);
        if count == usize::MAX {
            return Err(CompileError::TooManyStates);
        }
        let first: char = pattern.get_char(0);
        let final_state: usize = count + 1;
        let mut accept: Vec<usize> = Vec::new();
        accept.push(final_state);
        let mut pending: Vec<Patch> = Vec::new();
        pending.push(Patch { symbol: first, target: 2 });
        let builder = Builder {
            alphabet: pattern_alphabet(pattern),
            final_state,
            rows: Vec::new(),
            accept,
            next_state: 2,
            pending,
            last_char: first,
        };
        proof {
            assert(builder@.rows =~= Build::start(pattern@).rows);
            assert(builder@.accept =~= Build::start(pattern@).accept);
            assert(builder@.pending =~= Build::start(pattern@).pending);
        }
        Ok(builder)
    }

    /// Lays out the row of literal `c`.
    pub fn literal_row(&self, c: char) -> (row: Vec<usize>)
        ensures
            row@ == self@.literal_row(c),
    {
        let mut row: Vec<usize> = Vec::new();
        let mut n: usize = 0;
        while n < self.alphabet.len()
            invariant
                n <= self.alphabet@.len(),
                row@.len() == n,
                forall|j: int| 0 <= j < n ==> row@[j] == self@.literal_row(c)[j],
            decreases self.alphabet@.len() - n,
        {
            let a: char = self.alphabet[n];
            if a == c {
                row.push(self.next_state);
            } else {
                match find_first_patch(&self.pending, a) {
                    Some(target) => row.push(target),
                    None => row.push(1),
                }
            }
            n += 1;
        }
        assert(row@ =~= self@.literal_row(c));
        row
    }

    /// The first row with the column of `c` pointed at the next state.
    pub fn branch_row(&self, c: char) -> (row: Vec<usize>)
        requires
            self.rows@.len() > 0,
        ensures
            row@ == self@.branch_row(c),
    {
        let mut row: Vec<usize> = Vec::new();
        let width: usize = self.rows[0].len();
        let mut n: usize = 0;
        while n < width
            invariant
                self.rows@.len() > 0,
                width == self.rows@[0]@.len(),
                n <= width,
                row@.len() == n,
                forall|j: int| 0 <= j < n ==> row@[j] == self@.branch_row(c)[j],
            decreases width - n,
        {
            if n < self.alphabet.len() && self.alphabet[n] == c {
                row.push(self.next_state);
            } else {
                row.push(self.rows[0][n]);
            }
            n += 1;
        }
        assert(row@ =~= self@.branch_row(c));
        row
    }

    /// What reading any symbol does first: after an alternation, point the
    /// first row at the next state under `c`; after an alternation or a
    /// star, record a patch for `c`.
    pub fn prepare(&mut self, c: char)
        ensures
            final(self)@ == old(self)@.prepared(c),
            final(self).pending@.len() >= old(self).pending@.len(),
    {
        if self.last_char == '|' {
            if self.rows.len() > 0 {
                let row = self.branch_row(c);
                self.rows.set(0, row);
            }
            self.pending.push(Patch { symbol: c, target: self.next_state });
            assert(self@.rows =~= old(self)@.prepared(c).rows);
        } else if self.last_char == '*' {
            self.pending.push(Patch { symbol: c, target: self.next_state });
        }
    }

    /// Reads the literal `c`: its row is appended, unless it closes a
    /// branch, and the state counter moves on by one.
    pub fn apply_literal(&mut self, c: char)
        requires
            old(self).next_state < usize::MAX,
        ensures
            final(self)@ == old(self)@.literal(c),
            final(self).pending@ == old(self).pending@,
    {
        let row = self.literal_row(c);
        if self.last_char != '|' {
            self.rows.push(row);
        }
        self.next_state = self.next_state + 1;
        self.last_char = c;
        assert(self@.rows =~= old(self)@.literal(c).rows);
    }

    /// Reads an alternation: a new row that only leads to itself becomes
    /// one more accepting state, and the next literal closes the branch.
    pub fn apply_alternation(&mut self)
        requires
            old(self).rows@.len() < usize::MAX,
        ensures
            final(self)@ == old(self)@.alternation(),
            final(self).pending@ == old(self).pending@,
    {
        let state: usize = self.rows.len() + 1;
        let mut row: Vec<usize> = Vec::new();
        let mut n: usize = 0;
        while n < self.alphabet.len()
            invariant
                n <= self.alphabet@.len(),
                row@.len() == n,
                forall|j: int| 0 <= j < n ==> row@[j] == state,
            decreases self.alphabet@.len() - n,
        {
            row.push(state);
            n += 1;
        }
        assert(row@ =~= Seq::new(self.alphabet@.len(), |n: int| state));
        self.accept.push(state);
        self.rows.push(row);
        self.last_char = '|';
        assert(self@.rows =~= old(self)@.alternation().rows);
    }

    /// Lays out the row that a plus puts in place of the last one.
    pub fn plus_row(&self) -> (row: Vec<usize>)
        requires
            self.next_state >= 1,
        ensures
            row@ == self@.plus_row(),
    {
        let mut row: Vec<usize> = Vec::new();
        let mut n: usize = 0;
        while n < self.alphabet.len()
            invariant
                self.next_state >= 1,
                n <= self.alphabet@.len(),
                row@.len() == n,
                forall|j: int| 0 <= j < n ==> row@[j] == self@.plus_row()[j],
            decreases self.alphabet@.len() - n,
        {
            let a: char = self.alphabet[n];
            if a == self.last_char {
                row.push(self.next_state - 1);
            } else {
                match find_first_patch(&self.pending, a) {
                    Some(target) => row.push(target),
                    None => row.push(1),
                }
            }
            n += 1;
        }
        assert(row@ =~= self@.plus_row());
        row
    }

    /// Reads a plus: the last row is replaced by one in which the repeated
    /// symbol leads to the state before.
    pub fn apply_plus(&mut self)
        requires
            old(self).rows@.len() > 0,
            old(self).next_state >= 1,
        ensures
            final(self)@ == old(self)@.plus(),
            final(self).pending@ == old(self).pending@,
    {
        let row = self.plus_row();
        self.rows.pop();
        self.rows.push(row);
        assert(self@.rows =~= old(self)@.plus().rows);
    }

    /// Lays out a star's row and gives the state counter that it ends on.
    pub fn star_row(&self) -> (scan: (Vec<usize>, usize))
        requires
            self.next_state >= 2,
            self.next_state - 2 + self.alphabet@.len() <= usize::MAX,
            self.pending@.len() > 0,
        ensures
            scan.0@ == self@.star_scan(self.alphabet@.len() as int).row,
            scan.1 == self@.star_scan(self.alphabet@.len() as int).next,
    {
        let mut row: Vec<usize> = Vec::new();
        let mut next: usize = self.next_state - 2;
        let mut stepped: bool = false;
        let mut k: usize = 0;
        while k < self.alphabet.len()
            invariant
                self.next_state >= 2,
                self.next_state - 2 + self.alphabet@.len() <= usize::MAX,
                self.pending@.len() > 0,
                k <= self.alphabet@.len(),
                next <= self.next_state - 2 + k,
                row@ == self@.star_scan(k as int).row,
                next == self@.star_scan(k as int).next,
                stepped == self@.star_scan(k as int).stepped,
            decreases self.alphabet@.len() - k,
        {
            let a: char = self.alphabet[k];
            if a == self.last_char {
                next = next + 1;
                row.push(next);
            } else if a == WILDCARD {
                row.push(1);
            } else if a == self.pending[0].symbol {
                row.push(self.pending[0].target);
            } else if !stepped {
                next = next + 1;
                row.push(next);
                stepped = true;
            } else {
                row.push(1);
            }
            k += 1;
        }
        (row, next)
    }

    /// Reads a star: the last row is replaced by the star's row, and the
    /// state counter ends where that row left it.
    pub fn apply_star(&mut self)
        requires
            old(self).rows@.len() > 0,
            old(self).next_state >= 2,
            old(self).next_state - 2 + old(self).alphabet@.len() <= usize::MAX,
            old(self).pending@.len() > 0,
        ensures
            final(self)@ == old(self)@.star(),
            final(self).pending@ == old(self).pending@,
    {
        let scan = self.star_row();
        self.rows.pop();
        self.rows.push(scan.0);
        self.next_state = scan.1;
        self.last_char = '*';
        assert(self@.rows =~= old(self)@.star().rows);
    }

    /// Reads the symbol `c` found at `position`. On a fault the builder is
    /// left as the preparation made it.
    pub fn feed(&mut self, c: char, position: usize) -> (result: Result<(), CompileError>)
        requires
            old(self).pending@.len() > 0,
        ensures
            result is Ok ==> old(self)@.feed(c, position) == Ok::<Build, CompileError>(final(self)@)
                && final(self).pending@.len() > 0,
            result matches Err(e) ==> old(self)@.feed(c, position) == Err::<Build, CompileError>(e)
                && !(e is Malformed) && final(self)@ == old(self)@.prepared(c),
    {
        self.prepare(c);
        if c == '|' {
            if self.rows.len() == usize::MAX {
                return Err(CompileError::TooManyStates);
            }
            self.apply_alternation();
        } else if c == '+' {
            if self.rows.len() == 0 || self.next_state < 1 {
                return Err(CompileError::NothingToRepeat { position });
            }
            self.apply_plus();
        } else if c == '*' {
            if self.rows.len() == 0 || self.next_state < 2 {
                return Err(CompileError::NothingToRepeat { position });
            }
            if self.next_state - 2 > usize::MAX - self.alphabet.len() {
                return Err(CompileError::TooManyStates);
            }
            self.apply_star();
        } else if c != WILDCARD {
            if self.next_state == usize::MAX {
                return Err(CompileError::TooManyStates);
            }
            self.apply_literal(c);
        }
        Ok(())
    }

    /// Row `r` with its pending patches settled.
    pub fn sealed_row(&self, r: usize) -> (row: Vec<usize>)
        requires
            r < self.rows@.len(),
        ensures
            row@ == self@.sealed_row(r as int),
    {
        let mut row: Vec<usize> = Vec::new();
        let width: usize = self.rows[r].len();
        let mut n: usize = 0;
        while n < width
            invariant
                r < self.rows@.len(),
                width == self.rows@[r as int]@.len(),
                n <= width,
                row@.len() == n,
                forall|j: int| 0 <= j < n ==> row@[j] == self@.sealed_cell(self@.rows[r as int], j),
            decreases width - n,
        {
            let cell: usize = self.rows[r][n];
            if n < width - 1 && n < self.alphabet.len() && cell == 1 {
                match find_patch(&self.pending, self.alphabet[n]) {
                    Some(target) => row.push(target),
                    None => row.push(1),
                }
            } else {
                row.push(cell);
            }
            n += 1;
        }
        assert(row@ =~= self@.sealed_row(r as int));
        row
    }

    /// Seals the table: settles the pending patches in every row, appends
    /// the row that only leads to the final state, and hands the automaton
    /// over with state 1 as its start.
    pub fn finalize(self) -> (automaton: DFA)
        ensures
            seals(self@, automaton),
    {
        let mut transitions: Vec<Vec<usize>> = Vec::new();
        let mut r: usize = 0;
        while r < self.rows.len()
            invariant
                r <= self.rows@.len(),
                transitions@.len() == r,
                forall|k: int| 0 <= k < r ==> (#[trigger] transitions@[k])@ == self@.sealed_row(k),
            decreases self.rows@.len() - r,
        {
            let row = self.sealed_row(r);
            transitions.push(row);
            r += 1;
        }
        let mut last: Vec<usize> = Vec::new();
        let mut n: usize = 0;
        while n < self.alphabet.len()
            invariant
                n <= self.alphabet@.len(),
                last@.len() == n,
                forall|j: int| 0 <= j < n ==> last@[j] == self.final_state,
            decreases self.alphabet@.len() - n,
        {
            last.push(self.final_state);
            n += 1;
        }
        assert(last@ =~= Seq::new(self.alphabet@.len(), |n: int| self.final_state));
        transitions.push(last);
        assert(table(transitions@) =~= self@.sealed_rows());
        DFA { alphabet: self.alphabet, start: 1, accept: self.accept, transitions }
    }
}

impl DFA {
    /// Compiles `regex` into an automaton: the builder reads the pattern
    /// once, left to right, the table is sealed, and the sealed table is
    /// checked. The result is the sealed form of the construction state
    /// after the last symbol, and it is well-formed. A fault is the first
    /// one met while reading, or else what the check found first.
    pub fn new_from_regex(regex: &str) -> (result: Result<DFA, CompileError>)
        ensures
            result matches Ok(automaton) ==> compiled(regex@) is Ok && seals(
                compiled(regex@).unwrap(),
                automaton,
            ) && automaton.well_formed(),
            result matches Err(e) ==> (e is Malformed ==> compiled(regex@) is Ok && exists|
                automaton: DFA,
            |
                seals(compiled(regex@).unwrap(), automaton) && #[trigger] automaton.first_violation(
                    e->fault,
                )) && (!(e is Malformed) ==> compiled(regex@) == Err::<Build, CompileError>(e)),
    {
        let mut builder = match Builder::new(regex) {
            Ok(builder) => builder,
            Err(e) => {
                return Err(e);
            },
        };
        let len: usize = regex.unicode_len();
        let mut i: usize = 0;
        while i < len
            invariant
                len == regex@.len(),
                i <= len,
                builder.pending@.len() > 0,
                build_upto(regex@, i as int) == Ok::<Build, CompileError>(builder@),
                compiled(regex@) == build_upto(regex@, len as int),
            decreases len - i,
        {
            let c: char = regex.get_char(i);
            match builder.feed(c, i) {
                Ok(_) => {},
                Err(e) => {
                    proof {
                        build_fault_stays(regex@, i + 1, len as int);
                    }
                    return Err(e);
                },
            }
            i += 1;
        }
        let automaton = builder.finalize();
        match automaton.validate() {
            Ok(_) => Ok(automaton),
            Err(fault) => Err(CompileError::Malformed { fault }),
        }
    }
}

/// Once reading has met a fault, reading on does not change it.
pub proof fn build_fault_stays(pattern: Seq<char>, at: int, upto: int)
    requires
        0 <= at <= upto,
        build_upto(pattern, at) is Err,
    ensures
        build_upto(pattern, upto) == build_upto(pattern, at),
    decreases upto - at,
{
    if at < upto {
        build_fault_stays(pattern, at, upto - 1);
    }
}

} // verus!
