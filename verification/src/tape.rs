//! An unbounded two-way tape with a head that moves, reads and writes.

use crate::automaton_components::{MoveDirection, Symbol};
use std::collections::VecDeque;
use vstd::prelude::*;
use vstd::std_specs::iter::IteratorSpec;

verus! {

/// What a `Tape` is: the cells that have been materialised so far, leftmost
/// first, and the offset of the head among them. Every cell outside this span
/// is blank.
pub struct TapeView {
    pub cells: Seq<Symbol>,
    pub head: nat,
}

impl TapeView {
    /// The head is on a materialised cell, or no cell has been materialised yet.
    pub open spec fn wf(self) -> bool {
        self.head < self.cells.len() || (self.head == 0 && self.cells.len() == 0)
    }

    /// The head is on a materialised cell.
    pub open spec fn head_in_span(self) -> bool {
        self.head < self.cells.len()
    }

    /// The tape has just been loaded with `contents`: one cell per character,
    /// in order, and the head on the leftmost.
    pub open spec fn loaded_with(self, contents: Seq<char>) -> bool {
        &&& self.head == 0
        &&& self.cells.len() == contents.len()
        &&& forall|i: int| 0 <= i < contents.len() ==> self.cells[i] == Symbol::Is(contents[i])
    }

    /// The symbol under the head.
    pub open spec fn read(self) -> Symbol
        recommends
            self.head_in_span(),
    {
        self.cells[self.head as int]
    }

    /// The tape after `symbol` has been written under the head.
    pub open spec fn write(self, symbol: Symbol) -> TapeView
        recommends
            self.head_in_span(),
    {
        TapeView { cells: self.cells.update(self.head as int, symbol), head: self.head }
    }

    /// The tape after the head has moved one cell to the left. At the left end
    /// of the span a blank cell is materialised for it to stand on.
    pub open spec fn left(self) -> TapeView {
        if self.head == 0 {
            TapeView { cells: seq![Symbol::Blank] + self.cells, head: 0 }
        } else {
            TapeView { cells: self.cells, head: (self.head - 1) as nat }
        }
    }

    /// The tape after the head has moved one cell to the right. At the right
    /// end of the span a blank cell is materialised for it to stand on; where
    /// no cell exists yet, the one that the head leaves is materialised too.
    pub open spec fn right(self) -> TapeView {
        let under = if self.cells.len() == 0 {
            seq![Symbol::Blank]
        } else {
            self.cells
        };
        let cells = if self.head + 1 == under.len() {
            under.push(Symbol::Blank)
        } else {
            under
        };
        TapeView { cells, head: self.head + 1 }
    }

    /// The tape after the head has moved as `direction` says.
    pub open spec fn moved(self, direction: MoveDirection) -> TapeView {
        match direction {
            MoveDirection::Left => self.left(),
            MoveDirection::Right => self.right(),
            MoveDirection::Stay => self,
        }
    }

    /// The characters on the tape from left to right, blank cells left out.
    pub open spec fn output(self) -> Seq<char> {
        self.cells.filter_map(|symbol: Symbol| symbol.spec_to_option())
    }

    /// The symbol that is `offset` cells to the right of the head (to the left,
    /// where `offset` is negative), on the unbounded tape: a cell that has
    /// not been materialised is blank.
    pub open spec fn symbol_at(self, offset: int) -> Symbol {
        if 0 <= self.head + offset < self.cells.len() {
            self.cells[self.head + offset]
        } else {
            Symbol::Blank
        }
    }
}

/// A tape that has just been loaded with a string exports that string: no
/// cell of it is blank, so nothing is left out.
pub proof fn lemma_loaded_tape_output(tape: TapeView, contents: Seq<char>)
    requires
        tape.loaded_with(contents),
    ensures
        tape.output() == contents,
    decreases contents.len(),
{
    if contents.len() == 0 {
        assert(tape.output() =~= contents);
    } else {
        let shorter = TapeView { cells: tape.cells.drop_last(), head: 0 };
        lemma_loaded_tape_output(shorter, contents.drop_last());
        assert(tape.cells.last() == Symbol::Is(contents.last()));
        assert(tape.output() =~= contents);
    }
}

/// Moving the head changes where the head stands and nothing else: the cells
/// of the unbounded tape are as they were, one step further from the head or
/// one step nearer, and the head ends on a materialised cell.
pub proof fn lemma_moves_shift_the_tape(tape: TapeView, offset: int)
    requires
        tape.wf(),
    ensures
        tape.left().symbol_at(offset) == tape.symbol_at(offset - 1),
        tape.right().symbol_at(offset) == tape.symbol_at(offset + 1),
        tape.left().wf() && tape.left().head_in_span(),
        tape.right().wf() && tape.right().head_in_span(),
{
}

/// The cells that a move materialises are blank, so a move changes nothing in
/// what is exported.
pub proof fn lemma_moves_keep_the_output(tape: TapeView)
    requires
        tape.wf(),
    ensures
        tape.left().output() == tape.output(),
        tape.right().output() == tape.output(),
{
    if tape.head == 0 {
        lemma_output_skips_leading_blank(tape.cells);
    }
    if tape.cells.len() == 0 {
        assert(tape.right().cells =~= seq![Symbol::Blank] + seq![Symbol::Blank]);
        assert(seq![Symbol::Blank] =~= seq![Symbol::Blank] + tape.cells);
        lemma_output_skips_leading_blank(seq![Symbol::Blank]);
        lemma_output_skips_leading_blank(tape.cells);
    } else if tape.head + 1 == tape.cells.len() {
        assert(tape.right().cells.drop_last() =~= tape.cells);
    }
}

/// The span never shrinks: a move keeps every cell that has been materialised
/// and adds what the head needs to stand on, and a write keeps the span as
/// long as it is, also where it writes a blank.
pub proof fn lemma_span_never_shrinks(tape: TapeView, symbol: Symbol)
    requires
        tape.wf(),
    ensures
        tape.cells.len() <= tape.left().cells.len() <= tape.cells.len() + 1,
        tape.cells.len() <= tape.right().cells.len() <= tape.cells.len() + 2,
        tape.head_in_span() ==> tape.right().cells.len() <= tape.cells.len() + 1,
        tape.head_in_span() ==> tape.write(symbol).cells.len() == tape.cells.len(),
{
}

/// Writing changes the cell under the head and no other.
pub proof fn lemma_write_changes_one_cell(tape: TapeView, symbol: Symbol, offset: int)
    requires
        tape.head_in_span(),
    ensures
        tape.write(symbol).symbol_at(offset) == if offset == 0 {
            symbol
        } else {
            tape.symbol_at(offset)
        },
        tape.write(symbol).read() == symbol,
        tape.write(symbol).head_in_span(),
{
}

/// Stepping left and then right again brings the head back to the cell it
/// started on, with every cell of the unbounded tape as it was. From the left
/// end of the span the only trace is the blank cell that the head stood on in
/// between, which the export leaves out; elsewhere the tape is unchanged.
pub proof fn lemma_left_then_right(tape: TapeView)
    requires
        tape.wf(),
    ensures
        forall|offset: int| tape.left().right().symbol_at(offset) == tape.symbol_at(offset),
        tape.left().right().output() == tape.output(),
        tape.head_in_span() ==> tape.left().right().read() == tape.read(),
        tape.head_in_span() && tape.head == 0 ==> tape.left().right() == (TapeView {
            cells: seq![Symbol::Blank] + tape.cells,
            head: 1,
        }),
        tape.head > 0 ==> tape.left().right() == tape,
{
    lemma_moves_keep_the_output(tape);
    lemma_moves_keep_the_output(tape.left());
    assert forall|offset: int| tape.left().right().symbol_at(offset) == tape.symbol_at(offset) by {
        lemma_moves_shift_the_tape(tape.left(), offset);
        lemma_moves_shift_the_tape(tape, offset + 1);
    }
    if tape.head > 0 {
        assert(tape.left().right().cells =~= tape.cells);
    } else if tape.head_in_span() {
        assert(tape.left().right().cells =~= seq![Symbol::Blank] + tape.cells);
    }
}

/// A blank cell in front of the others adds nothing to what is exported.
proof fn lemma_output_skips_leading_blank(cells: Seq<Symbol>)
    ensures
        (TapeView { cells: seq![Symbol::Blank] + cells, head: 0 }).output() == (TapeView {
            cells,
            head: 0,
        }).output(),
    decreases cells.len(),
{
    let grown = seq![Symbol::Blank] + cells;
    if cells.len() == 0 {
        assert(grown.drop_last() =~= cells);
    } else {
        lemma_output_skips_leading_blank(cells.drop_last());
        assert(grown.drop_last() =~= seq![Symbol::Blank] + cells.drop_last());
        assert(grown.last() == cells.last());
    }
}

/// An unbounded tape with a head which can move, read and write.
///
/// Only the span of cells that the head has visited is stored, in a `VecDeque`
/// that grows by one blank cell when the head steps past either end.
pub struct Tape {
    array: VecDeque<Symbol>,
    position: usize,
}

impl View for Tape {
    type V = TapeView;

    closed spec fn view(&self) -> TapeView {
        TapeView { cells: self.array@, head: self.position as nat }
    }
}

impl Tape {
    /// A tape is valid when its head is on a stored cell or it stores no cell.
    pub open spec fn wf(&self) -> bool {
        self@.wf()
    }

    /// Creates a tape whose cells hold the characters of `contents`, with the
    /// head on the leftmost of them.
    pub fn new(contents: &str) -> (tape: Tape)
        ensures
            tape.wf(),
            tape@.loaded_with(contents@),
            tape@.output() == contents@,
    {
        let mut array: VecDeque<Symbol> = VecDeque::new();
        let mut chars = contents.chars();
        loop
            invariant
                chars.decrease() is Some,
                array@.len() + chars.remaining().len() == contents@.len(),
                forall|i: int| 0 <= i < array@.len() ==> array@[i] == Symbol::Is(contents@[i]),
                forall|i: int|
                    0 <= i < chars.remaining().len() ==> chars.remaining()[i] == contents@[
                        array@.len() + i],
            ensures
                array@.len() == contents@.len(),
                forall|i: int| 0 <= i < array@.len() ==> array@[i] == Symbol::Is(contents@[i]),
            decreases chars.decrease()->0,
        {
            let next = chars.next();
            if next.is_none() {
                break ;
            }
            array.push_back(Symbol::from_option(next));
        }
        let tape = Tape { array, position: 0 };
        proof {
            lemma_loaded_tape_output(tape@, contents@);
        }
        tape
    }

    /// Whether the head is on a stored cell, so that it can read and write.
    /// It is not on a tape made from the empty string, until the head moves.
    pub fn head_in_span(&self) -> (within: bool)
        ensures
            within == self@.head_in_span(),
    {
        self.position < self.array.len()
    }

    /// Reads the symbol in the cell under the head.
    pub fn read(&self) -> (symbol: Symbol)
        requires
            self@.head_in_span(),
        ensures
            symbol == self@.read(),
    {
        self.array[self.position]
    }

    /// Writes `symbol` to the cell under the head and returns what the cell
    /// held before.
    pub fn write(&mut self, symbol: Symbol) -> (previous: Symbol)
        requires
            old(self)@.head_in_span(),
        ensures
            final(self).wf(),
            previous == old(self)@.read(),
            final(self)@ == old(self)@.write(symbol),
            final(self)@.read() == symbol,
    {
        let cell = cell_mut(&mut self.array, self.position).unwrap();
        let orig = *cell;
        *cell = symbol;
        orig
    }

    /// Moves the head one cell to the left.
    pub fn left(&mut self)
        requires
            old(self).wf(),
        ensures
            final(self).wf(),
            final(self)@.head_in_span(),
            final(self)@ == old(self)@.left(),
    {
        if self.position == 0 {
            self.array.push_front(Symbol::Blank);
        } else {
            self.position -= 1;
        }
    }

    /// Moves the head one cell to the right.
    pub fn right(&mut self)
        requires
            old(self).wf(),
        ensures
            final(self).wf(),
            final(self)@.head_in_span(),
            final(self)@ == old(self)@.right(),
    {
        if self.array.len() == 0 {
            self.array.push_back(Symbol::Blank);
        }
        if self.position == self.array.len() - 1 {
            self.array.push_back(Symbol::Blank);
        }
        self.position += 1;
        assert(self.array@ =~= old(self)@.right().cells);
    }

    /// Leaves the head where it is.
    pub fn stay(&mut self)
        ensures
            *final(self) == *old(self),
    {
    }

    /// Exports the tape as a string: the characters of its cells from left to
    /// right, with every blank cell left out.
    pub fn output_tape(&self) -> (text: String)
        ensures
            text@ == self@.output(),
    {
        let mut text = String::new();
        let mut i: usize = 0;
        while i < self.array.len()
            invariant
                i <= self.array@.len(),
                text@ == (TapeView { cells: self.array@.take(i as int), head: 0 }).output(),
            decreases self.array@.len() - i,
        {
            proof {
                self.array@.lemma_filter_map_take_succ(
                    |symbol: Symbol| symbol.spec_to_option(),
                    i as int,
                );
            }
            match self.array[i].to_option() {
                Some(c) => text.push(c),
                None => {},
            }
            i += 1;
        }
        assert(self.array@.take(i as int) =~= self.array@);
        text
    }

    /// Moves the head as `direction` says.
    pub fn move_head(&mut self, direction: MoveDirection)
        requires
            old(self).wf(),
        ensures
            final(self).wf(),
            final(self)@ == old(self)@.moved(direction),
            direction != MoveDirection::Stay ==> final(self)@.head_in_span(),
    {
        match direction {
            MoveDirection::Left => self.left(),
            MoveDirection::Right => self.right(),
            MoveDirection::Stay => self.stay(),
        };
    }
}

/// `String::push`: the string afterwards is the string before with `ch` added
/// at its end.
pub assume_specification[ String::push ](text: &mut String, ch: char)
    ensures
        final(text)@ == old(text)@.push(ch),
;

/// `VecDeque::get_mut`: a mutable reference to the cell at `index`, counted
/// from the front, or `None` where the deque has no such cell. Whatever is
/// stored through the reference is what the deque then holds at `index`; the
/// other cells stay as they are.
#[verifier::external_body]
fn cell_mut(cells: &mut VecDeque<Symbol>, index: usize) -> (cell: Option<&mut Symbol>)
    ensures
        match cell {
            Some(slot) => {
                &&& index < old(cells)@.len()
                &&& *slot == old(cells)@[index as int]
                &&& final(cells)@ == old(cells)@.update(index as int, *final(slot))
            },
            None => index >= old(cells)@.len() && final(cells)@ == old(cells)@,
        },
{
    cells.get_mut(index)
}

} // verus!
