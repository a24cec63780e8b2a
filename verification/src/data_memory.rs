//! The data memory: a tape of cells and a cursor on it.

use vstd::prelude::*;

verus! {

/// Number of cells of a tape made by [`DataMemory::new`].
pub const DEFAULT_SIZE: usize = 30_000;

/// A move would have taken the data cursor off the tape.
#[derive(Debug, Clone, Copy, PartialEq, Eq, Structural)]
pub struct OutOfBounds {}

/// The value after `value` in the cells' arithmetic: one more, and the
/// smallest value after the largest.
pub open spec fn successor(value: i64) -> i64 {
    if value == i64::MAX {
        i64::MIN
    } else {
        (value + 1) as i64
    }
}

/// The value before `value` in the cells' arithmetic: one less, and the
/// largest value before the smallest.
pub open spec fn predecessor(value: i64) -> i64 {
    if value == i64::MIN {
        i64::MAX
    } else {
        (value - 1) as i64
    }
}

/// What a [`DataMemory`] holds: the cells of the tape and the index of the
/// current one.
pub struct TapeView {
    /// The cells, in order.
    pub cells: Seq<i64>,
    /// The cursor.
    pub position: nat,
}

impl TapeView {
    /// A tape of `size` cells that all hold 0, with the cursor on the first.
    pub open spec fn blank(size: nat) -> TapeView {
        TapeView { cells: Seq::new(size, |i: int| 0i64), position: 0 }
    }

    /// Whether the cursor is on a cell.
    pub open spec fn in_bounds(self) -> bool {
        self.position < self.cells.len()
    }

    /// The value of the current cell.
    pub open spec fn current(self) -> i64
        recommends
            self.in_bounds(),
    {
        self.cells[self.position as int]
    }

    /// The same tape with `value` in the current cell.
    pub open spec fn with_current(self, value: i64) -> TapeView
        recommends
            self.in_bounds(),
    {
        TapeView { cells: self.cells.update(self.position as int, value), position: self.position }
    }

    /// The same tape with the cursor at `position`.
    pub open spec fn at(self, position: nat) -> TapeView {
        TapeView { cells: self.cells, position }
    }

    /// Whether the cell after the cursor is on the tape.
    pub open spec fn has_next(self) -> bool {
        self.position + 1 < self.cells.len()
    }

    /// Whether the cell before the cursor is on the tape.
    pub open spec fn has_previous(self) -> bool {
        0 < self.position <= self.cells.len()
    }
}

/// Represents the memory for data in the Brainfuck state machine.
///
/// The memory is created with all data filled with 0, and with a specific
/// capacity. By default is 30,000 elements of capacity, but it can be created
/// with any other size. Each element in memory is represented with a `i64`.
///
/// The cursor moves one cell at a time and never leaves the tape: a move
/// that would is refused.
#[derive(Debug)]
pub struct DataMemory {
    data: Vec<i64>,
    pointer: usize,
}

impl View for DataMemory {
    type V = TapeView;

    closed spec fn view(&self) -> TapeView {
        TapeView { cells: self.data@, position: self.pointer as nat }
    }
}

impl DataMemory {
    /// Creates the memory with the specific size.
    pub fn new_with_size(size: usize) -> (memory: Self)
        ensures
            memory@ == TapeView::blank(size as nat),
    {
        let memory = Self { data: vec![0_i64; size], pointer: 0 };
        assert(memory.data@ =~= TapeView::blank(size as nat).cells);
        memory
    }

    /// Creates the memory with 30,000 elements of capacity.
    pub fn new() -> (memory: Self)
        ensures
            memory@ == TapeView::blank(DEFAULT_SIZE as nat),
    {
        Self::new_with_size(DEFAULT_SIZE)
    }

    /// Moves the cursor to the next cell, or reports that there is none and
    /// leaves the cursor where it is.
    pub fn next(&mut self) -> (moved: Result<(), OutOfBounds>)
        ensures
            old(self)@.has_next() ==> moved is Ok && final(self)@ == old(self)@.at(
                old(self)@.position + 1,
            ),
            !old(self)@.has_next() ==> moved is Err && final(self)@ == old(self)@,
    {
        if self.pointer < self.data.len() && self.pointer + 1 < self.data.len() {
            self.pointer += 1;
            Ok(())
        } else {
            Err(OutOfBounds {  })
        }
    }

    /// Moves the cursor to the previous cell, or reports that there is none
    /// and leaves the cursor where it is.
    pub fn previous(&mut self) -> (moved: Result<(), OutOfBounds>)
        ensures
            old(self)@.has_previous() ==> moved is Ok && final(self)@ == old(self)@.at(
                (old(self)@.position - 1) as nat,
            ),
            !old(self)@.has_previous() ==> moved is Err && final(self)@ == old(self)@,
    {
        if 0 < self.pointer && self.pointer <= self.data.len() {
            self.pointer -= 1;
            Ok(())
        } else {
            Err(OutOfBounds {  })
        }
    }

    /// Adds one to the current cell, wrapping around at the largest value.
    pub fn increment(&mut self)
        requires
            old(self)@.in_bounds(),
        ensures
            final(self)@ == old(self)@.with_current(successor(old(self)@.current())),
    {
        let value = self.data[self.pointer].wrapping_add(1);
        self.data.set(self.pointer, value);
    }

    /// Takes one from the current cell, wrapping around at the smallest
    /// value.
    pub fn decrement(&mut self)
        requires
            old(self)@.in_bounds(),
        ensures
            final(self)@ == old(self)@.with_current(predecessor(old(self)@.current())),
    {
        let value = self.data[self.pointer].wrapping_sub(1);
        self.data.set(self.pointer, value);
    }

    /// Stores `value` in the current cell.
    pub fn write(&mut self, value: i64)
        requires
            old(self)@.in_bounds(),
        ensures
            final(self)@ == old(self)@.with_current(value),
    {
        self.data.set(self.pointer, value);
    }

    /// Returns the value of the current cell.
    pub fn read(&self) -> (value: i64)
        requires
            self@.in_bounds(),
        ensures
            value == self@.current(),
    {
        self.data[self.pointer]
    }

    /// Returns the position of the cursor.
    pub fn position(&self) -> (position: usize)
        ensures
            position == self@.position,
    {
        self.pointer
    }

    /// Returns the number of cells of the tape.
    pub fn size(&self) -> (size: usize)
        ensures
            size == self@.cells.len(),
    {
        self.data.len()
    }
}

impl Default for DataMemory {
    fn default() -> (memory: Self)
        ensures
            memory@ == TapeView::blank(DEFAULT_SIZE as nat),
    {
        Self::new()
    }
}

} // verus!
