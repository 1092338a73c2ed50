use vstd::prelude::*;

verus! {

/// A direction of cursor movement.
#[derive(Clone, Copy, Debug, PartialEq, Eq, Structural)]
pub enum Direction {
    Up,
    Down,
    Left,
    Right,
}

/// An editing position: column `offset` within row `line_num`.
#[derive(Clone, Copy, Debug, PartialEq, Eq, Structural)]
pub struct Cursor {
    pub offset: usize,
    pub line_num: usize,
}

impl Cursor {
    /// A cursor at the start of the first row.
    pub fn new() -> (r: Cursor)
        ensures
            r.offset == 0,
            r.line_num == 0,
    {
        Cursor { offset: 0, line_num: 0 }
    }

    /// The position as `(offset, line_num)`.
    pub fn get_position(&self) -> (r: (usize, usize))
        ensures
            r == (self.offset, self.line_num),
    {
        (self.offset, self.line_num)
    }

    /// The row.
    pub fn get_linenum(&self) -> (r: usize)
        ensures
            r == self.line_num,
    {
        self.line_num
    }

    /// Moves the cursor to column `offset` of row `line_num`.
    pub fn set_position(&mut self, offset: usize, line_num: usize)
        ensures
            final(self).offset == offset,
            final(self).line_num == line_num,
    {
        self.offset = offset;
        self.line_num = line_num;
    }
}

} // verus!
