use vstd::prelude::*;
use vstd::string::*;

verus! {

/// One row of text, without its line terminator, tagged with its row index.
pub struct Line {
    pub data: String,
    pub linenum: usize,
}

impl Line {
    /// Creates a line holding `data` at row `line_num`.
    pub fn new(data: String, line_num: usize) -> (r: Line)
        ensures
            r.data@ == data@,
            r.linenum == line_num,
    {
        Line { data, linenum: line_num }
    }

    /// Number of characters in the line.
    pub fn len(&self) -> (r: usize)
        ensures
            r == self.data@.len(),
    {
        self.data.as_str().unicode_len()
    }
}

} // verus!
