use vstd::prelude::*;
use vstd::string::*;

use crate::line::Line;
use crate::text::{
    all_single_rows, decimal, parse_lines, push_char, records_of, serialized, string_views,
    usize_to_decimal,
};

verus! {

/// The texts of a sequence of lines.
pub open spec fn line_texts(lines: Seq<Line>) -> Seq<Seq<char>> {
    lines.map_values(|l: Line| l.data@)
}

/// The texts of lines, one for each line, in order.
pub proof fn lemma_line_texts(lines: Seq<Line>)
    ensures
        line_texts(lines).len() == lines.len(),
        forall|i: int| 0 <= i < lines.len() ==> #[trigger] line_texts(lines)[i] == lines[i].data@,
{
}

/// Each line's index equals its position.
pub open spec fn numbered(lines: Seq<Line>) -> bool {
    forall|i: int| 0 <= i < lines.len() ==> (#[trigger] lines[i]).linenum == i
}

/// `rows` with row `n` split at column `k` into two rows.
pub open spec fn with_line_split(rows: Seq<Seq<char>>, k: int, n: int) -> Seq<Seq<char>> {
    rows.take(n) + seq![rows[n].take(k), rows[n].skip(k)] + rows.skip(n + 1)
}

/// `rows` with row `n` appended to row `n - 1` and removed.
pub open spec fn with_line_joined(rows: Seq<Seq<char>>, n: int) -> Seq<Seq<char>> {
    rows.take(n - 1) + seq![rows[n - 1] + rows[n]] + rows.skip(n + 1)
}

/// An ordered, never empty sequence of lines loaded from (or saved to) `file_path`.
pub struct Buffer {
    pub file_path: String,
    pub lines: Vec<Line>,
}

impl Buffer {
    /// The text of each line, in order.
    pub open spec fn contents(&self) -> Seq<Seq<char>> {
        line_texts(self.lines@)
    }

    /// At least one line, and every line's index matches its position.
    pub open spec fn wf(&self) -> bool {
        self.lines@.len() >= 1 && numbered(self.lines@)
    }

    /// Number of characters in line `n`.
    pub open spec fn line_len(&self, n: int) -> nat {
        self.lines@[n].data@.len()
    }

    /// A buffer with no name holding one empty line.
    pub fn new() -> (r: Buffer)
        ensures
            r.wf(),
            r.contents() == seq![Seq::<char>::empty()],
            r.file_path@ == Seq::<char>::empty(),
    {
        let mut lines: Vec<Line> = Vec::new();
        lines.push(Line::new(String::new(), 0));
        let r = Buffer { file_path: String::new(), lines };
        assert(r.contents() =~= seq![Seq::<char>::empty()]);
        r
    }

    /// An "untitled" buffer holding one empty line.
    pub fn new_empty() -> (r: Buffer)
        ensures
            r.wf(),
            r.contents() == seq![Seq::<char>::empty()],
            r.file_path@ == "untitled"@,
    {
        let mut buffer = Buffer::new();
        buffer.file_path = String::from_str("untitled");
        buffer
    }

    /// A buffer named `file_path` holding `rows` in order, or one empty line
    /// when `rows` is empty.
    pub fn from_lines(file_path: String, rows: Vec<String>) -> (r: Buffer)
        ensures
            r.wf(),
            r.file_path == file_path,
            rows@.len() == 0 ==> r.contents() == seq![Seq::<char>::empty()],
            rows@.len() > 0 ==> r.contents() == string_views(rows@),
    {
        if rows.len() == 0 {
            let mut buffer = Buffer::new();
            buffer.file_path = file_path;
            return buffer;
        }
        let mut lines: Vec<Line> = Vec::new();
        let mut i: usize = 0;
        while i < rows.len()
            invariant
                i <= rows@.len(),
                lines@.len() == i,
                numbered(lines@),
                line_texts(lines@) == string_views(rows@).take(i as int),
            decreases rows@.len() - i,
        {
            let ghost before = lines@;
            lines.push(Line::new(rows[i].clone(), i));
            proof {
                assert(lines@ == before.push(lines@[i as int]));
                assert(line_texts(lines@) =~= string_views(rows@).take(i + 1));
            }
            i = i + 1;
        }
        assert(string_views(rows@).take(i as int) =~= string_views(rows@));
        Buffer { file_path, lines }
    }

    /// A buffer named `file_path` holding the newline-terminated records of
    /// `text`, or one empty line when `text` is empty.
    pub fn from_text(file_path: String, text: &str) -> (r: Buffer)
        ensures
            r.wf(),
            r.file_path == file_path,
            text@.len() == 0 ==> r.contents() == seq![Seq::<char>::empty()],
            text@.len() > 0 ==> records_of(text@, r.contents()),
    {
        let rows = parse_lines(text);
        proof {
            if text@.len() > 0 && rows@.len() == 0 {
                assert(string_views(rows@) =~= Seq::<Seq<char>>::empty());
                assert(serialized(string_views(rows@)).len() == 0);
            }
            if text@.len() == 0 && rows@.len() > 0 {
                crate::text::lemma_serialized_ends_in_terminator(string_views(rows@));
            }
        }
        Buffer::from_lines(file_path, rows)
    }

    /// Gives every line the index of its position.
    fn fix_linenums(&mut self)
        ensures
            final(self).file_path == old(self).file_path,
            final(self).lines@.len() == old(self).lines@.len(),
            final(self).contents() == old(self).contents(),
            numbered(final(self).lines@),
    {
        let n = self.lines.len();
        let mut i: usize = 0;
        while i < n
            invariant
                self.file_path == old(self).file_path,
                self.lines@.len() == n,
                n == old(self).lines@.len(),
                i <= n,
                forall|j: int| 0 <= j < n ==> (#[trigger] self.lines@[j]).data == old(self).lines@[j].data,
                forall|j: int| 0 <= j < i ==> (#[trigger] self.lines@[j]).linenum == j,
            decreases n - i,
        {
            self.lines[i].linenum = i;
            i = i + 1;
        }
        assert(self.contents() =~= old(self).contents());
    }

    /// The line at row `line_num`, if there is one.
    pub fn get_line(&self, line_num: usize) -> (r: Option<&Line>)
        ensures
            r.is_some() <==> line_num < self.lines@.len(),
            r.is_some() ==> *r.unwrap() == self.lines@[line_num as int],
    {
        if line_num < self.lines.len() {
            Some(&self.lines[line_num])
        } else {
            None
        }
    }

    /// The text of line `line_num` cut at column `offset`: the part before it
    /// and the part from it on. The buffer is left as it is.
    pub fn split_line(&self, offset: usize, line_num: usize) -> (r: (String, String))
        requires
            line_num < self.lines@.len(),
            offset <= self.line_len(line_num as int),
        ensures
            r.0@ == self.contents()[line_num as int].take(offset as int),
            r.1@ == self.contents()[line_num as int].skip(offset as int),
    {
        let data = self.lines[line_num].data.as_str();
        let len = data.unicode_len();
        let left = String::from_str(data.substring_char(0, offset));
        let right = String::from_str(data.substring_char(offset, len));
        (left, right)
    }
    /// Splits line `line_num` at column `offset`: the line keeps the part
    /// before `offset`, a new line below it holds the rest, and all lines
    /// are renumbered.
    pub fn insert_line(&mut self, offset: usize, line_num: usize)
        requires
            old(self).wf(),
            line_num < old(self).lines@.len(),
            offset <= old(self).line_len(line_num as int),
        ensures
            final(self).wf(),
            final(self).file_path == old(self).file_path,
            final(self).contents() == with_line_split(
                old(self).contents(),
                offset as int,
                line_num as int,
            ),
    {
        let ghost rows = self.contents();
        let count = self.lines.len();
        assert(line_num + 1 <= count);
        let (left, right) = self.split_line(offset, line_num);
        self.lines[line_num].data = left;
        self.lines.insert(line_num + 1, Line::new(right, line_num + 1));
        assert(self.contents() =~= with_line_split(rows, offset as int, line_num as int));
        self.fix_linenums();
    }

    /// Appends line `line_num` to the line above it and removes it; returns
    /// the former length of the line above, the column of the join. On row 0
    /// nothing changes and `offset` is returned.
    pub fn join_line_with_previous(&mut self, offset: usize, line_num: usize) -> (r: usize)
        requires
            old(self).wf(),
            line_num < old(self).lines@.len(),
        ensures
            final(self).wf(),
            final(self).file_path == old(self).file_path,
            line_num == 0 ==> r == offset && final(self).contents() == old(self).contents(),
            line_num > 0 ==> r == old(self).line_len(line_num - 1) && final(self).contents()
                == with_line_joined(old(self).contents(), line_num as int),
    {
        if line_num == 0 {
            return offset;
        }
        let ghost rows = self.contents();
        let prev_len = self.lines[line_num - 1].len();
        let current = self.lines.remove(line_num);
        self.lines[line_num - 1].data.append(current.data.as_str());
        assert(self.contents() =~= with_line_joined(rows, line_num as int));
        self.fix_linenums();
        prev_len
    }

    /// Inserts `ch` into line `line_num` at column `offset`.
    pub fn insert_char(&mut self, ch: char, offset: usize, line_num: usize)
        requires
            old(self).wf(),
            line_num < old(self).lines@.len(),
            offset <= old(self).line_len(line_num as int),
        ensures
            final(self).wf(),
            final(self).file_path == old(self).file_path,
            final(self).contents() == old(self).contents().update(
                line_num as int,
                old(self).contents()[line_num as int].insert(offset as int, ch),
            ),
    {
        let ghost rows = self.contents();
        let (left, right) = self.split_line(offset, line_num);
        let mut data = left;
        push_char(&mut data, ch);
        data.append(right.as_str());
        self.lines[line_num].data = data;
        assert(self.contents() =~= rows.update(
            line_num as int,
            rows[line_num as int].insert(offset as int, ch),
        ));
    }

    /// Removes the character before column `offset` of line `line_num`
    /// (backspace). At column 0 nothing changes: joining with the line above
    /// is the caller's decision.
    pub fn delete_char(&mut self, offset: usize, line_num: usize)
        requires
            old(self).wf(),
            line_num < old(self).lines@.len(),
            offset <= old(self).line_len(line_num as int),
        ensures
            final(self).wf(),
            final(self).file_path == old(self).file_path,
            offset == 0 ==> final(self).contents() == old(self).contents(),
            offset > 0 ==> final(self).contents() == old(self).contents().update(
                line_num as int,
                old(self).contents()[line_num as int].remove(offset - 1),
            ),
    {
        if offset == 0 {
            return;
        }
        let ghost rows = self.contents();
        let data = self.lines[line_num].data.as_str();
        let len = data.unicode_len();
        let mut kept = String::from_str(data.substring_char(0, offset - 1));
        kept.append(data.substring_char(offset, len));
        self.lines[line_num].data = kept;
        assert(self.contents() =~= rows.update(
            line_num as int,
            rows[line_num as int].remove(offset - 1),
        ));
    }

    /// The text to save: each line followed by one `'\n'`, in order.
    pub fn to_text(&self) -> (r: String)
        ensures
            r@ == serialized(self.contents()),
    {
        let mut out = String::new();
        let mut i: usize = 0;
        while i < self.lines.len()
            invariant
                i <= self.lines@.len(),
                out@ == serialized(self.contents().take(i as int)),
            decreases self.lines@.len() - i,
        {
            out.append(self.lines[i].data.as_str());
            push_char(&mut out, '\n');
            proof {
                let rows = self.contents().take(i + 1);
                assert(rows.drop_last() =~= self.contents().take(i as int));
                assert(out@ =~= serialized(rows));
            }
            i = i + 1;
        }
        assert(self.contents().take(i as int) =~= self.contents());
        out
    }

    /// The status line: the file path and the number of lines.
    pub fn get_status_text(&self) -> (r: String)
        ensures
            r@ == self.file_path@ + ", lines: "@ + decimal(self.lines@.len()),
    {
        let mut text = self.file_path.clone();
        text.append(", lines: ");
        let count = usize_to_decimal(self.lines.len());
        text.append(count.as_str());
        text
    }
}

/// Splitting row `n` at column `k` and then joining the new row `n + 1`
/// back onto row `n` gives the original rows, and the join lands at column `k`.
pub proof fn lemma_split_join_inverse(rows: Seq<Seq<char>>, k: int, n: int)
    requires
        0 <= n < rows.len(),
        0 <= k <= rows[n].len(),
    ensures
        with_line_joined(with_line_split(rows, k, n), n + 1) == rows,
        with_line_split(rows, k, n)[n].len() == k,
{
    let split = with_line_split(rows, k, n);
    assert(split[n] == rows[n].take(k));
    assert(split[n + 1] == rows[n].skip(k));
    assert(rows[n].take(k) + rows[n].skip(k) =~= rows[n]);
    assert(with_line_joined(split, n + 1) =~= rows);
}

/// Saving a buffer whose lines hold no terminator and loading the saved
/// text gives a buffer with the same lines, in the same number.
pub proof fn lemma_round_trip(saved: &Buffer, loaded: &Buffer)
    requires
        saved.wf(),
        all_single_rows(saved.contents()),
        records_of(serialized(saved.contents()), loaded.contents()),
    ensures
        loaded.contents() == saved.contents(),
        loaded.lines@.len() == saved.lines@.len(),
{
    crate::text::lemma_serialized_ends_in_terminator(saved.contents());
    crate::text::lemma_serialized_injective(loaded.contents(), saved.contents());
}

} // verus!
