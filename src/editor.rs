use vstd::prelude::*;

use crate::buffer::{lemma_line_texts, with_line_joined, with_line_split, Buffer};
use crate::cursor::{Cursor, Direction};

verus! {

/// A logical editing command.
#[derive(Clone, Copy, Debug, PartialEq, Eq, Structural)]
pub enum Command {
    MoveUp,
    MoveDown,
    MoveLeft,
    MoveRight,
    InsertChar(char),
    InsertNewline,
    Backspace,
    Save,
    Quit,
}

/// What the caller does after a command: go on, write the buffer out, or stop.
#[derive(Clone, Copy, Debug, PartialEq, Eq, Structural)]
pub enum Response {
    Continue,
    Save,
    Quit,
}

/// The rows of a document with a cursor column and row.
pub type EditState = (Seq<Seq<char>>, int, int);

/// There is a row, the cursor row exists and the cursor column lies within it.
pub open spec fn in_bounds(s: EditState) -> bool {
    &&& s.0.len() >= 1
    &&& 0 <= s.2 < s.0.len()
    &&& 0 <= s.1 <= s.0[s.2].len()
}

/// `offset`, lowered to `len` when it lies past it.
pub open spec fn clamp(offset: int, len: int) -> int {
    if offset > len {
        len
    } else {
        offset
    }
}

/// The state after one cursor step in `dir`; steps that would leave the
/// document, or cross a row end, change nothing.
pub open spec fn moved(s: EditState, dir: Direction) -> EditState {
    let (rows, offset, line) = s;
    match dir {
        Direction::Up => if line > 0 {
            (rows, clamp(offset, rows[line - 1].len() as int), line - 1)
        } else {
            s
        },
        Direction::Down => if line + 1 < rows.len() {
            (rows, clamp(offset, rows[line + 1].len() as int), line + 1)
        } else {
            s
        },
        Direction::Left => if offset > 0 {
            (rows, offset - 1, line)
        } else {
            s
        },
        Direction::Right => if offset < rows[line].len() {
            (rows, offset + 1, line)
        } else {
            s
        },
    }
}

/// The state after typing `ch` at the cursor.
pub open spec fn after_insert_char(s: EditState, ch: char) -> EditState {
    let (rows, offset, line) = s;
    (rows.update(line, rows[line].insert(offset, ch)), offset + 1, line)
}

/// The state after breaking the cursor row at the cursor.
pub open spec fn after_newline(s: EditState) -> EditState {
    let (rows, offset, line) = s;
    (with_line_split(rows, offset, line), 0, line + 1)
}

/// The state after a backspace: removes the character before the cursor, or
/// at column 0 joins the row onto the one above; nothing on the first
/// row's column 0.
pub open spec fn after_backspace(s: EditState) -> EditState {
    let (rows, offset, line) = s;
    if offset > 0 {
        (rows.update(line, rows[line].remove(offset - 1)), offset - 1, line)
    } else if line > 0 {
        (with_line_joined(rows, line), rows[line - 1].len() as int, line - 1)
    } else {
        s
    }
}

/// The state after `cmd`.
pub open spec fn edited(s: EditState, cmd: Command) -> EditState {
    match cmd {
        Command::MoveUp => moved(s, Direction::Up),
        Command::MoveDown => moved(s, Direction::Down),
        Command::MoveLeft => moved(s, Direction::Left),
        Command::MoveRight => moved(s, Direction::Right),
        Command::InsertChar(ch) => after_insert_char(s, ch),
        Command::InsertNewline => after_newline(s),
        Command::Backspace => after_backspace(s),
        Command::Save => s,
        Command::Quit => s,
    }
}

/// The state after the commands of `cmds`, in order.
pub open spec fn replayed(s: EditState, cmds: Seq<Command>) -> EditState
    decreases cmds.len(),
{
    if cmds.len() == 0 {
        s
    } else {
        edited(replayed(s, cmds.drop_last()), cmds.last())
    }
}

/// Every command keeps the cursor within the document.
pub proof fn lemma_command_keeps_cursor_in_bounds(s: EditState, cmd: Command)
    requires
        in_bounds(s),
    ensures
        in_bounds(edited(s, cmd)),
{
    let (rows, offset, line) = s;
    match cmd {
        Command::InsertNewline => {
            let t = with_line_split(rows, offset, line);
            assert(t[line + 1] == rows[line].skip(offset));
        },
        Command::Backspace => {
            if offset == 0 && line > 0 {
                let t = with_line_joined(rows, line);
                assert(t[line - 1] == rows[line - 1] + rows[line]);
            }
        },
        _ => {},
    }
}

/// Any sequence of commands keeps the cursor within the document.
pub proof fn lemma_commands_keep_cursor_in_bounds(s: EditState, cmds: Seq<Command>)
    requires
        in_bounds(s),
    ensures
        in_bounds(replayed(s, cmds)),
    decreases cmds.len(),
{
    if cmds.len() > 0 {
        lemma_commands_keep_cursor_in_bounds(s, cmds.drop_last());
        lemma_command_keeps_cursor_in_bounds(replayed(s, cmds.drop_last()), cmds.last());
    }
}

/// A buffer with a cursor, edited through commands.
pub struct Editor {
    pub buffer: Buffer,
    pub cursor: Cursor,
}

impl Editor {
    /// The rows, the cursor column and the cursor row.
    pub open spec fn state(&self) -> EditState {
        (self.buffer.contents(), self.cursor.offset as int, self.cursor.line_num as int)
    }

    /// The buffer is well formed and the cursor lies within it.
    pub open spec fn wf(&self) -> bool {
        self.buffer.wf() && in_bounds(self.state())
    }

    /// An editor on `buffer` with the cursor at its start.
    pub fn new(buffer: Buffer) -> (r: Editor)
        requires
            buffer.wf(),
        ensures
            r.wf(),
            r.buffer == buffer,
            r.cursor.offset == 0,
            r.cursor.line_num == 0,
    {
        Editor { buffer, cursor: Cursor::new() }
    }
    /// Moves the cursor one step in `dir`, clamped to the buffer as it is now.
    pub fn adjust_cursor(&mut self, dir: Direction)
        requires
            old(self).wf(),
        ensures
            final(self).wf(),
            final(self).buffer == old(self).buffer,
            final(self).state() == moved(old(self).state(), dir),
    {
        let (mut x, mut y) = self.cursor.get_position();
        match dir {
            Direction::Up => {
                if y > 0 {
                    let line = self.buffer.get_line(y - 1);
                    if let Some(l) = line {
                        let len = l.len();
                        y = y - 1;
                        if x > len {
                            x = len;
                        }
                    }
                }
            },
            Direction::Down => {
                if y < self.buffer.lines.len() - 1 {
                    let line = self.buffer.get_line(y + 1);
                    if let Some(l) = line {
                        let len = l.len();
                        y = y + 1;
                        if x > len {
                            x = len;
                        }
                    }
                }
            },
            Direction::Right => {
                if x < self.buffer.lines[y].len() {
                    x = x + 1;
                }
            },
            Direction::Left => {
                if x > 0 {
                    x = x - 1;
                }
            },
        }
        self.cursor.set_position(x, y);
    }

    /// Types `ch` at the cursor and moves the cursor past it.
    pub fn insert_char(&mut self, ch: char)
        requires
            old(self).wf(),
        ensures
            final(self).wf(),
            final(self).buffer.file_path == old(self).buffer.file_path,
            final(self).state() == after_insert_char(old(self).state(), ch),
    {
        let (x, y) = self.cursor.get_position();
        self.buffer.insert_char(ch, x, y);
        proof {
            lemma_line_texts(self.buffer.lines@);
            lemma_line_texts(old(self).buffer.lines@);
        }
        let len = self.buffer.lines[y].len();
        assert(self.buffer.contents()[y as int] == old(self).buffer.contents()[y as int].insert(
            x as int,
            ch,
        ));
        assert(x + 1 <= len);
        self.cursor.set_position(x + 1, y);
    }

    /// Breaks the cursor row at the cursor and moves the cursor to the start
    /// of the new row.
    pub fn insert_new_line(&mut self)
        requires
            old(self).wf(),
        ensures
            final(self).wf(),
            final(self).buffer.file_path == old(self).buffer.file_path,
            final(self).state() == after_newline(old(self).state()),
    {
        let (x, y) = self.cursor.get_position();
        self.buffer.insert_line(x, y);
        proof {
            lemma_line_texts(self.buffer.lines@);
            lemma_line_texts(old(self).buffer.lines@);
        }
        let count = self.buffer.lines.len();
        assert(y + 1 < count);
        self.cursor.set_position(0, y + 1);
        proof {
            lemma_command_keeps_cursor_in_bounds(old(self).state(), Command::InsertNewline);
        }
    }

    /// Backspace: removes the character before the cursor, or at column 0
    /// joins the cursor row onto the row above.
    pub fn delete_char(&mut self)
        requires
            old(self).wf(),
        ensures
            final(self).wf(),
            final(self).buffer.file_path == old(self).buffer.file_path,
            final(self).state() == after_backspace(old(self).state()),
    {
        let (x, y) = self.cursor.get_position();
        if x > 0 {
            self.buffer.delete_char(x, y);
            self.cursor.set_position(x - 1, y);
        } else if y > 0 {
            let offset = self.buffer.join_line_with_previous(x, y);
            self.cursor.set_position(offset, y - 1);
            proof {
                lemma_command_keeps_cursor_in_bounds(old(self).state(), Command::Backspace);
            }
        }
    }

    /// Carries out `cmd`; saving and quitting are left to the caller, as the
    /// response says.
    pub fn handle_command(&mut self, cmd: Command) -> (r: Response)
        requires
            old(self).wf(),
        ensures
            final(self).wf(),
            final(self).buffer.file_path == old(self).buffer.file_path,
            final(self).state() == edited(old(self).state(), cmd),
            r == (match cmd {
                Command::Save => Response::Save,
                Command::Quit => Response::Quit,
                _ => Response::Continue,
            }),
    {
        match cmd {
            Command::MoveUp => self.adjust_cursor(Direction::Up),
            Command::MoveDown => self.adjust_cursor(Direction::Down),
            Command::MoveLeft => self.adjust_cursor(Direction::Left),
            Command::MoveRight => self.adjust_cursor(Direction::Right),
            Command::InsertChar(ch) => self.insert_char(ch),
            Command::InsertNewline => self.insert_new_line(),
            Command::Backspace => self.delete_char(),
            Command::Save => {
                return Response::Save;
            },
            Command::Quit => {
                return Response::Quit;
            },
        }
        Response::Continue
    }
}

} // verus!
