use rdit::buffer::Buffer;
use rdit::cursor::{Cursor, Direction};
use rdit::editor::{Command, Editor, Response};

fn fixture() -> Editor {
    let rows = vec![
        "test".to_string(),
        "".to_string(),
        "text file".to_string(),
        "content".to_string(),
    ];
    Editor::new(Buffer::from_lines("/some/file.txt".to_string(), rows))
}

fn texts(editor: &Editor) -> Vec<String> {
    editor.buffer.lines.iter().map(|l| l.data.clone()).collect()
}

#[test]
fn cursor_starts_at_origin_and_can_be_set() {
    let mut cursor = Cursor::new();
    assert_eq!(cursor.get_position(), (0, 0));
    cursor.set_position(3, 2);
    assert_eq!(cursor.get_position(), (3, 2));
    assert_eq!(cursor.get_linenum(), 2);
}

#[test]
fn moving_up_from_the_first_line_does_nothing() {
    let mut editor = fixture();
    editor.cursor.set_position(2, 0);
    editor.adjust_cursor(Direction::Up);
    assert_eq!(editor.cursor.get_position(), (2, 0));
}

#[test]
fn moving_down_clamps_the_offset() {
    let mut editor = fixture();
    editor.cursor.set_position(3, 0);
    editor.adjust_cursor(Direction::Down);
    assert_eq!(editor.cursor.get_position(), (0, 1));
    editor.adjust_cursor(Direction::Down);
    assert_eq!(editor.cursor.get_position(), (0, 2));
}

#[test]
fn moving_up_keeps_a_fitting_offset() {
    let mut editor = fixture();
    editor.cursor.set_position(5, 3);
    editor.adjust_cursor(Direction::Up);
    assert_eq!(editor.cursor.get_position(), (5, 2));
    editor.cursor.set_position(9, 2);
    editor.adjust_cursor(Direction::Up);
    assert_eq!(editor.cursor.get_position(), (0, 1));
}

#[test]
fn moving_down_from_the_last_line_does_nothing() {
    let mut editor = fixture();
    editor.cursor.set_position(4, 3);
    editor.adjust_cursor(Direction::Down);
    assert_eq!(editor.cursor.get_position(), (4, 3));
}

#[test]
fn left_and_right_stop_at_the_line_ends() {
    let mut editor = fixture();
    editor.adjust_cursor(Direction::Left);
    assert_eq!(editor.cursor.get_position(), (0, 0));
    editor.cursor.set_position(3, 0);
    editor.adjust_cursor(Direction::Right);
    assert_eq!(editor.cursor.get_position(), (4, 0));
    editor.adjust_cursor(Direction::Right);
    assert_eq!(editor.cursor.get_position(), (4, 0));
    editor.adjust_cursor(Direction::Left);
    assert_eq!(editor.cursor.get_position(), (3, 0));
}

#[test]
fn typing_advances_the_cursor() {
    let mut editor = fixture();
    editor.cursor.set_position(4, 0);
    editor.insert_char('s');
    assert_eq!(editor.cursor.get_position(), (5, 0));
    assert_eq!(editor.buffer.lines[0].data, "tests");
}

#[test]
fn newline_moves_to_the_start_of_the_new_line() {
    let mut editor = fixture();
    editor.cursor.set_position(4, 2);
    editor.insert_new_line();
    assert_eq!(editor.cursor.get_position(), (0, 3));
    assert_eq!(texts(&editor), vec!["test", "", "text", " file", "content"]);
}

#[test]
fn backspace_inside_a_line() {
    let mut editor = fixture();
    editor.cursor.set_position(2, 3);
    editor.delete_char();
    assert_eq!(editor.cursor.get_position(), (1, 3));
    assert_eq!(editor.buffer.lines[3].data, "cntent");
}

#[test]
fn backspace_at_column_zero_joins_lines() {
    let mut editor = fixture();
    editor.cursor.set_position(0, 3);
    editor.delete_char();
    assert_eq!(editor.cursor.get_position(), (9, 2));
    assert_eq!(texts(&editor), vec!["test", "", "text filecontent"]);
}

#[test]
fn backspace_at_the_very_start_does_nothing() {
    let mut editor = fixture();
    editor.delete_char();
    assert_eq!(editor.cursor.get_position(), (0, 0));
    assert_eq!(texts(&editor), vec!["test", "", "text file", "content"]);
}

#[test]
fn commands_answer_with_the_next_step() {
    let mut editor = fixture();
    assert_eq!(editor.handle_command(Command::MoveDown), Response::Continue);
    assert_eq!(editor.handle_command(Command::InsertChar('a')), Response::Continue);
    assert_eq!(editor.handle_command(Command::InsertNewline), Response::Continue);
    assert_eq!(editor.handle_command(Command::Backspace), Response::Continue);
    assert_eq!(editor.handle_command(Command::MoveRight), Response::Continue);
    assert_eq!(editor.handle_command(Command::Save), Response::Save);
    assert_eq!(editor.handle_command(Command::Quit), Response::Quit);
    assert_eq!(texts(&editor), vec!["test", "a", "text file", "content"]);
    assert_eq!(editor.cursor.get_position(), (1, 1));
}

#[test]
fn cursor_stays_in_bounds_over_a_session() {
    let mut editor = fixture();
    let cmds = [
        Command::MoveDown,
        Command::MoveDown,
        Command::MoveRight,
        Command::MoveRight,
        Command::InsertNewline,
        Command::Backspace,
        Command::Backspace,
        Command::Backspace,
        Command::MoveUp,
        Command::MoveUp,
        Command::MoveUp,
        Command::MoveLeft,
        Command::InsertChar('z'),
        Command::MoveDown,
        Command::MoveDown,
        Command::MoveDown,
        Command::MoveDown,
        Command::MoveRight,
    ];
    for cmd in cmds.iter() {
        editor.handle_command(*cmd);
        let (offset, line_num) = editor.cursor.get_position();
        assert!(line_num < editor.buffer.lines.len());
        assert!(offset <= editor.buffer.lines[line_num].len());
        for (index, line) in editor.buffer.lines.iter().enumerate() {
            assert_eq!(index, line.linenum);
        }
    }
}
