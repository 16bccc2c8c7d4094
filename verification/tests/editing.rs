use linedit::buffer::Document;
use linedit::editor::{Editor, EditorAction};
use linedit::input::{Direction, InputEvent};

fn chars_of(s: &str) -> Vec<char> {
    s.chars().collect()
}

fn string_of(v: &[char]) -> String {
    v.iter().collect()
}

fn doc_of(lines: &[&str]) -> Document {
    Document { lines: lines.iter().map(|l| chars_of(l)).collect() }
}

fn lines_of(d: &Document) -> Vec<String> {
    d.lines.iter().map(|l| string_of(l)).collect()
}

#[test]
fn load_save_roundtrip_trailing_newline() {
    let content = chars_of("alpha\nbeta\n");
    let d = Document::from_content(&content);
    assert_eq!(lines_of(&d), vec!["alpha".to_string(), "beta".to_string(), "".to_string()]);
    assert_eq!(string_of(&d.to_content()), "alpha\nbeta\n");
}

#[test]
fn load_save_roundtrip_no_trailing_newline() {
    let content = chars_of("one\ntwo\nthree");
    let d = Document::from_content(&content);
    assert_eq!(lines_of(&d), vec!["one".to_string(), "two".to_string(), "three".to_string()]);
    assert_eq!(string_of(&d.to_content()), "one\ntwo\nthree");
}

#[test]
fn load_empty_file_is_one_empty_line() {
    let d = Document::from_content(&Vec::new());
    assert_eq!(lines_of(&d), vec!["".to_string()]);
    assert_eq!(string_of(&d.to_content()), "");
}

#[test]
fn insert_in_middle() {
    let mut ed = Editor::new(doc_of(&["hello"]));
    ed.cursor.col = 2;
    ed.insert_scalar('X');
    assert_eq!(lines_of(&ed.doc), vec!["heXllo".to_string()]);
    assert_eq!(ed.cursor.line, 0);
    assert_eq!(ed.cursor.col, 3);
}

#[test]
fn insert_at_line_end() {
    let mut ed = Editor::new(doc_of(&["ab"]));
    ed.cursor.col = 2;
    ed.insert_scalar('c');
    assert_eq!(lines_of(&ed.doc), vec!["abc".to_string()]);
    assert_eq!(ed.cursor.col, 3);
}

#[test]
fn insert_control_character_is_noop() {
    let mut ed = Editor::new(doc_of(&["hello"]));
    ed.cursor.col = 2;
    ed.insert_scalar('\u{7}');
    assert_eq!(lines_of(&ed.doc), vec!["hello".to_string()]);
    assert_eq!(ed.cursor.col, 2);
}

#[test]
fn backspace_mid_line_removes_previous_scalar() {
    let mut ed = Editor::new(doc_of(&["abc"]));
    ed.cursor.col = 2;
    ed.backspace();
    assert_eq!(lines_of(&ed.doc), vec!["ac".to_string()]);
    assert_eq!(ed.cursor.col, 1);
}

#[test]
fn backspace_at_column_zero_merges_lines() {
    let mut ed = Editor::new(doc_of(&["abc", "def"]));
    ed.cursor.line = 1;
    ed.cursor.col = 0;
    ed.backspace();
    assert_eq!(lines_of(&ed.doc), vec!["abcdef".to_string()]);
    assert_eq!(ed.cursor.line, 0);
    assert_eq!(ed.cursor.col, 3);
}

#[test]
fn backspace_at_origin_is_noop() {
    let mut ed = Editor::new(doc_of(&["abc", "def"]));
    ed.backspace();
    assert_eq!(lines_of(&ed.doc), vec!["abc".to_string(), "def".to_string()]);
    assert_eq!(ed.cursor.line, 0);
    assert_eq!(ed.cursor.col, 0);
}

#[test]
fn split_line_adds_empty_line_after_cursor_line() {
    let mut ed = Editor::new(doc_of(&["abcd", "tail"]));
    ed.cursor.col = 2;
    ed.split_line();
    assert_eq!(
        lines_of(&ed.doc),
        vec!["abcd".to_string(), "".to_string(), "tail".to_string()]
    );
    assert_eq!(ed.cursor.line, 1);
    assert_eq!(ed.cursor.col, 0);
}

#[test]
fn move_up_clamps_column_to_shorter_line() {
    let mut ed = Editor::new(doc_of(&["ab", "longer"]));
    ed.cursor.line = 1;
    ed.cursor.col = 5;
    ed.move_cursor(Direction::Up);
    assert_eq!(ed.cursor.line, 0);
    assert_eq!(ed.cursor.col, 2);
}

#[test]
fn move_down_stops_at_last_line() {
    let mut ed = Editor::new(doc_of(&["ab", "cd"]));
    ed.cursor.line = 1;
    ed.move_cursor(Direction::Down);
    assert_eq!(ed.cursor.line, 1);
}

#[test]
fn move_right_stops_at_line_end() {
    let mut ed = Editor::new(doc_of(&["ab"]));
    ed.cursor.col = 2;
    ed.move_cursor(Direction::Right);
    assert_eq!(ed.cursor.col, 2);
    ed.cursor.col = 0;
    ed.move_cursor(Direction::Right);
    assert_eq!(ed.cursor.col, 1);
}

#[test]
fn move_left_stops_at_line_start() {
    let mut ed = Editor::new(doc_of(&["ab"]));
    ed.move_cursor(Direction::Left);
    assert_eq!(ed.cursor.col, 0);
    ed.cursor.col = 2;
    ed.move_cursor(Direction::Left);
    assert_eq!(ed.cursor.col, 1);
}

#[test]
fn ctrl_s_asks_for_save_and_changes_nothing() {
    let mut ed = Editor::new(doc_of(&["abc"]));
    let a = ed.apply_event(&InputEvent::ControlKey(0x13));
    assert_eq!(a, EditorAction::Save);
    assert_eq!(lines_of(&ed.doc), vec!["abc".to_string()]);
    assert_eq!(ed.cursor.line, 0);
    assert_eq!(ed.cursor.col, 0);
}

#[test]
fn ctrl_q_asks_for_save_and_quit() {
    let mut ed = Editor::new(doc_of(&["abc"]));
    let a = ed.apply_event(&InputEvent::ControlKey(0x11));
    assert_eq!(a, EditorAction::SaveAndQuit);
    assert_eq!(lines_of(&ed.doc), vec!["abc".to_string()]);
}

#[test]
fn enter_splits_line_through_dispatch() {
    let mut ed = Editor::new(doc_of(&["abcd"]));
    ed.cursor.col = 2;
    let a = ed.apply_event(&InputEvent::ControlKey(0x0D));
    assert_eq!(a, EditorAction::Continue);
    assert_eq!(lines_of(&ed.doc), vec!["abcd".to_string(), "".to_string()]);
    assert_eq!(ed.cursor.line, 1);
    assert_eq!(ed.cursor.col, 0);
}

#[test]
fn backspace_through_dispatch() {
    let mut ed = Editor::new(doc_of(&["abc"]));
    ed.cursor.col = 1;
    let a = ed.apply_event(&InputEvent::ControlKey(0x7F));
    assert_eq!(a, EditorAction::Continue);
    assert_eq!(lines_of(&ed.doc), vec!["bc".to_string()]);
    assert_eq!(ed.cursor.col, 0);
}
