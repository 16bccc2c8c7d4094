use linedit::buffer::Document;
use linedit::editor::Editor;
use linedit::input::{Direction, InputEvent};
use linedit::render::{clear_screen, draw_buffer, set_cursor_pos};
use linedit::viewport::scroll;

fn string_of(v: &[char]) -> String {
    v.iter().collect()
}

fn doc_of(lines: &[&str]) -> Document {
    Document { lines: lines.iter().map(|l| l.chars().collect()).collect() }
}

#[test]
fn clear_screen_sequence() {
    assert_eq!(string_of(&clear_screen()), "\u{1B}c\u{1B}[H");
}

#[test]
fn cursor_position_is_one_indexed() {
    assert_eq!(string_of(&set_cursor_pos(0, 0)), "\u{1B}[1;1H");
    assert_eq!(string_of(&set_cursor_pos(9, 99)), "\u{1B}[10;100H");
    assert_eq!(string_of(&set_cursor_pos(122, 6)), "\u{1B}[123;7H");
}

#[test]
fn viewport_keeps_margin_around_cursor() {
    let start = scroll(0, 50, 100, 20);
    assert!(50 - start >= 8);
    assert!(start + 20 - 50 >= 8);
    assert_eq!(start, 39);
}

#[test]
fn viewport_keeps_margin_while_cursor_walks_down() {
    let lines: Vec<&str> = std::iter::repeat("line").take(100).collect();
    let mut ed = Editor::new(doc_of(&lines));
    let mut start = 0usize;
    for _ in 0..50 {
        ed.apply_event(&InputEvent::Arrow(Direction::Down));
        start = scroll(start, ed.cursor.line, 100, 20);
    }
    assert_eq!(ed.cursor.line, 50);
    assert!(50 - start >= 8);
    assert!(start + 20 - 50 >= 8);
}

#[test]
fn viewport_scrolling_up_restores_margin() {
    let start = scroll(50, 50, 100, 20);
    assert_eq!(start, 42);
    assert!(50 - start >= 8);
    assert!(start + 20 - 50 >= 8);
}

#[test]
fn viewport_clamps_at_document_start() {
    assert_eq!(scroll(50, 0, 100, 20), 0);
    assert_eq!(scroll(0, 3, 100, 20), 0);
}

#[test]
fn viewport_clamps_at_document_end() {
    assert_eq!(scroll(0, 99, 100, 20), 80);
}

#[test]
fn small_document_never_scrolls() {
    assert_eq!(scroll(0, 3, 5, 20), 0);
    assert_eq!(scroll(4, 19, 20, 20), 0);
}

#[test]
fn frame_for_short_lines() {
    let d = doc_of(&["hi", "yo"]);
    let frame = string_of(&draw_buffer(&d, 0, 0, 1, 10, 5));
    assert_eq!(
        frame,
        "\u{1B}c\u{1B}[H\u{1B}[1;1Hhi\u{1B}[K\u{1B}[2;1Hyo\u{1B}[K\u{1B}[1;2H"
    );
}

#[test]
fn long_line_shows_tail_on_cursor_line_and_head_elsewhere() {
    let d = doc_of(&["abcdefgh", "12345678"]);
    let frame = string_of(&draw_buffer(&d, 0, 0, 8, 4, 2));
    assert_eq!(
        frame,
        "\u{1B}c\u{1B}[H\u{1B}[1;1Hefgh\u{1B}[K\u{1B}[2;1H1234\u{1B}[K\u{1B}[1;5H"
    );
}

#[test]
fn frame_shows_only_the_window() {
    let d = doc_of(&["a", "b", "c", "d"]);
    let frame = string_of(&draw_buffer(&d, 2, 2, 0, 10, 2));
    assert_eq!(
        frame,
        "\u{1B}c\u{1B}[H\u{1B}[1;1Hc\u{1B}[K\u{1B}[2;1Hd\u{1B}[K\u{1B}[1;1H"
    );
}

#[test]
fn line_exactly_window_width_shows_head() {
    let d = doc_of(&["abcd"]);
    let frame = string_of(&draw_buffer(&d, 0, 0, 0, 4, 1));
    assert_eq!(frame, "\u{1B}c\u{1B}[H\u{1B}[1;1Habcd\u{1B}[K\u{1B}[1;1H");
}
