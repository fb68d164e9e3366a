use kilo_rs::{Doc, Editor, Key, Position, Size, StatusMessage};

const RESET: &str = "\u{1b}[39m";

fn editor(text: &str, width: u16, height: u16) -> Editor {
    Editor::new(Doc::open(text, None), Size { width, height })
}

fn contained(e: &Editor) -> bool {
    let w = e.viewport.width as usize;
    let h = e.viewport.height as usize;
    e.offset.y <= e.cursor_position.y
        && e.cursor_position.y < e.offset.y + h
        && e.offset.x <= e.cursor_position.x
        && e.cursor_position.x < e.offset.x + w
}

fn in_bounds(e: &Editor) -> bool {
    let row_len = e.get_row_len(e.cursor_position.y);
    e.cursor_position.y <= e.doc.len() && e.cursor_position.x <= row_len
}

#[test]
fn new_editor_starts_at_origin() {
    let e = editor("ab\ncde", 10, 4);
    assert_eq!(e.cursor_position, Position { x: 0, y: 0 });
    assert_eq!(e.offset, Position { x: 0, y: 0 });
    assert!(!e.exit);
}

#[test]
fn basic_moves() {
    let mut e = editor("ab\ncde", 10, 4);
    e.on_key_press(Key::Right);
    assert_eq!(e.cursor_position, Position { x: 1, y: 0 });
    e.on_key_press(Key::Down);
    assert_eq!(e.cursor_position, Position { x: 1, y: 1 });
    e.on_key_press(Key::End);
    assert_eq!(e.cursor_position, Position { x: 3, y: 1 });
    e.on_key_press(Key::Home);
    assert_eq!(e.cursor_position, Position { x: 0, y: 1 });
    e.on_key_press(Key::Up);
    assert_eq!(e.cursor_position, Position { x: 0, y: 0 });
}

#[test]
fn moving_to_shorter_row_clamps_x() {
    let mut e = editor("abcde\nxy", 10, 4);
    e.on_key_press(Key::End);
    assert_eq!(e.cursor_position, Position { x: 5, y: 0 });
    e.on_key_press(Key::Down);
    assert_eq!(e.cursor_position, Position { x: 2, y: 1 });
}

#[test]
fn right_at_row_end_wraps_to_next_row() {
    let mut e = editor("ab\ncde", 10, 4);
    e.on_key_press(Key::End);
    e.on_key_press(Key::Right);
    assert_eq!(e.cursor_position, Position { x: 0, y: 1 });
}

#[test]
fn left_at_row_start_wraps_to_previous_row_end() {
    let mut e = editor("ab\ncde", 10, 4);
    e.on_key_press(Key::Down);
    e.on_key_press(Key::Left);
    assert_eq!(e.cursor_position, Position { x: 2, y: 0 });
}

#[test]
fn left_at_origin_goes_to_first_row_end() {
    let mut e = editor("ab\ncde", 10, 4);
    e.on_key_press(Key::Left);
    assert_eq!(e.cursor_position, Position { x: 2, y: 0 });
}

#[test]
fn down_stops_at_append_line() {
    let mut e = editor("ab\ncde", 10, 4);
    for _ in 0..5 {
        e.on_key_press(Key::Down);
    }
    assert_eq!(e.cursor_position, Position { x: 0, y: 2 });
    assert!(in_bounds(&e));
}

#[test]
fn page_keys_jump_by_viewport_height() {
    let mut e = editor("a\nb\nc\nd\ne\nf\ng\nh", 10, 3);
    e.on_key_press(Key::PageDown);
    assert_eq!(e.cursor_position.y, 3);
    e.on_key_press(Key::PageDown);
    assert_eq!(e.cursor_position.y, 6);
    e.on_key_press(Key::PageDown);
    assert_eq!(e.cursor_position.y, 8);
    e.on_key_press(Key::PageUp);
    assert_eq!(e.cursor_position.y, 5);
    for _ in 0..4 {
        e.on_key_press(Key::PageUp);
    }
    assert_eq!(e.cursor_position.y, 0);
}

#[test]
fn navigation_keeps_cursor_visible_and_in_bounds() {
    // The viewport containment and cursor bound invariants hold after any
    // sequence of navigation commands.
    let mut e = editor("abcdefgh\nij\nklmnop\n12345\nq\nrstuvwx", 3, 2);
    let keys = [
        Key::Down,
        Key::Down,
        Key::End,
        Key::Right,
        Key::Right,
        Key::PageDown,
        Key::End,
        Key::Up,
        Key::Left,
        Key::PageUp,
        Key::Home,
        Key::Down,
        Key::End,
        Key::Down,
        Key::Down,
        Key::Down,
        Key::End,
        Key::Right,
    ];
    for k in keys {
        e.on_key_press(k);
        assert!(contained(&e));
        assert!(in_bounds(&e));
    }
}

#[test]
fn scroll_follows_cursor_down_and_back() {
    let mut e = editor("a\nb\nc\nd\ne", 10, 2);
    for _ in 0..3 {
        e.on_key_press(Key::Down);
    }
    assert_eq!(e.cursor_position.y, 3);
    assert_eq!(e.offset.y, 2);
    for _ in 0..3 {
        e.on_key_press(Key::Up);
    }
    assert_eq!(e.cursor_position.y, 0);
    assert_eq!(e.offset.y, 0);
}

#[test]
fn typing_inserts_and_advances() {
    let mut e = editor("", 10, 4);
    for c in "hi".chars() {
        e.on_key_press(Key::Char(c));
    }
    assert_eq!(e.doc.row(0).unwrap().contents(), "hi".to_string());
    assert_eq!(e.cursor_position, Position { x: 2, y: 0 });
    e.on_key_press(Key::Char('\n'));
    assert_eq!(e.cursor_position, Position { x: 0, y: 1 });
    e.on_key_press(Key::Char('!'));
    assert_eq!(e.doc.row(1).unwrap().contents(), "!".to_string());
    assert_eq!(e.doc.len(), 2);
}

#[test]
fn backspace_deletes_before_cursor() {
    let mut e = editor("ab", 10, 4);
    e.on_key_press(Key::Right);
    e.on_key_press(Key::Backspace);
    assert_eq!(e.doc.row(0).unwrap().contents(), "b".to_string());
    assert_eq!(e.cursor_position, Position { x: 0, y: 0 });
}

#[test]
fn backspace_at_row_start_merges_rows() {
    let mut e = editor("ab\ncd", 10, 4);
    e.on_key_press(Key::Down);
    e.on_key_press(Key::Backspace);
    assert_eq!(e.doc.len(), 1);
    assert_eq!(e.doc.row(0).unwrap().contents(), "abcd".to_string());
    assert_eq!(e.cursor_position, Position { x: 2, y: 0 });
}

#[test]
fn delete_on_empty_document_is_harmless() {
    let mut e = editor("", 10, 4);
    e.on_key_press(Key::Delete);
    e.on_key_press(Key::Backspace);
    assert!(e.doc.is_empty());
    assert_eq!(e.cursor_position, Position { x: 0, y: 0 });
}

#[test]
fn quit_sets_exit_flag() {
    let mut e = editor("ab", 10, 4);
    assert!(!e.exit);
    e.on_key_press(Key::Quit);
    assert!(e.exit);
}

#[test]
fn empty_document_renders_banner_a_third_down() {
    // Viewport height 10: screen row 3 carries the welcome banner, every
    // other row a '~' filler.
    let e = editor("", 80, 10);
    let lines = e.draw_rows();
    assert_eq!(lines.len(), 10);
    for (i, line) in lines.iter().enumerate() {
        if i == 3 {
            assert!(line.contains("Kilo-rs editor"));
            assert!(line.starts_with('~'));
        } else {
            assert_eq!(line.as_str(), "~");
        }
    }
}

#[test]
fn non_empty_document_renders_rows_then_fillers() {
    let e = editor("ab\ncde", 5, 4);
    let lines = e.draw_rows();
    assert_eq!(lines.len(), 4);
    assert_eq!(lines[0], format!("ab{}", RESET));
    assert_eq!(lines[1], format!("cde{}", RESET));
    assert_eq!(lines[2], "~");
    assert_eq!(lines[3], "~");
}

#[test]
fn draw_rows_follows_the_offset() {
    let mut e = editor("ab\ncde\nfg\nhi", 2, 2);
    for _ in 0..2 {
        e.on_key_press(Key::Down);
    }
    assert_eq!(e.offset.y, 1);
    let lines = e.draw_rows();
    assert_eq!(lines[0], format!("cd{}", RESET));
    assert_eq!(lines[1], format!("fg{}", RESET));
}

#[test]
fn welcome_line_is_truncated_to_width() {
    let line = Editor::welcome_line(5);
    assert_eq!(line.chars().count(), 5);
    assert!(line.starts_with('~'));
    let wide = Editor::welcome_line(80);
    assert_eq!(wide, format!("~{}{}", " ".repeat(23), "Kilo-rs editor -- version 0.1.0"));
}

#[test]
fn status_line_shows_name_count_and_cursor() {
    let mut e = editor("ab\ncde", 20, 4);
    e.doc.file_name = Some("notes.txt".to_string());
    e.on_key_press(Key::Right);
    let status = e.status_line();
    assert_eq!(status, "notes.txt - 2    1:2".to_string());
    assert_eq!(status.chars().count(), 20);
}

#[test]
fn status_line_untitled_and_truncated() {
    let e = editor("ab", 10, 4);
    let status = e.status_line();
    // Too narrow for the indicator: the left part is cut to the width.
    assert_eq!(status, "[Untitled]".to_string());
    let mut named = editor("ab", 60, 4);
    named.doc.file_name = Some("a_very_long_file_name_indeed.txt".to_string());
    let status = named.status_line();
    assert!(status.starts_with("a_very_long_file_nam - 1"));
}

#[test]
fn format_usize_is_plain_decimal() {
    assert_eq!(kilo_rs::editor::format_usize(0), "0".to_string());
    assert_eq!(kilo_rs::editor::format_usize(7), "7".to_string());
    assert_eq!(kilo_rs::editor::format_usize(10), "10".to_string());
    assert_eq!(kilo_rs::editor::format_usize(12345), "12345".to_string());
    assert_eq!(kilo_rs::editor::format_usize(usize::MAX), usize::MAX.to_string());
}

#[test]
fn truncate_chars_counts_characters_not_bytes() {
    assert_eq!(kilo_rs::truncate_chars("héllo", 2), "hé".to_string());
    assert_eq!(kilo_rs::truncate_chars("ab", 5), "ab".to_string());
    assert_eq!(kilo_rs::truncate_chars("ab", 0), "".to_string());
}

#[test]
fn position_sub_is_componentwise() {
    let p = Position { x: 5, y: 7 };
    let o = Position { x: 2, y: 3 };
    let r = p.sub(&o);
    assert_eq!(r, Position { x: 3, y: 4 });
}

#[test]
fn status_message_keeps_its_text() {
    let m = StatusMessage::from("HELP: Ctrl-Q = quit".to_string());
    assert_eq!(m.text, "HELP: Ctrl-Q = quit".to_string());
}
