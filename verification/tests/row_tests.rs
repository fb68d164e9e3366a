use kilo_rs::{Class, Row};

fn fg(r: u8, g: u8, b: u8) -> String {
    format!("\u{1b}[38;2;{};{};{}m", r, g, b)
}

const RESET: &str = "\u{1b}[39m";

#[test]
fn from_str_counts_clusters_not_bytes() {
    let row = Row::from_str("héllo");
    assert_eq!(row.len(), 5);
    assert!(!row.is_empty());
    let empty = Row::from_str("");
    assert_eq!(empty.len(), 0);
    assert!(empty.is_empty());
}

#[test]
fn combining_mark_is_one_cluster() {
    // 'a' followed by a combining acute accent: one user-perceived character.
    let row = Row::from_str("a\u{0301}bc");
    assert_eq!(row.len(), 3);
    assert_eq!(row.contents(), "a\u{0301}bc".to_string());
}

#[test]
fn insert_within_and_append() {
    let mut row = Row::from_str("ac");
    row.insert(1, 'b');
    assert_eq!(row.contents(), "abc".to_string());
    assert_eq!(row.len(), 3);
    row.insert(3, 'd');
    assert_eq!(row.contents(), "abcd".to_string());
    row.insert(99, 'e');
    assert_eq!(row.contents(), "abcde".to_string());
}

#[test]
fn delete_within_and_past_end() {
    let mut row = Row::from_str("abc");
    row.delete(1);
    assert_eq!(row.contents(), "ac".to_string());
    row.delete(5);
    assert_eq!(row.contents(), "ac".to_string());
    row.delete(1);
    row.delete(0);
    assert_eq!(row.contents(), "".to_string());
}

#[test]
fn split_append_round_trip() {
    // Splitting at every k in [0, len] and appending reconstructs the text.
    let text = "a\u{0301}b👍c";
    let len = Row::from_str(text).len();
    for k in 0..=len {
        let mut row = Row::from_str(text);
        let tail = row.split_at(k);
        row.append_row(&tail);
        assert_eq!(row.contents(), text.to_string());
        assert_eq!(row.len(), len);
    }
}

#[test]
fn insert_then_delete_restores_row() {
    // Inserting at p then deleting at p restores the row, the append case
    // p == len included.
    let text = "xy\u{0301}z";
    let len = Row::from_str(text).len();
    for p in 0..=len {
        let mut row = Row::from_str(text);
        row.insert(p, 'q');
        assert_eq!(row.len(), len + 1);
        row.delete(p);
        assert_eq!(row.contents(), text.to_string());
    }
}

#[test]
fn render_clips_and_never_splits_clusters() {
    // Three clusters, the middle one multi-codepoint.
    let row = Row::from_str("a👨‍👩‍👧b");
    assert_eq!(row.len(), 3);
    // Full range: all three clusters, one unit each, then the reset marker.
    assert_eq!(row.render(0, 3), format!("a👨‍👩‍👧b{}", RESET));
    // Clipped ranges.
    assert_eq!(row.render(1, 2), format!("👨‍👩‍👧{}", RESET));
    assert_eq!(row.render(0, 99), format!("a👨‍👩‍👧b{}", RESET));
    assert_eq!(row.render(99, 100), RESET.to_string());
    // start is clamped to the clipped end: an inverted range is empty.
    assert_eq!(row.render(2, 1), RESET.to_string());
}

#[test]
fn render_length_in_clusters_formula() {
    let row = Row::from_str("abcde");
    let cases: [(usize, usize); 5] = [(0, 5), (2, 4), (4, 2), (3, 99), (7, 9)];
    for (a, b) in cases {
        let rendered = row.render(a, b);
        let body = rendered.strip_suffix(RESET).unwrap();
        let e = b.min(5);
        let s = a.min(e);
        assert_eq!(body.chars().count(), e - s);
    }
}

#[test]
fn render_replaces_tab_with_space() {
    let row = Row::from_str("a\tb");
    assert_eq!(row.render(0, 3), format!("a b{}", RESET));
}

#[test]
fn highlight_tags_digits() {
    let mut row = Row::from_str("1a2");
    row.highlight();
    assert_eq!(row.highlighting, vec![Class::Number, Class::Plain, Class::Number]);
}

#[test]
fn render_emits_marker_on_each_tag_change() {
    let mut row = Row::from_str("1a2");
    row.highlight();
    let rendered = row.render(0, 3);
    // The tag changes at every character here, so each gets a marker, and
    // one reset closes the line.
    let number = fg(220, 163, 163);
    let plain = fg(255, 255, 255);
    assert_eq!(rendered, format!("{}1{}a{}2{}", number, plain, number, RESET));
    assert_eq!(rendered.matches("\u{1b}[38;2;").count(), 3);
    assert_eq!(rendered.matches(RESET).count(), 1);
}

#[test]
fn render_compresses_runs_of_one_class() {
    let mut row = Row::from_str("12a");
    row.highlight();
    let rendered = row.render(0, 3);
    // Two runs: two color markers, not three, plus one trailing reset.
    let number = fg(220, 163, 163);
    let plain = fg(255, 255, 255);
    assert_eq!(rendered, format!("{}12{}a{}", number, plain, RESET));
    assert_eq!(rendered.matches("\u{1b}[38;2;").count(), 2);
    assert_eq!(rendered.matches(RESET).count(), 1);
}

#[test]
fn stale_tags_fall_back_to_plain() {
    // Tags are not refreshed by a mutation: characters past the stored tags
    // render with the default class.
    let mut row = Row::from_str("1");
    row.highlight();
    row.insert(1, '2');
    let rendered = row.render(0, 2);
    let number = fg(220, 163, 163);
    let plain = fg(255, 255, 255);
    assert_eq!(rendered, format!("{}1{}2{}", number, plain, RESET));
}

#[test]
fn as_bytes_is_utf8_text() {
    let row = Row::from_str("héllo");
    assert_eq!(row.as_bytes(), "héllo".as_bytes().to_vec());
}

#[test]
fn class_colors() {
    let n = Class::Number.color();
    assert_eq!((n.r, n.g, n.b), (220, 163, 163));
    let p = Class::Plain.color();
    assert_eq!((p.r, p.g, p.b), (255, 255, 255));
}
