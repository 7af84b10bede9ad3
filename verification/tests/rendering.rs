use kilo::buffer::TextBuffer;
use kilo::render::{draw_rows, message_bar, push_digits, render_row, status_bar, welcome_row};

fn buf_from(lines: &[&str]) -> TextBuffer {
    let rows: Vec<Vec<u8>> = lines.iter().map(|l| l.as_bytes().to_vec()).collect();
    TextBuffer::load(rows, None)
}

#[test]
fn digits_of_small_and_large_numbers() {
    let mut v: Vec<u8> = Vec::new();
    push_digits(&mut v, 0);
    assert_eq!(v, b"0".to_vec());
    let mut v: Vec<u8> = Vec::new();
    push_digits(&mut v, 7);
    assert_eq!(v, b"7".to_vec());
    let mut v: Vec<u8> = Vec::new();
    push_digits(&mut v, 12345);
    assert_eq!(v, b"12345".to_vec());
    let mut v: Vec<u8> = Vec::new();
    push_digits(&mut v, 100);
    assert_eq!(v, b"100".to_vec());
}

#[test]
fn tabs_render_to_next_stop() {
    assert_eq!(render_row(&b"a\tb".to_vec()), b"a       b".to_vec());
    assert_eq!(render_row(&b"\t".to_vec()), b"        ".to_vec());
    assert_eq!(render_row(&b"1234567\tx".to_vec()), b"1234567 x".to_vec());
    assert_eq!(render_row(&b"plain".to_vec()), b"plain".to_vec());
}

#[test]
fn welcome_row_is_centered_behind_marker() {
    // width 21, text 11 bytes: padding (21 - 11) / 2 = 5, one marker
    // and four spaces before the text.
    assert_eq!(welcome_row(21), b"~    Kilo editor".to_vec());
    // narrower than the text: cut.
    assert_eq!(welcome_row(4), b"Kilo".to_vec());
    // exactly the text's width: no marker, no padding.
    assert_eq!(welcome_row(11), b"Kilo editor".to_vec());
}

#[test]
fn rows_of_text_are_sliced_to_the_window() {
    let buf = buf_from(&["abcdefgh"]);
    let r = draw_rows(&buf, 0, 2, 2, 3);
    // first row: bytes 2..5 of the line; second row: filler marker.
    let expected = [b"cde".as_ref(), b"\x1b[K\r\n", b"~", b"\x1b[K\r\n"].concat();
    assert_eq!(r, expected);
}

#[test]
fn row_past_short_line_start_is_blank() {
    let buf = buf_from(&["ab"]);
    let r = draw_rows(&buf, 0, 5, 1, 3);
    assert_eq!(r, b"\x1b[K\r\n".to_vec());
}

#[test]
fn empty_buffer_shows_banner_on_one_row() {
    let buf = TextBuffer::new();
    let r = draw_rows(&buf, 0, 0, 3, 40);
    let rows: Vec<&[u8]> = r.split(|&b| b == b'\n').collect();
    // height 3: banner on row 3 / 3 = 1.
    assert!(rows[0].starts_with(b"~"));
    let banner = String::from_utf8(rows[1].to_vec()).unwrap();
    assert!(banner.contains("Kilo editor"));
}

#[test]
fn status_bar_shows_name_count_and_position() {
    let name = Some(b"notes.txt".to_vec());
    let r = status_bar(&name, 3, false, 1, 40);
    let text = String::from_utf8(r).unwrap();
    let spaces = " ".repeat(40 - 20 - 3);
    assert_eq!(text, format!("\x1b[7mnotes.txt - 3 lines {}2/3\x1b[m\r\n", spaces));
}

#[test]
fn status_bar_marks_unsaved_changes() {
    let r = status_bar(&None, 1, true, 0, 60);
    let text = String::from_utf8(r).unwrap();
    assert!(text.contains("[No Name] - 1 lines (modified)"));
    assert!(text.ends_with("1/1\x1b[m\r\n"));
}

#[test]
fn status_bar_truncates_long_names_to_twenty_bytes() {
    let name = Some(b"a-very-long-file-name-that-keeps-going.txt".to_vec());
    let r = status_bar(&name, 1, false, 0, 60);
    let text = String::from_utf8(r).unwrap();
    assert!(text.contains("a-very-long-file-nam - 1 lines"));
    assert!(!text.contains("a-very-long-file-name"));
}

#[test]
fn message_bar_honors_time_to_live() {
    let msg = b"hello".to_vec();
    assert_eq!(message_bar(&msg, 10, 12, 40), b"\x1b[Khello".to_vec());
    assert_eq!(message_bar(&msg, 10, 14, 40), b"\x1b[Khello".to_vec());
    assert_eq!(message_bar(&msg, 10, 15, 40), b"\x1b[K".to_vec());
    assert_eq!(message_bar(&msg, 10, 100, 40), b"\x1b[K".to_vec());
}

#[test]
fn message_bar_cuts_to_the_window() {
    let msg = b"hello".to_vec();
    assert_eq!(message_bar(&msg, 0, 0, 3), b"\x1b[Khel".to_vec());
}
