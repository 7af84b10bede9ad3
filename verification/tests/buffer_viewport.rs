use kilo::buffer::TextBuffer;
use kilo::keys::Key;
use kilo::viewport::Viewport;

fn buf_from(lines: &[&str]) -> TextBuffer {
    let rows: Vec<Vec<u8>> = lines.iter().map(|l| l.as_bytes().to_vec()).collect();
    TextBuffer::load(rows, None)
}

fn rows_of(buf: &TextBuffer) -> Vec<String> {
    buf.rows.iter().map(|r| String::from_utf8(r.clone()).unwrap()).collect()
}

#[test]
fn serialize_round() {
    let buf = buf_from(&["x", "y"]);
    assert_eq!(buf.serialize(), b"x\ny\n".to_vec());
}

#[test]
fn serialize_empty_buffer_is_one_newline() {
    let buf = TextBuffer::new();
    assert_eq!(buf.serialize(), b"\n".to_vec());
}

#[test]
fn serialize_single_line() {
    let buf = buf_from(&["hello"]);
    assert_eq!(buf.serialize(), b"hello\n".to_vec());
}

#[test]
fn load_clears_dirty_and_keeps_name() {
    let buf = TextBuffer::load(vec![b"a".to_vec()], Some(b"f.txt".to_vec()));
    assert!(!buf.dirty);
    assert_eq!(buf.filename, Some(b"f.txt".to_vec()));
}

#[test]
fn insert_in_middle() {
    let mut buf = buf_from(&["helo"]);
    buf.insert_char(0, 3, b'l');
    assert_eq!(rows_of(&buf), vec!["hello".to_string()]);
    assert!(buf.dirty);
}

#[test]
fn insert_on_virtual_line_appends_a_line() {
    let mut buf = buf_from(&["a"]);
    buf.insert_char(1, 0, b'b');
    assert_eq!(rows_of(&buf), vec!["a".to_string(), "b".to_string()]);
}

#[test]
fn insert_then_delete_restores_line_and_cursor() {
    let mut buf = buf_from(&["abc", "defg"]);
    let before = rows_of(&buf);
    let (cy, cx) = (1usize, 2usize);
    buf.insert_char(cy, cx, b'X');
    let (ny, nx) = buf.delete_char(cy, cx + 1);
    assert_eq!(rows_of(&buf), before);
    assert_eq!((ny, nx), (cy, cx));
}

#[test]
fn delete_at_origin_is_noop() {
    let mut buf = buf_from(&["abc"]);
    let (ny, nx) = buf.delete_char(0, 0);
    assert_eq!(rows_of(&buf), vec!["abc".to_string()]);
    assert_eq!((ny, nx), (0, 0));
    assert!(!buf.dirty);
}

#[test]
fn delete_at_line_start_joins_onto_previous() {
    let mut buf = buf_from(&["ab", "cd"]);
    let (ny, nx) = buf.delete_char(1, 0);
    assert_eq!(rows_of(&buf), vec!["abcd".to_string()]);
    assert_eq!((ny, nx), (0, 2));
    assert!(buf.dirty);
}

#[test]
fn delete_past_last_line_is_noop() {
    let mut buf = buf_from(&["ab"]);
    let (ny, nx) = buf.delete_char(1, 0);
    assert_eq!(rows_of(&buf), vec!["ab".to_string()]);
    assert_eq!((ny, nx), (1, 0));
    assert!(!buf.dirty);
}

#[test]
fn delete_mid_line_removes_byte_before_cursor() {
    let mut buf = buf_from(&["abc"]);
    let (ny, nx) = buf.delete_char(0, 2);
    assert_eq!(rows_of(&buf), vec!["ac".to_string()]);
    assert_eq!((ny, nx), (0, 1));
}

#[test]
fn tab_stop_rendered_columns() {
    let line: Vec<u8> = b"a\tb".to_vec();
    assert_eq!(Viewport::cx_to_rx(&line, 0), 0);
    assert_eq!(Viewport::cx_to_rx(&line, 1), 1);
    assert_eq!(Viewport::cx_to_rx(&line, 2), 8);
    assert_eq!(Viewport::cx_to_rx(&line, 3), 9);
}

#[test]
fn tab_at_a_stop_advances_a_full_stop() {
    let line: Vec<u8> = b"\t\t".to_vec();
    assert_eq!(Viewport::cx_to_rx(&line, 1), 8);
    assert_eq!(Viewport::cx_to_rx(&line, 2), 16);
}

#[test]
fn left_at_line_start_wraps_to_previous_end() {
    let buf = buf_from(&["abc", "d"]);
    let mut v = Viewport::new();
    v.cy = 1;
    v.cx = 0;
    v.move_cursor(Key::Left, &buf);
    assert_eq!((v.cy, v.cx), (0, 3));
}

#[test]
fn right_at_line_end_wraps_to_next_start() {
    let buf = buf_from(&["abc", "d"]);
    let mut v = Viewport::new();
    v.cy = 0;
    v.cx = 3;
    v.move_cursor(Key::Right, &buf);
    assert_eq!((v.cy, v.cx), (1, 0));
}

#[test]
fn vertical_move_clamps_column_to_shorter_line() {
    let buf = buf_from(&["abcdef", "ab"]);
    let mut v = Viewport::new();
    v.cy = 0;
    v.cx = 5;
    v.move_cursor(Key::Down, &buf);
    assert_eq!((v.cy, v.cx), (1, 2));
}

#[test]
fn down_past_last_line_lands_on_virtual_line() {
    let buf = buf_from(&["ab"]);
    let mut v = Viewport::new();
    v.cy = 1;
    v.cx = 0;
    v.move_cursor(Key::Down, &buf);
    assert_eq!((v.cy, v.cx), (1, 0));
}

#[test]
fn scroll_keeps_cursor_inside_window() {
    let buf = buf_from(&["0", "1", "2", "3", "4", "5", "6", "7", "8", "9"]);
    let mut v = Viewport::new();
    v.cy = 7;
    v.cx = 1;
    v.scroll(&buf, 3, 5);
    assert!(v.row_offset <= v.cy && v.cy < v.row_offset + 3);
    assert!(v.col_offset <= v.rx && v.rx < v.col_offset + 5);
    assert_eq!(v.row_offset, 5);

    v.cy = 1;
    v.scroll(&buf, 3, 5);
    assert_eq!(v.row_offset, 1);
    assert!(v.row_offset <= v.cy && v.cy < v.row_offset + 3);
}

#[test]
fn scroll_tracks_rendered_column_of_tabs() {
    let buf = buf_from(&["a\tb"]);
    let mut v = Viewport::new();
    v.cy = 0;
    v.cx = 3;
    v.scroll(&buf, 2, 4);
    assert_eq!(v.rx, 9);
    assert!(v.col_offset <= v.rx && v.rx < v.col_offset + 4);
    assert_eq!(v.col_offset, 6);
}

#[test]
fn page_move_down_then_up() {
    let buf = buf_from(&["0", "1", "2", "3", "4", "5", "6", "7", "8", "9"]);
    let mut v = Viewport::new();
    v.page_move(&buf, 4, false);
    assert_eq!(v.cy, 7);
    v.page_move(&buf, 4, true);
    assert_eq!(v.cy, 0);
}
