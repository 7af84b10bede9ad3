use kilo::buffer::TextBuffer;
use kilo::editor::{buffer_size_ok, Editor, EditorAction, SaveOutcome};
use kilo::keys::Key;
use kilo::report::parse_cursor_report;

fn editor_from(lines: &[&str], filename: Option<&str>) -> Editor {
    let rows: Vec<Vec<u8>> = lines.iter().map(|l| l.as_bytes().to_vec()).collect();
    let buf = TextBuffer::load(rows, filename.map(|f| f.as_bytes().to_vec()));
    assert!(buffer_size_ok(&buf));
    let mut ed = Editor::new(buf);
    ed.set_window_size(12, 40);
    ed
}

fn rows_of(ed: &Editor) -> Vec<String> {
    ed.buf.rows.iter().map(|r| String::from_utf8(r.clone()).unwrap()).collect()
}

#[test]
fn typing_inserts_and_advances() {
    let mut ed = editor_from(&["ab"], None);
    ed.view.cx = 1;
    let a = ed.apply_key(Key::Char(b'X'), 0);
    assert_eq!(a, EditorAction::Continue);
    assert_eq!(rows_of(&ed), vec!["aXb".to_string()]);
    assert_eq!((ed.view.cy, ed.view.cx), (0, 2));
    assert!(ed.buf.dirty);
}

#[test]
fn backspace_deletes_before_cursor() {
    let mut ed = editor_from(&["abc"], None);
    ed.view.cx = 2;
    ed.apply_key(Key::Backspace, 0);
    assert_eq!(rows_of(&ed), vec!["ac".to_string()]);
    assert_eq!((ed.view.cy, ed.view.cx), (0, 1));
}

#[test]
fn delete_key_removes_under_cursor() {
    let mut ed = editor_from(&["abc"], None);
    ed.view.cx = 1;
    ed.apply_key(Key::Del, 0);
    assert_eq!(rows_of(&ed), vec!["ac".to_string()]);
    assert_eq!((ed.view.cy, ed.view.cx), (0, 1));
}

#[test]
fn return_and_escape_characters_are_noops() {
    let mut ed = editor_from(&["ab"], None);
    ed.apply_key(Key::Char(13), 0);
    ed.apply_key(Key::Char(27), 0);
    assert_eq!(rows_of(&ed), vec!["ab".to_string()]);
    assert!(!ed.buf.dirty);
}

#[test]
fn home_and_end_jump_within_the_line() {
    let mut ed = editor_from(&["abcdef"], None);
    ed.apply_key(Key::End, 0);
    assert_eq!(ed.view.cx, 6);
    ed.apply_key(Key::Home, 0);
    assert_eq!(ed.view.cx, 0);
}

#[test]
fn quit_with_clean_buffer_quits_at_once() {
    let mut ed = editor_from(&["ab"], None);
    assert_eq!(ed.apply_key(Key::Ctrl(b'q'), 0), EditorAction::Quit);
}

#[test]
fn three_quit_presses_with_unsaved_changes_quit() {
    let mut ed = editor_from(&["ab"], None);
    ed.apply_key(Key::Char(b'x'), 0);
    assert!(ed.buf.dirty);
    assert_eq!(ed.apply_key(Key::Ctrl(b'q'), 1), EditorAction::Continue);
    assert!(String::from_utf8(ed.msg.clone()).unwrap().contains("2 more times"));
    assert_eq!(ed.apply_key(Key::Ctrl(b'q'), 2), EditorAction::Continue);
    assert!(String::from_utf8(ed.msg.clone()).unwrap().contains("1 more times"));
    assert_eq!(ed.apply_key(Key::Ctrl(b'q'), 3), EditorAction::Quit);
}

#[test]
fn any_other_key_resets_the_quit_allowance() {
    let mut ed = editor_from(&["ab"], None);
    ed.apply_key(Key::Char(b'x'), 0);
    assert_eq!(ed.apply_key(Key::Ctrl(b'q'), 1), EditorAction::Continue);
    assert_eq!(ed.apply_key(Key::Ctrl(b'q'), 2), EditorAction::Continue);
    ed.apply_key(Key::Right, 3);
    assert_eq!(ed.quit_remaining, 3);
    assert_eq!(ed.apply_key(Key::Ctrl(b'q'), 4), EditorAction::Continue);
    assert_eq!(ed.apply_key(Key::Ctrl(b'q'), 5), EditorAction::Continue);
    assert_eq!(ed.apply_key(Key::Ctrl(b'q'), 6), EditorAction::Quit);
}

#[test]
fn save_key_requests_a_save() {
    let mut ed = editor_from(&["ab"], Some("f.txt"));
    assert_eq!(ed.apply_key(Key::Ctrl(b's'), 0), EditorAction::Save);
}

#[test]
fn save_payload_serializes_when_named() {
    let ed = editor_from(&["x", "y"], Some("f.txt"));
    assert_eq!(ed.save_payload(), Some(b"x\ny\n".to_vec()));
    let unnamed = editor_from(&["x"], None);
    assert_eq!(unnamed.save_payload(), None);
}

#[test]
fn successful_save_clears_dirty_and_reports_bytes() {
    let mut ed = editor_from(&["ab"], Some("f.txt"));
    ed.apply_key(Key::Char(b'x'), 0);
    assert!(ed.buf.dirty);
    ed.note_save_result(SaveOutcome::Written(4), 9);
    assert!(!ed.buf.dirty);
    assert_eq!(ed.msg, b"4 bytes written to disk".to_vec());
    assert_eq!(ed.msg_time, 9);
}

#[test]
fn failed_save_keeps_dirty_and_reports_error() {
    let mut ed = editor_from(&["ab"], Some("f.txt"));
    ed.apply_key(Key::Char(b'x'), 0);
    ed.note_save_result(SaveOutcome::Failed(b"permission denied".to_vec()), 9);
    assert!(ed.buf.dirty);
    assert_eq!(ed.msg, b"Can't save! I/O error: permission denied".to_vec());
}

#[test]
fn save_without_a_name_reports_zero_bytes() {
    let mut ed = editor_from(&["ab"], None);
    ed.apply_key(Key::Char(b'x'), 0);
    ed.note_save_result(SaveOutcome::NoFile, 9);
    assert!(ed.buf.dirty);
    assert_eq!(ed.msg, b"0 bytes written to disk".to_vec());
}

#[test]
fn refresh_keeps_cursor_inside_viewport() {
    let lines: Vec<String> = (0..50).map(|i| format!("line {}", i)).collect();
    let refs: Vec<&str> = lines.iter().map(|s| s.as_str()).collect();
    let mut ed = editor_from(&refs, None);
    for _ in 0..30 {
        ed.apply_key(Key::Down, 0);
    }
    ed.refresh_frame(0);
    let h = ed.height;
    assert!(ed.view.row_offset <= ed.view.cy && ed.view.cy < ed.view.row_offset + h);
    let w = ed.width;
    assert!(ed.view.col_offset <= ed.view.rx && ed.view.rx < ed.view.col_offset + w);
}

#[test]
fn frame_starts_hidden_and_ends_with_cursor_shown() {
    let mut ed = editor_from(&["hello"], None);
    let frame = ed.refresh_frame(0);
    assert!(frame.starts_with(b"\x1b[?25l\x1b[H"));
    assert!(frame.ends_with(b"\x1b[?25h"));
    let text = String::from_utf8_lossy(&frame).into_owned();
    assert!(text.contains("hello"));
    assert!(text.contains("\x1b[1;1H"));
}

#[test]
fn frame_places_cursor_at_viewport_position() {
    let mut ed = editor_from(&["abc", "def"], None);
    ed.apply_key(Key::Down, 0);
    ed.apply_key(Key::Right, 0);
    let frame = ed.refresh_frame(0);
    let text = String::from_utf8_lossy(&frame).into_owned();
    assert!(text.contains("\x1b[2;2H"));
}

#[test]
fn status_message_shows_and_expires() {
    let mut ed = editor_from(&["ab"], None);
    ed.set_status_msg(b"HELP: Ctrl-S = save | Ctrl-Q = quit".to_vec(), 100);
    let frame = ed.refresh_frame(102);
    assert!(String::from_utf8_lossy(&frame).contains("HELP:"));
    let frame = ed.refresh_frame(105);
    assert!(!String::from_utf8_lossy(&frame).contains("HELP:"));
}

#[test]
fn window_size_reserves_two_bar_rows() {
    let ed = editor_from(&["ab"], None);
    assert_eq!(ed.height, 10);
    assert_eq!(ed.width, 40);
}

#[test]
fn cursor_report_parses_rows_and_cols() {
    assert_eq!(parse_cursor_report(&b"\x1b[24;80".to_vec()), Some((24, 80)));
    assert_eq!(parse_cursor_report(&b"\x1b[1;1".to_vec()), Some((1, 1)));
}

#[test]
fn cursor_report_rejects_malformed_input() {
    assert_eq!(parse_cursor_report(&b"".to_vec()), None);
    assert_eq!(parse_cursor_report(&b"\x1b[".to_vec()), None);
    assert_eq!(parse_cursor_report(&b"\x1b[24".to_vec()), None);
    assert_eq!(parse_cursor_report(&b"\x1b[;80".to_vec()), None);
    assert_eq!(parse_cursor_report(&b"\x1b[24;".to_vec()), None);
    assert_eq!(parse_cursor_report(&b"\x1b[24;80;1".to_vec()), None);
    assert_eq!(parse_cursor_report(&b"x[24;80".to_vec()), None);
    assert_eq!(parse_cursor_report(&b"\x1b[2a;80".to_vec()), None);
}

#[test]
fn cursor_report_rejects_oversized_numbers() {
    assert_eq!(parse_cursor_report(&b"\x1b[70000;80".to_vec()), None);
    assert_eq!(parse_cursor_report(&b"\x1b[65535;65535".to_vec()), Some((65535, 65535)));
}

#[test]
fn page_keys_move_a_viewport_at_a_time() {
    let lines: Vec<String> = (0..50).map(|i| i.to_string()).collect();
    let refs: Vec<&str> = lines.iter().map(|s| s.as_str()).collect();
    let mut ed = editor_from(&refs, None);
    ed.apply_key(Key::PageDown, 0);
    assert_eq!(ed.view.cy, 19);
    ed.apply_key(Key::PageUp, 0);
    assert_eq!(ed.view.cy, 0);
}
