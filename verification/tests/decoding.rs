use kilo::keys::{decoder_step, DecodeState, DecodeStep, Key};

/// Run the decoder over a byte sequence followed by the given number of
/// timeouts, returning the first finished key.
fn decode(bytes: &[u8], timeouts: usize) -> Option<Key> {
    let mut st = DecodeState::Start;
    for &b in bytes {
        match decoder_step(st, Some(b)) {
            DecodeStep::Pending(next) => st = next,
            DecodeStep::Done(k) => return Some(k),
        }
    }
    for _ in 0..timeouts {
        match decoder_step(st, None) {
            DecodeStep::Pending(next) => st = next,
            DecodeStep::Done(k) => return Some(k),
        }
    }
    None
}

#[test]
fn arrow_up_sequence() {
    assert_eq!(decode(&[0x1b, b'[', b'A'], 0), Some(Key::Up));
}

#[test]
fn numeric_delete_sequence() {
    assert_eq!(decode(&[0x1b, b'[', b'3', b'~'], 0), Some(Key::Del));
}

#[test]
fn lone_escape_times_out_to_literal_escape() {
    assert_eq!(decode(&[0x1b], 1), Some(Key::Char(0x1b)));
}

#[test]
fn arrows_and_edges() {
    assert_eq!(decode(&[0x1b, b'[', b'B'], 0), Some(Key::Down));
    assert_eq!(decode(&[0x1b, b'[', b'C'], 0), Some(Key::Right));
    assert_eq!(decode(&[0x1b, b'[', b'D'], 0), Some(Key::Left));
    assert_eq!(decode(&[0x1b, b'[', b'H'], 0), Some(Key::Home));
    assert_eq!(decode(&[0x1b, b'[', b'F'], 0), Some(Key::End));
}

#[test]
fn numeric_sequences() {
    assert_eq!(decode(&[0x1b, b'[', b'1', b'~'], 0), Some(Key::Home));
    assert_eq!(decode(&[0x1b, b'[', b'7', b'~'], 0), Some(Key::Home));
    assert_eq!(decode(&[0x1b, b'[', b'2', b'~'], 0), Some(Key::End));
    assert_eq!(decode(&[0x1b, b'[', b'8', b'~'], 0), Some(Key::End));
    assert_eq!(decode(&[0x1b, b'[', b'5', b'~'], 0), Some(Key::PageUp));
    assert_eq!(decode(&[0x1b, b'[', b'6', b'~'], 0), Some(Key::PageDown));
}

#[test]
fn esc_o_sequences() {
    assert_eq!(decode(&[0x1b, b'O', b'H'], 0), Some(Key::Home));
    assert_eq!(decode(&[0x1b, b'O', b'F'], 0), Some(Key::End));
    assert_eq!(decode(&[0x1b, b'O', b'x'], 0), Some(Key::Char(0x1b)));
}

#[test]
fn unmatched_sequences_degrade_to_escape() {
    assert_eq!(decode(&[0x1b, b'x'], 0), Some(Key::Char(0x1b)));
    assert_eq!(decode(&[0x1b, b'[', b'Z'], 0), Some(Key::Char(0x1b)));
    assert_eq!(decode(&[0x1b, b'[', b'4', b'~'], 0), Some(Key::Char(0x1b)));
    assert_eq!(decode(&[0x1b, b'[', b'3', b'x'], 0), Some(Key::Char(0x1b)));
    assert_eq!(decode(&[0x1b, b'['], 1), Some(Key::Char(0x1b)));
    assert_eq!(decode(&[0x1b, b'[', b'3'], 1), Some(Key::Char(0x1b)));
}

#[test]
fn single_bytes_classify() {
    assert_eq!(decode(&[b'a'], 0), Some(Key::Char(b'a')));
    assert_eq!(decode(&[127], 0), Some(Key::Backspace));
    assert_eq!(decode(&[0x11], 0), Some(Key::Ctrl(b'q')));
    assert_eq!(decode(&[0x13], 0), Some(Key::Ctrl(b's')));
    assert_eq!(decode(&[0x08], 0), Some(Key::Ctrl(b'h')));
    assert_eq!(decode(&[0x0d], 0), Some(Key::Ctrl(b'm')));
}

#[test]
fn waiting_at_start_stays_pending() {
    assert_eq!(decode(&[], 3), None);
}
