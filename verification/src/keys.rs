//! Logical key events and the escape-sequence decoder.
//!
//! The terminal delivers raw bytes; multi-byte escape sequences arrive one
//! byte at a time through a timed read that may also yield nothing.  The
//! decoder is an explicit state machine: each call of [`decoder_step`] takes
//! the state so far and one input event (`Some(byte)` or `None` for a read
//! timeout) and either asks for more input or produces a [`Key`].  An
//! incomplete or unmatched sequence degrades to a literal escape keypress,
//! never an error, and no byte beyond what the sequence grammar needs is
//! consumed.

use vstd::prelude::*;

verus! {

/// A logical key event decoded from the terminal byte stream.
#[derive(Clone, Copy, PartialEq, Eq, Structural, Debug)]
pub enum Key {
    Char(u8),
    Ctrl(u8),
    Left,
    Right,
    Up,
    Down,
    Del,
    Home,
    End,
    PageUp,
    PageDown,
    /// A dedicated return key.  The decoder never produces it — a
    /// carriage return byte classifies as a control key — but callers
    /// that synthesize key events may use it; the editor ignores it.
    Return,
    Backspace,
}

/// Decoder state between input bytes.
#[derive(Clone, Copy, PartialEq, Eq, Structural, Debug)]
pub enum DecodeState {
    /// No byte of a sequence seen yet.
    Start,
    /// An escape byte was seen.
    Esc,
    /// Escape then `[` were seen.
    Csi,
    /// Escape, `[` and one digit were seen; the digit is kept.
    CsiDigit(u8),
    /// Escape then `O` were seen.
    EscO,
}

/// What one decoder step yields: either a next state that needs more
/// input, or a finished key.
#[derive(Clone, Copy, PartialEq, Eq, Structural, Debug)]
pub enum DecodeStep {
    Pending(DecodeState),
    Done(Key),
}

/// The key a single byte outside any escape sequence stands for:
/// bytes below 0x20 are control keys, byte 127 is backspace, anything
/// else is a literal character.
pub open spec fn spec_classify(b: u8) -> Key {
    if b == 127 {
        Key::Backspace
    } else if b < 32 {
        Key::Ctrl(b | 0x60)
    } else {
        Key::Char(b)
    }
}

/// The key a final CSI byte maps to, or a literal escape when unmatched.
pub open spec fn spec_csi_final(b: u8) -> Key {
    if b == 65 {
        Key::Up
    } else if b == 66 {
        Key::Down
    } else if b == 67 {
        Key::Right
    } else if b == 68 {
        Key::Left
    } else if b == 72 {
        Key::Home
    } else if b == 70 {
        Key::End
    } else {
        Key::Char(27)
    }
}

/// The key a numeric CSI sequence `ESC [ d ~` maps to, given its digit,
/// or a literal escape when the digit is unmatched.
pub open spec fn spec_csi_tilde(d: u8) -> Key {
    if d == 49 || d == 55 {
        Key::Home
    } else if d == 50 || d == 56 {
        Key::End
    } else if d == 51 {
        Key::Del
    } else if d == 53 {
        Key::PageUp
    } else if d == 54 {
        Key::PageDown
    } else {
        Key::Char(27)
    }
}

/// The decoder's transition table: one step from a state and an input
/// event (`None` is a read timeout).  Waiting at `Start` continues;
/// a timeout inside a sequence, or any unmatched byte, resolves the
/// sequence to a literal escape.
pub open spec fn spec_decode_step(st: DecodeState, input: Option<u8>) -> DecodeStep {
    match st {
        DecodeState::Start => match input {
            Option::None => DecodeStep::Pending(DecodeState::Start),
            Option::Some(b) => if b == 27 {
                DecodeStep::Pending(DecodeState::Esc)
            } else {
                DecodeStep::Done(spec_classify(b))
            },
        },
        DecodeState::Esc => match input {
            Option::Some(b) => if b == 91 {
                DecodeStep::Pending(DecodeState::Csi)
            } else if b == 79 {
                DecodeStep::Pending(DecodeState::EscO)
            } else {
                DecodeStep::Done(Key::Char(27))
            },
            Option::None => DecodeStep::Done(Key::Char(27)),
        },
        DecodeState::Csi => match input {
            Option::Some(b) => if 48 <= b && b <= 57 {
                DecodeStep::Pending(DecodeState::CsiDigit(b))
            } else {
                DecodeStep::Done(spec_csi_final(b))
            },
            Option::None => DecodeStep::Done(Key::Char(27)),
        },
        DecodeState::CsiDigit(d) => match input {
            Option::Some(b) => if b == 126 {
                DecodeStep::Done(spec_csi_tilde(d))
            } else {
                DecodeStep::Done(Key::Char(27))
            },
            Option::None => DecodeStep::Done(Key::Char(27)),
        },
        DecodeState::EscO => match input {
            Option::Some(b) => if b == 72 {
                DecodeStep::Done(Key::Home)
            } else if b == 70 {
                DecodeStep::Done(Key::End)
            } else {
                DecodeStep::Done(Key::Char(27))
            },
            Option::None => DecodeStep::Done(Key::Char(27)),
        },
    }
}

/// Feed one input event to the decoder.
pub fn decoder_step(st: DecodeState, input: Option<u8>) -> (r: DecodeStep)
    ensures
        r == spec_decode_step(st, input),
{
    match st {
        DecodeState::Start => match input {
            Option::None => DecodeStep::Pending(DecodeState::Start),
            Option::Some(b) => if b == 27 {
                DecodeStep::Pending(DecodeState::Esc)
            } else if b == 127 {
                DecodeStep::Done(Key::Backspace)
            } else if b < 32 {
                DecodeStep::Done(Key::Ctrl(b | 0x60))
            } else {
                DecodeStep::Done(Key::Char(b))
            },
        },
        DecodeState::Esc => match input {
            Option::Some(b) => if b == 91 {
                DecodeStep::Pending(DecodeState::Csi)
            } else if b == 79 {
                DecodeStep::Pending(DecodeState::EscO)
            } else {
                DecodeStep::Done(Key::Char(27))
            },
            Option::None => DecodeStep::Done(Key::Char(27)),
        },
        DecodeState::Csi => match input {
            Option::Some(b) => if 48 <= b && b <= 57 {
                DecodeStep::Pending(DecodeState::CsiDigit(b))
            } else if b == 65 {
                DecodeStep::Done(Key::Up)
            } else if b == 66 {
                DecodeStep::Done(Key::Down)
            } else if b == 67 {
                DecodeStep::Done(Key::Right)
            } else if b == 68 {
                DecodeStep::Done(Key::Left)
            } else if b == 72 {
                DecodeStep::Done(Key::Home)
            } else if b == 70 {
                DecodeStep::Done(Key::End)
            } else {
                DecodeStep::Done(Key::Char(27))
            },
            Option::None => DecodeStep::Done(Key::Char(27)),
        },
        DecodeState::CsiDigit(d) => match input {
            Option::Some(b) => if b == 126 {
                if d == 49 || d == 55 {
                    DecodeStep::Done(Key::Home)
                } else if d == 50 || d == 56 {
                    DecodeStep::Done(Key::End)
                } else if d == 51 {
                    DecodeStep::Done(Key::Del)
                } else if d == 53 {
                    DecodeStep::Done(Key::PageUp)
                } else if d == 54 {
                    DecodeStep::Done(Key::PageDown)
                } else {
                    DecodeStep::Done(Key::Char(27))
                }
            } else {
                DecodeStep::Done(Key::Char(27))
            },
            Option::None => DecodeStep::Done(Key::Char(27)),
        },
        DecodeState::EscO => match input {
            Option::Some(b) => if b == 72 {
                DecodeStep::Done(Key::Home)
            } else if b == 70 {
                DecodeStep::Done(Key::End)
            } else {
                DecodeStep::Done(Key::Char(27))
            },
            Option::None => DecodeStep::Done(Key::Char(27)),
        },
    }
}

} // verus!
