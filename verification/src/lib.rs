//! A small terminal line editor, verified with Verus.
//!
//! The crate holds the editor's logic: decoding the raw key-byte stream,
//! the text buffer with its edit operations, cursor and viewport movement,
//! and the composition of each screen frame as a byte string.  Terminal
//! I/O itself (raw mode, reads, writes) lives outside the library; the
//! library works on plain values and states exactly what each operation
//! does to them.

pub mod buffer;
pub mod editor;
pub mod keys;
pub mod render;
pub mod report;
pub mod viewport;

pub use buffer::TextBuffer;
pub use editor::{Editor, EditorAction, EditorModel, SaveOutcome};
pub use keys::{Key, DecodeState, DecodeStep};
pub use viewport::Viewport;
