//! The editor's top-level state machine.
//!
//! One structure gathers the text buffer, the cursor and viewport, the
//! window size, the quit-confirmation allowance and the status message.
//! Each key event is one transition, given exactly by [`spec_step`]:
//! the quit key consumes the allowance while there are unsaved changes
//! and quits once it runs out, the save key asks the caller to write
//! the serialized buffer out, and every other key edits or moves and
//! restores the allowance.  The caller performs the I/O: it feeds keys
//! in, writes frames out, writes the save payload and reports how that
//! went.

use vstd::prelude::*;
use crate::buffer::{
    TextBuffer, spec_insert, spec_delete, spec_delete_mutates, spec_serialize,
    spec_buffer_size, lemma_size_nonneg, lemma_size_len, lemma_size_take,
    lemma_size_take_unfold, lemma_size_line, lemma_size_insert, lemma_size_delete,
};
use crate::keys::Key;
use crate::viewport::{
    Viewport, cursor_ok, spec_move, spec_move_n, spec_page_start, spec_clamp_offset, spec_rx,
    lemma_rx_bounds,
};
use crate::render::{compose_frame, spec_digits, spec_frame, push_digits};

verus! {

/// How many times the quit key must be pressed, with unsaved changes,
/// before the editor quits.
pub const QUIT_TIMES: usize = 3;

/// The largest serialized buffer the editor handles, so that all column
/// and offset arithmetic stays far from the machine's limits.
pub const MAX_BUFFER_SIZE: usize = 0x1000_0000;

/// What the caller must do after a key is applied: carry on, write the
/// buffer out, or tear the terminal down and exit.
#[derive(Clone, Copy, PartialEq, Eq, Structural, Debug)]
pub enum EditorAction {
    Continue,
    Save,
    Quit,
}

/// How a requested save went: so many bytes written, no file name to
/// write to, or a failure described by the caller.
pub enum SaveOutcome {
    Written(usize),
    NoFile,
    Failed(Vec<u8>),
}

/// The editor's state as mathematics: what every contract here speaks
/// of.
#[verifier::ext_equal]
pub struct EditorModel {
    pub lines: Seq<Seq<u8>>,
    pub dirty: bool,
    pub filename: Option<Seq<u8>>,
    pub cy: int,
    pub cx: int,
    pub rx: int,
    pub row_offset: int,
    pub col_offset: int,
    pub height: int,
    pub width: int,
    pub quit_remaining: int,
    pub msg: Seq<u8>,
    pub msg_time: int,
}

/// The warning shown while quitting is being confirmed, around the
/// number of presses still needed.
pub open spec fn warn_prefix() -> Seq<u8> {
    seq![87u8, 65u8, 82u8, 78u8, 73u8, 78u8, 71u8, 33u8, 33u8, 33u8, 32u8, 70u8, 105u8, 108u8, 
        101u8, 32u8, 104u8, 97u8, 115u8, 32u8, 117u8, 110u8, 115u8, 97u8, 118u8, 101u8, 100u8, 
        32u8, 99u8, 104u8, 97u8, 110u8, 103u8, 101u8, 115u8, 46u8, 32u8, 80u8, 114u8, 101u8, 
        115u8, 115u8, 32u8, 67u8, 116u8, 114u8, 108u8, 45u8, 81u8, 32u8]
}

pub open spec fn warn_suffix() -> Seq<u8> {
    seq![32u8, 109u8, 111u8, 114u8, 101u8, 32u8, 116u8, 105u8, 109u8, 101u8, 115u8, 32u8, 
        116u8, 111u8, 32u8, 113u8, 117u8, 105u8, 116u8]
}

pub open spec fn spec_warn_msg(remaining: int) -> Seq<u8> {
    warn_prefix() + spec_digits(remaining) + warn_suffix()
}

/// The message shown after a successful save, behind the byte count.
pub open spec fn saved_suffix() -> Seq<u8> {
    seq![32u8, 98u8, 121u8, 116u8, 101u8, 115u8, 32u8, 119u8, 114u8, 105u8, 116u8, 116u8, 
        101u8, 110u8, 32u8, 116u8, 111u8, 32u8, 100u8, 105u8, 115u8, 107u8]
}

pub open spec fn spec_saved_msg(n: int) -> Seq<u8> {
    spec_digits(n) + saved_suffix()
}

/// The message shown after a failed save, before the error's text.
pub open spec fn save_err_prefix() -> Seq<u8> {
    seq![67u8, 97u8, 110u8, 39u8, 116u8, 32u8, 115u8, 97u8, 118u8, 101u8, 33u8, 32u8, 73u8, 
        47u8, 79u8, 32u8, 101u8, 114u8, 114u8, 111u8, 114u8, 58u8, 32u8]
}

/// Whether a key inserts a character: any literal character except the
/// carriage return and the escape byte.
pub open spec fn spec_key_inserts(key: Key) -> bool {
    match key {
        Key::Char(c) => c != 13 && c != 27,
        _ => false,
    }
}

/// Whether one more inserted byte keeps the buffer within its size
/// bound (an insertion adds at most one line and one byte).
pub open spec fn spec_has_room(m: EditorModel) -> bool {
    spec_buffer_size(m.lines) + 2 <= MAX_BUFFER_SIZE
}

/// A state the editor keeps itself in: the cursor on a reachable
/// position, sane window dimensions, the buffer within its size bound,
/// and offsets, rendered column and quit allowance within their ranges.
pub open spec fn spec_wf(m: EditorModel) -> bool {
    &&& cursor_ok(m.lines, m.cy, m.cx)
    &&& 1 <= m.height <= 65535
    &&& 1 <= m.width <= 65535
    &&& spec_buffer_size(m.lines) <= MAX_BUFFER_SIZE
    &&& 0 <= m.row_offset <= MAX_BUFFER_SIZE
    &&& 0 <= m.col_offset <= 8 * MAX_BUFFER_SIZE
    &&& 0 <= m.rx <= 8 * MAX_BUFFER_SIZE
    &&& 0 <= m.quit_remaining <= QUIT_TIMES
    &&& 0 <= m.msg_time
}

/// What one non-quit key does to the state: arrows and paging move the
/// cursor, home and end jump within the line, backspace and its control
/// twin delete before the cursor, delete first steps right and then
/// deletes, a literal character is inserted, and everything else leaves
/// the state alone.
pub open spec fn spec_dispatch(m: EditorModel, key: Key) -> EditorModel {
    match key {
        Key::Up | Key::Down | Key::Left | Key::Right => {
            let (ny, nx) = spec_move(m.lines, m.cy, m.cx, key);
            EditorModel { cy: ny, cx: nx, ..m }
        },
        Key::PageUp => {
            let start = spec_page_start(m.lines.len() as int, m.row_offset, m.height, true);
            let (ny, nx) = spec_move_n(m.lines, start, m.cx, Key::Up, m.height as nat);
            EditorModel { cy: ny, cx: nx, ..m }
        },
        Key::PageDown => {
            let start = spec_page_start(m.lines.len() as int, m.row_offset, m.height, false);
            let (ny, nx) = spec_move_n(m.lines, start, m.cx, Key::Down, m.height as nat);
            EditorModel { cy: ny, cx: nx, ..m }
        },
        Key::Home => EditorModel { cx: 0, ..m },
        Key::End => EditorModel {
            cx: if m.cy < m.lines.len() {
                m.lines[m.cy].len() as int
            } else {
                0
            },
            ..m
        },
        Key::Del => {
            let (my, mx) = spec_move(m.lines, m.cy, m.cx, Key::Right);
            let (nl, ny, nx) = spec_delete(m.lines, my, mx);
            EditorModel {
                lines: nl,
                cy: ny,
                cx: nx,
                dirty: m.dirty || spec_delete_mutates(m.lines, my, mx),
                ..m
            }
        },
        Key::Backspace => {
            let (nl, ny, nx) = spec_delete(m.lines, m.cy, m.cx);
            EditorModel {
                lines: nl,
                cy: ny,
                cx: nx,
                dirty: m.dirty || spec_delete_mutates(m.lines, m.cy, m.cx),
                ..m
            }
        },
        Key::Ctrl(c) => if c == 104 {
            let (nl, ny, nx) = spec_delete(m.lines, m.cy, m.cx);
            EditorModel {
                lines: nl,
                cy: ny,
                cx: nx,
                dirty: m.dirty || spec_delete_mutates(m.lines, m.cy, m.cx),
                ..m
            }
        } else {
            m
        },
        Key::Char(c) => if c == 13 || c == 27 {
            m
        } else {
            EditorModel {
                lines: spec_insert(m.lines, m.cy, m.cx, c),
                cx: m.cx + 1,
                dirty: true,
                ..m
            }
        },
        _ => m,
    }
}

/// The whole transition for one key at time `now`: the quit key first
/// consults the dirty flag and the remaining allowance; any other key
/// is dispatched and restores the allowance, the save key additionally
/// asking the caller to write the buffer out.
pub open spec fn spec_step(m: EditorModel, key: Key, now: int) -> (EditorModel, EditorAction) {
    if key == Key::Ctrl(113) {
        if !m.dirty {
            (m, EditorAction::Quit)
        } else if m.quit_remaining <= 1 {
            (EditorModel { quit_remaining: 0, ..m }, EditorAction::Quit)
        } else {
            (
                EditorModel {
                    quit_remaining: m.quit_remaining - 1,
                    msg: spec_warn_msg(m.quit_remaining - 1),
                    msg_time: now,
                    ..m
                },
                EditorAction::Continue,
            )
        }
    } else {
        let m1 = spec_dispatch(m, key);
        (
            EditorModel { quit_remaining: QUIT_TIMES as int, ..m1 },
            if key == Key::Ctrl(115) {
                EditorAction::Save
            } else {
                EditorAction::Continue
            },
        )
    }
}

/// What the scroll step before a frame does to the state: recompute the
/// rendered column and clamp both offsets around the cursor.
pub open spec fn spec_scroll(m: EditorModel) -> EditorModel {
    let rx = if m.cy < m.lines.len() {
        spec_rx(m.lines[m.cy], m.cx)
    } else {
        0
    };
    EditorModel {
        rx: rx,
        row_offset: spec_clamp_offset(m.row_offset, m.cy, m.height),
        col_offset: spec_clamp_offset(m.col_offset, rx, m.width),
        ..m
    }
}

/// With unsaved changes and the full allowance, the third consecutive
/// press of the quit key quits, the first two only warning; no buffer
/// content changes on the way.
pub proof fn lemma_quit_after_three(m: EditorModel, now1: int, now2: int, now3: int)
    requires
        m.dirty,
        m.quit_remaining == QUIT_TIMES as int,
    ensures
        ({
            let (m1, a1) = spec_step(m, Key::Ctrl(113), now1);
            let (m2, a2) = spec_step(m1, Key::Ctrl(113), now2);
            let (m3, a3) = spec_step(m2, Key::Ctrl(113), now3);
            &&& a1 == EditorAction::Continue
            &&& a2 == EditorAction::Continue
            &&& a3 == EditorAction::Quit
            &&& m1.lines == m.lines && m2.lines == m.lines && m3.lines == m.lines
        }),
{
}

/// Any key other than the quit key restores the full quit allowance.
pub proof fn lemma_other_key_restores_allowance(m: EditorModel, key: Key, now: int)
    requires
        key != Key::Ctrl(113),
    ensures
        spec_step(m, key, now).0.quit_remaining == QUIT_TIMES as int,
{
}

/// A deletion lands the cursor on a reachable position.
proof fn lemma_delete_ok(lines: Seq<Seq<u8>>, cy: int, cx: int)
    requires
        cursor_ok(lines, cy, cx),
    ensures
        ({
            let (nl, ny, nx) = spec_delete(lines, cy, cx);
            cursor_ok(nl, ny, nx)
        }),
{
    let (nl, ny, nx) = spec_delete(lines, cy, cx);
    if spec_delete_mutates(lines, cy, cx) {
        if cx > 0 {
            assert(nl[cy].len() == lines[cy].len() - 1);
        } else {
            assert(nl[cy - 1].len() == lines[cy - 1].len() + lines[cy].len());
        }
    }
}

/// The serialized size of the buffer, capped: the size itself while it
/// is within bounds, nothing when it exceeds them.
fn buffer_size_capped(buf: &TextBuffer) -> (r: Option<usize>)
    ensures
        match r {
            Option::Some(n) => n as int == spec_buffer_size(buf.lines()) && n
                <= MAX_BUFFER_SIZE,
            Option::None => spec_buffer_size(buf.lines()) > MAX_BUFFER_SIZE,
        },
{
    let ghost lines = buf.lines();
    let mut sum: usize = 0;
    let n = buf.rows.len();
    let mut i: usize = 0;
    proof {
        assert(lines.take(0) =~= Seq::<Seq<u8>>::empty());
    }
    while i < n
        invariant
            i <= n,
            n == lines.len(),
            lines == buf.lines(),
            sum as int == spec_buffer_size(lines.take(i as int)),
            sum <= MAX_BUFFER_SIZE,
        decreases n - i,
    {
        let rl = buf.rows[i].len();
        proof {
            lemma_size_take(lines, i as int + 1);
            lemma_size_take_unfold(lines, i as int);
        }
        if rl >= MAX_BUFFER_SIZE {
            return None;
        }
        let s2 = sum + rl + 1;
        if s2 > MAX_BUFFER_SIZE {
            return None;
        }
        sum = s2;
        i = i + 1;
    }
    proof {
        assert(lines.take(n as int) =~= lines);
    }
    Some(sum)
}

/// Whether a buffer is small enough to edit (see [`MAX_BUFFER_SIZE`]).
pub fn buffer_size_ok(buf: &TextBuffer) -> (r: bool)
    ensures
        r == (spec_buffer_size(buf.lines()) <= MAX_BUFFER_SIZE),
{
    match buffer_size_capped(buf) {
        Some(_) => true,
        None => false,
    }
}

/// The editor: buffer, viewport, window size, quit allowance and the
/// current status message with the time it was set.
pub struct Editor {
    pub buf: TextBuffer,
    pub view: Viewport,
    pub height: usize,
    pub width: usize,
    pub quit_remaining: usize,
    pub msg: Vec<u8>,
    pub msg_time: u64,
}

impl View for Editor {
    type V = EditorModel;

    open spec fn view(&self) -> EditorModel {
        EditorModel {
            lines: self.buf.lines(),
            dirty: self.buf.dirty,
            filename: self.buf.filename.deep_view(),
            cy: self.view.cy as int,
            cx: self.view.cx as int,
            rx: self.view.rx as int,
            row_offset: self.view.row_offset as int,
            col_offset: self.view.col_offset as int,
            height: self.height as int,
            width: self.width as int,
            quit_remaining: self.quit_remaining as int,
            msg: self.msg@,
            msg_time: self.msg_time as int,
        }
    }
}

impl Editor {
    /// The state the editor keeps itself in.
    pub open spec fn wf(&self) -> bool {
        spec_wf(self@)
    }

    /// A fresh editor over the given buffer, with a default window size
    /// until the real one is known.
    pub fn new(buf: TextBuffer) -> (r: Editor)
        requires
            spec_buffer_size(buf.lines()) <= MAX_BUFFER_SIZE,
        ensures
            r.wf(),
            r@ == (EditorModel {
                lines: buf.lines(),
                dirty: buf.dirty,
                filename: buf.filename.deep_view(),
                cy: 0,
                cx: 0,
                rx: 0,
                row_offset: 0,
                col_offset: 0,
                height: 25,
                width: 80,
                quit_remaining: QUIT_TIMES as int,
                msg: Seq::<u8>::empty(),
                msg_time: 0,
            }),
    {
        let r = Editor {
            buf,
            view: Viewport::new(),
            height: 25,
            width: 80,
            quit_remaining: QUIT_TIMES,
            msg: Vec::new(),
            msg_time: 0,
        };
        proof {
            assert(r@ =~~= (EditorModel {
                lines: r.buf.lines(),
                dirty: r.buf.dirty,
                filename: r.buf.filename.deep_view(),
                cy: 0,
                cx: 0,
                rx: 0,
                row_offset: 0,
                col_offset: 0,
                height: 25,
                width: 80,
                quit_remaining: QUIT_TIMES as int,
                msg: Seq::<u8>::empty(),
                msg_time: 0,
            }));
        }
        r
    }

    /// Take the measured terminal size: two rows are kept for the
    /// status and message bars.
    pub fn set_window_size(&mut self, rows: u16, cols: u16)
        requires
            old(self).wf(),
            rows >= 3,
            cols >= 1,
        ensures
            final(self).wf(),
            final(self)@ == (EditorModel {
                height: rows as int - 2,
                width: cols as int,
                ..old(self)@
            }),
    {
        self.height = rows as usize - 2;
        self.width = cols as usize;
        proof {
            assert(self@ =~~= (EditorModel {
                height: rows as int - 2,
                width: cols as int,
                ..old(self)@
            }));
        }
    }

    /// Show a status message, set now.
    pub fn set_status_msg(&mut self, msg: Vec<u8>, now: u64)
        requires
            old(self).wf(),
        ensures
            final(self).wf(),
            final(self)@ == (EditorModel { msg: msg@, msg_time: now as int, ..old(self)@ }),
    {
        self.msg = msg;
        self.msg_time = now;
        proof {
            assert(self@ =~~= (EditorModel { msg: msg@, msg_time: now as int, ..old(self)@ }));
        }
    }

    /// Whether one more inserted character is within the size bound.
    pub fn has_room(&self) -> (r: bool)
        ensures
            r == spec_has_room(self@),
    {
        match buffer_size_capped(&self.buf) {
            Some(n) => n + 2 <= MAX_BUFFER_SIZE,
            None => {
                proof {
                    lemma_size_nonneg(self.buf.lines());
                }
                false
            },
        }
    }
}

/// After `n` movement steps the cursor is still inside the buffer, and
/// on a reachable position once at least one step was taken.
proof fn lemma_move_n_ok(lines: Seq<Seq<u8>>, cy: int, cx: int, key: Key, n: nat)
    requires
        0 <= cy <= lines.len(),
        0 <= cx,
    ensures
        ({
            let (ny, nx) = spec_move_n(lines, cy, cx, key, n);
            &&& 0 <= ny <= lines.len()
            &&& 0 <= nx
            &&& n > 0 ==> cursor_ok(lines, ny, nx)
        }),
    decreases n,
{
    if n > 0 {
        lemma_move_n_ok(lines, cy, cx, key, (n - 1) as nat);
        let p = spec_move_n(lines, cy, cx, key, (n - 1) as nat);
        crate::viewport::lemma_move_ok(lines, p.0, p.1, key);
    }
}

/// One dispatched key keeps the editor in its good state.
proof fn lemma_dispatch_wf(m: EditorModel, key: Key)
    requires
        spec_wf(m),
        spec_key_inserts(key) ==> spec_has_room(m),
    ensures
        spec_wf(spec_dispatch(m, key)),
{
    lemma_size_len(m.lines);
    match key {
        Key::Up | Key::Down | Key::Left | Key::Right => {
            crate::viewport::lemma_move_ok(m.lines, m.cy, m.cx, key);
        },
        Key::PageUp => {
            let start = spec_page_start(m.lines.len() as int, m.row_offset, m.height, true);
            lemma_move_n_ok(m.lines, start, m.cx, Key::Up, m.height as nat);
        },
        Key::PageDown => {
            let start = spec_page_start(m.lines.len() as int, m.row_offset, m.height, false);
            lemma_move_n_ok(m.lines, start, m.cx, Key::Down, m.height as nat);
        },
        Key::Del => {
            crate::viewport::lemma_move_ok(m.lines, m.cy, m.cx, Key::Right);
            let (my, mx) = spec_move(m.lines, m.cy, m.cx, Key::Right);
            lemma_delete_ok(m.lines, my, mx);
            lemma_size_delete(m.lines, my, mx);
        },
        Key::Backspace => {
            lemma_delete_ok(m.lines, m.cy, m.cx);
            lemma_size_delete(m.lines, m.cy, m.cx);
        },
        Key::Ctrl(c) => {
            if c == 104 {
                lemma_delete_ok(m.lines, m.cy, m.cx);
                lemma_size_delete(m.lines, m.cy, m.cx);
            }
        },
        Key::Char(c) => {
            if !(c == 13 || c == 27) {
                lemma_size_insert(m.lines, m.cy, m.cx, c);
                let nl = spec_insert(m.lines, m.cy, m.cx, c);
                let ls = if m.cy == m.lines.len() {
                    m.lines.push(Seq::<u8>::empty())
                } else {
                    m.lines
                };
                assert(nl[m.cy] == ls[m.cy].insert(m.cx, c));
                assert(nl[m.cy].len() == ls[m.cy].len() + 1);
            }
        },
        _ => {},
    }
}

/// The quit-confirmation warning around the remaining press count.
#[verifier::rlimit(80)]
fn warn_message(remaining: usize) -> (r: Vec<u8>)
    ensures
        r@ == spec_warn_msg(remaining as int),
{
    let mut v: Vec<u8> = Vec::new();
    v.push(87);
    v.push(65);
    v.push(82);
    v.push(78);
    v.push(73);
    v.push(78);
    v.push(71);
    v.push(33);
    v.push(33);
    v.push(33);
    v.push(32);
    v.push(70);
    v.push(105);
    v.push(108);
    v.push(101);
    v.push(32);
    v.push(104);
    v.push(97);
    v.push(115);
    v.push(32);
    v.push(117);
    v.push(110);
    v.push(115);
    v.push(97);
    v.push(118);
    v.push(101);
    v.push(100);
    v.push(32);
    v.push(99);
    v.push(104);
    v.push(97);
    v.push(110);
    v.push(103);
    v.push(101);
    v.push(115);
    v.push(46);
    v.push(32);
    v.push(80);
    v.push(114);
    v.push(101);
    v.push(115);
    v.push(115);
    v.push(32);
    v.push(67);
    v.push(116);
    v.push(114);
    v.push(108);
    v.push(45);
    v.push(81);
    v.push(32);
    proof {
        assert(v@ =~= warn_prefix());
    }
    push_digits(&mut v, remaining);
    let ghost mid = v@;
    v.push(32);
    v.push(109);
    v.push(111);
    v.push(114);
    v.push(101);
    v.push(32);
    v.push(116);
    v.push(105);
    v.push(109);
    v.push(101);
    v.push(115);
    v.push(32);
    v.push(116);
    v.push(111);
    v.push(32);
    v.push(113);
    v.push(117);
    v.push(105);
    v.push(116);
    proof {
        assert(v@ =~= mid + warn_suffix());
    }
    v
}

/// The message reporting a successful save of `n` bytes.
#[verifier::rlimit(60)]
fn saved_message(n: usize) -> (r: Vec<u8>)
    ensures
        r@ == spec_saved_msg(n as int),
{
    let mut v: Vec<u8> = Vec::new();
    push_digits(&mut v, n);
    let ghost mid = v@;
    v.push(32);
    v.push(98);
    v.push(121);
    v.push(116);
    v.push(101);
    v.push(115);
    v.push(32);
    v.push(119);
    v.push(114);
    v.push(105);
    v.push(116);
    v.push(116);
    v.push(101);
    v.push(110);
    v.push(32);
    v.push(116);
    v.push(111);
    v.push(32);
    v.push(100);
    v.push(105);
    v.push(115);
    v.push(107);
    proof {
        assert(v@ =~= mid + saved_suffix());
    }
    v
}

/// The message reporting a failed save, around the error's text.
#[verifier::rlimit(60)]
fn save_err_message(e: &Vec<u8>) -> (r: Vec<u8>)
    ensures
        r@ == save_err_prefix() + e@,
{
    let mut v: Vec<u8> = Vec::new();
    v.push(67);
    v.push(97);
    v.push(110);
    v.push(39);
    v.push(116);
    v.push(32);
    v.push(115);
    v.push(97);
    v.push(118);
    v.push(101);
    v.push(33);
    v.push(32);
    v.push(73);
    v.push(47);
    v.push(79);
    v.push(32);
    v.push(101);
    v.push(114);
    v.push(114);
    v.push(111);
    v.push(114);
    v.push(58);
    v.push(32);
    proof {
        assert(v@ =~= save_err_prefix());
    }
    crate::render::push_range(&mut v, e, 0, e.len());
    proof {
        assert(e@.subrange(0, e@.len() as int) =~= e@);
    }
    v
}

impl Editor {
    /// Apply one key event at time `now`.  The next state and what the
    /// caller must now do are exactly those of [`spec_step`].
    pub fn apply_key(&mut self, key: Key, now: u64) -> (r: EditorAction)
        requires
            old(self).wf(),
            spec_key_inserts(key) ==> spec_has_room(old(self)@),
        ensures
            final(self).wf(),
            final(self)@ == spec_step(old(self)@, key, now as int).0,
            r == spec_step(old(self)@, key, now as int).1,
    {
        let ghost m0 = self@;
        if key == Key::Ctrl(113) {
            if !self.buf.dirty {
                proof {
                    assert(self@ =~~= spec_step(m0, key, now as int).0);
                }
                return EditorAction::Quit;
            }
            if self.quit_remaining <= 1 {
                self.quit_remaining = 0;
                proof {
                    assert(self@ =~~= spec_step(m0, key, now as int).0);
                }
                return EditorAction::Quit;
            }
            self.quit_remaining = self.quit_remaining - 1;
            let m = warn_message(self.quit_remaining);
            self.msg = m;
            self.msg_time = now;
            proof {
                assert(self@ =~~= spec_step(m0, key, now as int).0);
            }
            return EditorAction::Continue;
        }
        match key {
            Key::Up | Key::Down | Key::Left | Key::Right => {
                self.view.move_cursor(key, &self.buf);
                proof {
                    assert(self@ =~~= spec_dispatch(m0, key));
                }
            },
            Key::PageUp => {
                self.view.page_move(&self.buf, self.height, true);
                proof {
                    assert(self@ =~~= spec_dispatch(m0, key));
                }
            },
            Key::PageDown => {
                self.view.page_move(&self.buf, self.height, false);
                proof {
                    assert(self@ =~~= spec_dispatch(m0, key));
                }
            },
            Key::Home => {
                self.view.cx = 0;
                proof {
                    assert(self@ =~~= spec_dispatch(m0, key));
                }
            },
            Key::End => {
                if self.view.cy < self.buf.line_count() {
                    self.view.cx = self.buf.line_len(self.view.cy);
                } else {
                    self.view.cx = 0;
                }
                proof {
                    assert(self@ =~~= spec_dispatch(m0, key));
                }
            },
            Key::Del => {
                self.view.move_cursor(Key::Right, &self.buf);
                let (ny, nx) = self.buf.delete_char(self.view.cy, self.view.cx);
                self.view.cy = ny;
                self.view.cx = nx;
                proof {
                    assert(self@ =~~= spec_dispatch(m0, key));
                }
            },
            Key::Backspace => {
                let (ny, nx) = self.buf.delete_char(self.view.cy, self.view.cx);
                self.view.cy = ny;
                self.view.cx = nx;
                proof {
                    assert(self@ =~~= spec_dispatch(m0, key));
                }
            },
            Key::Ctrl(c) => {
                if c == 104 {
                    let (ny, nx) = self.buf.delete_char(self.view.cy, self.view.cx);
                    self.view.cy = ny;
                    self.view.cx = nx;
                }
                proof {
                    assert(self@ =~~= spec_dispatch(m0, key));
                }
            },
            Key::Char(c) => {
                if !(c == 13 || c == 27) {
                    proof {
                        if self.view.cy < self.buf.lines().len() {
                            lemma_size_line(self.buf.lines(), self.view.cy as int);
                        }
                    }
                    self.buf.insert_char(self.view.cy, self.view.cx, c);
                    self.view.cx = self.view.cx + 1;
                }
                proof {
                    assert(self@ =~~= spec_dispatch(m0, key));
                }
            },
            _ => {
                proof {
                    assert(self@ =~~= spec_dispatch(m0, key));
                }
            },
        }
        self.quit_remaining = QUIT_TIMES;
        proof {
            lemma_dispatch_wf(m0, key);
            assert(self@ =~~= spec_step(m0, key, now as int).0);
        }
        if key == Key::Ctrl(115) {
            EditorAction::Save
        } else {
            EditorAction::Continue
        }
    }

    /// The bytes a save should write: the serialized buffer, when there
    /// is a file name to write them to.
    pub fn save_payload(&self) -> (r: Option<Vec<u8>>)
        ensures
            match r {
                Option::Some(bytes) => self@.filename is Some && bytes@ == spec_serialize(
                    self@.lines,
                ),
                Option::None => self@.filename is None,
            },
    {
        match &self.buf.filename {
            Option::Some(_) => Some(self.buf.serialize()),
            Option::None => None,
        }
    }

    /// Take note of how a requested save went.  A successful write
    /// clears the dirty flag and reports the byte count; no file name
    /// reports zero bytes; a failure reports the error.  Apart from the
    /// flag and the message nothing changes, so a failed save leaves
    /// the buffer exactly as it was.
    pub fn note_save_result(&mut self, outcome: SaveOutcome, now: u64)
        requires
            old(self).wf(),
        ensures
            final(self).wf(),
            (outcome matches SaveOutcome::Written(n) ==> final(self)@ == (EditorModel {
                dirty: false,
                msg: spec_saved_msg(n as int),
                msg_time: now as int,
                ..old(self)@
            })),
            (outcome matches SaveOutcome::NoFile ==> final(self)@ == (EditorModel {
                msg: spec_saved_msg(0),
                msg_time: now as int,
                ..old(self)@
            })),
            (outcome matches SaveOutcome::Failed(e) ==> final(self)@ == (EditorModel {
                msg: save_err_prefix() + e@,
                msg_time: now as int,
                ..old(self)@
            })),
    {
        let ghost m0 = self@;
        match outcome {
            SaveOutcome::Written(n) => {
                self.buf.dirty = false;
                let m = saved_message(n);
                self.msg = m;
                self.msg_time = now;
                proof {
                    assert(self@ =~~= (EditorModel {
                        dirty: false,
                        msg: spec_saved_msg(n as int),
                        msg_time: now as int,
                        ..m0
                    }));
                }
            },
            SaveOutcome::NoFile => {
                let m = saved_message(0);
                self.msg = m;
                self.msg_time = now;
                proof {
                    assert(self@ =~~= (EditorModel {
                        msg: spec_saved_msg(0),
                        msg_time: now as int,
                        ..m0
                    }));
                }
            },
            SaveOutcome::Failed(e) => {
                let m = save_err_message(&e);
                self.msg = m;
                self.msg_time = now;
                proof {
                    assert(self@ =~~= (EditorModel {
                        msg: save_err_prefix() + e@,
                        msg_time: now as int,
                        ..m0
                    }));
                }
            },
        }
    }

    /// Scroll the viewport to the cursor and compose the frame to
    /// write.  Afterwards the cursor row and rendered column both lie
    /// inside the viewport.
    pub fn refresh_frame(&mut self, now: u64) -> (r: Vec<u8>)
        requires
            old(self).wf(),
        ensures
            final(self).wf(),
            final(self)@ == spec_scroll(old(self)@),
            final(self)@.row_offset <= final(self)@.cy,
            final(self)@.cy < final(self)@.row_offset + final(self)@.height,
            final(self)@.col_offset <= final(self)@.rx,
            final(self)@.rx < final(self)@.col_offset + final(self)@.width,
            ({
                let m1 = spec_scroll(old(self)@);
                r@ == spec_frame(
                    m1.lines,
                    m1.filename,
                    m1.dirty,
                    m1.cy,
                    m1.rx,
                    m1.row_offset,
                    m1.col_offset,
                    m1.height,
                    m1.width,
                    m1.msg,
                    m1.msg_time,
                    now as int,
                )
            }),
    {
        let ghost m0 = self@;
        proof {
            lemma_size_len(self.buf.lines());
            if self.view.cy < self.buf.lines().len() {
                lemma_size_line(self.buf.lines(), self.view.cy as int);
            }
        }
        self.view.scroll(&self.buf, self.height, self.width);
        proof {
            if m0.cy < m0.lines.len() {
                lemma_rx_bounds(m0.lines[m0.cy], m0.cx);
                lemma_size_line(m0.lines, m0.cy);
            }
            assert(self@ =~~= spec_scroll(m0));
        }
        compose_frame(
            &self.buf,
            &self.view,
            self.height,
            self.width,
            &self.msg,
            self.msg_time,
            now,
        )
    }
}


} // verus!
