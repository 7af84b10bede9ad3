//! Cursor and viewport state: logical cursor movement, the translation
//! from logical column to rendered column under tab expansion, and the
//! scroll step that keeps the cursor inside the visible window.

use vstd::prelude::*;
use crate::buffer::TextBuffer;
use crate::keys::Key;

verus! {

/// Cursor position and scroll offsets.  `cy` and `cx` address the buffer
/// (line and byte column); `rx` is the rendered column of the cursor
/// after tab expansion; `row_offset` and `col_offset` are the buffer row
/// and rendered column scrolled to the top left of the window.
pub struct Viewport {
    pub cy: usize,
    pub cx: usize,
    pub rx: usize,
    pub row_offset: usize,
    pub col_offset: usize,
}

/// A cursor position the buffer can reach: on a line of the buffer with
/// a column no further than the line's end, or at column zero of the
/// virtual empty line just past the last.
pub open spec fn cursor_ok(lines: Seq<Seq<u8>>, cy: int, cx: int) -> bool {
    &&& 0 <= cy <= lines.len()
    &&& cy < lines.len() ==> 0 <= cx <= lines[cy].len()
    &&& cy == lines.len() ==> cx == 0
}

/// The rendered column of logical column `cx` in `line`: each ordinary
/// byte is one column wide, and a tab advances to the next multiple of
/// the tab stop.
pub open spec fn spec_rx(line: Seq<u8>, cx: int) -> int
    decreases cx,
{
    if cx <= 0 {
        0
    } else {
        let r = spec_rx(line, cx - 1);
        if line[cx - 1] == 9 {
            r + (8 - r % 8)
        } else {
            r + 1
        }
    }
}

/// The rendered column never falls behind the logical column, grows by
/// at most the tab stop per character, and coincides with it when the
/// prefix holds no tab.
pub proof fn lemma_rx_bounds(line: Seq<u8>, cx: int)
    requires
        0 <= cx,
    ensures
        cx <= spec_rx(line, cx) <= 8 * cx,
        (forall|i: int| 0 <= i < cx ==> #[trigger] line[i] != 9) ==> spec_rx(line, cx) == cx,
    decreases cx,
{
    if cx > 0 {
        lemma_rx_bounds(line, cx - 1);
    }
}

/// An offset clamped so that `pos` lies inside the window `[offset,
/// offset + extent)`: pulled back to `pos` when the window starts past
/// it, pushed forward just far enough when the window ends at or before
/// it, and left alone otherwise.
pub open spec fn spec_clamp_offset(off: int, pos: int, extent: int) -> int
    recommends
        0 <= off,
        0 <= pos,
        1 <= extent,
{
    if pos < off {
        pos
    } else if pos >= off + extent {
        pos - extent + 1
    } else {
        off
    }
}

/// Where a single cursor-movement key puts the cursor: left and right
/// wrap across line ends, up and down keep the column, and the column is
/// then clamped to the destination line's length (zero on the virtual
/// line past the end).
pub open spec fn spec_move(lines: Seq<Seq<u8>>, cy: int, cx: int, key: Key) -> (int, int)
    recommends
        0 <= cy <= lines.len(),
        0 <= cx,
{
    let stepped = match key {
        Key::Left => if cx > 0 {
            (cy, cx - 1)
        } else if cy > 0 {
            (cy - 1, lines[cy - 1].len() as int)
        } else {
            (cy, cx)
        },
        Key::Right => if cy < lines.len() {
            if cx < lines[cy].len() {
                (cy, cx + 1)
            } else {
                (cy + 1, 0)
            }
        } else {
            (cy, cx)
        },
        Key::Up => if cy > 0 {
            (cy - 1, cx)
        } else {
            (cy, cx)
        },
        Key::Down => if cy < lines.len() {
            (cy + 1, cx)
        } else {
            (cy, cx)
        },
        _ => (cy, cx),
    };
    let ny = stepped.0;
    let nx = stepped.1;
    let rowlen = if ny < lines.len() {
        lines[ny].len() as int
    } else {
        0
    };
    (ny, if nx > rowlen {
        rowlen
    } else {
        nx
    })
}

/// The cursor after `n` single steps of the same movement key.
pub open spec fn spec_move_n(lines: Seq<Seq<u8>>, cy: int, cx: int, key: Key, n: nat) -> (int, int)
    recommends
        0 <= cy <= lines.len(),
        0 <= cx,
    decreases n,
{
    if n == 0 {
        (cy, cx)
    } else {
        let p = spec_move_n(lines, cy, cx, key, (n - 1) as nat);
        spec_move(lines, p.0, p.1, key)
    }
}

/// The row a page movement starts from: the top of the viewport going
/// up, its bottom going down, both held inside the buffer.
pub open spec fn spec_page_start(lines_len: int, rowoff: int, height: int, up: bool) -> int
    recommends
        0 <= lines_len,
        0 <= rowoff,
        1 <= height,
{
    if up {
        if rowoff <= lines_len {
            rowoff
        } else {
            lines_len
        }
    } else {
        if rowoff + height - 1 > lines_len {
            lines_len
        } else {
            rowoff + height - 1
        }
    }
}

/// A movement step always lands on a reachable cursor position.
pub proof fn lemma_move_ok(lines: Seq<Seq<u8>>, cy: int, cx: int, key: Key)
    requires
        0 <= cy <= lines.len(),
        0 <= cx,
    ensures
        ({
            let (ny, nx) = spec_move(lines, cy, cx, key);
            cursor_ok(lines, ny, nx)
        }),
{
}

impl Viewport {
    /// A fresh viewport at the top left.
    pub fn new() -> (r: Viewport)
        ensures
            r.cy == 0 && r.cx == 0 && r.rx == 0,
            r.row_offset == 0 && r.col_offset == 0,
    {
        Viewport { cy: 0, cx: 0, rx: 0, row_offset: 0, col_offset: 0 }
    }

    /// Move the cursor one step for an arrow key; other keys leave it
    /// alone apart from the clamp of the column to the line end.
    pub fn move_cursor(&mut self, key: Key, buf: &TextBuffer)
        requires
            old(self).cy <= buf.lines().len(),
        ensures
            ({
                let (ny, nx) = spec_move(buf.lines(), old(self).cy as int, old(self).cx as int, key);
                final(self).cy == ny && final(self).cx == nx
            }),
            cursor_ok(buf.lines(), final(self).cy as int, final(self).cx as int),
            final(self).rx == old(self).rx,
            final(self).row_offset == old(self).row_offset,
            final(self).col_offset == old(self).col_offset,
    {
        match key {
            Key::Left => {
                if self.cx > 0 {
                    self.cx = self.cx - 1;
                } else if self.cy > 0 {
                    self.cy = self.cy - 1;
                    self.cx = buf.line_len(self.cy);
                }
            },
            Key::Right => {
                if self.cy < buf.line_count() {
                    if self.cx < buf.line_len(self.cy) {
                        self.cx = self.cx + 1;
                    } else {
                        self.cy = self.cy + 1;
                        self.cx = 0;
                    }
                }
            },
            Key::Up => {
                if self.cy > 0 {
                    self.cy = self.cy - 1;
                }
            },
            Key::Down => {
                if self.cy < buf.line_count() {
                    self.cy = self.cy + 1;
                }
            },
            _ => {},
        }
        let rowlen = if self.cy < buf.line_count() {
            buf.line_len(self.cy)
        } else {
            0
        };
        if self.cx > rowlen {
            self.cx = rowlen;
        }
    }

    /// A page movement: put the cursor at the top (going up) or bottom
    /// (going down) of the viewport, held inside the buffer, then take
    /// one single step per viewport row, which re-clamps the column on
    /// the way.
    pub fn page_move(&mut self, buf: &TextBuffer, height: usize, up: bool)
        requires
            1 <= height,
            old(self).row_offset + height <= usize::MAX,
        ensures
            ({
                let start = spec_page_start(
                    buf.lines().len() as int,
                    old(self).row_offset as int,
                    height as int,
                    up,
                );
                let key = if up {
                    Key::Up
                } else {
                    Key::Down
                };
                let (ny, nx) = spec_move_n(buf.lines(), start, old(self).cx as int, key, height as nat);
                final(self).cy == ny && final(self).cx == nx
            }),
            cursor_ok(buf.lines(), final(self).cy as int, final(self).cx as int),
            final(self).rx == old(self).rx,
            final(self).row_offset == old(self).row_offset,
            final(self).col_offset == old(self).col_offset,
    {
        let len = buf.line_count();
        if up {
            self.cy = if self.row_offset <= len {
                self.row_offset
            } else {
                len
            };
        } else {
            let t = self.row_offset + height - 1;
            self.cy = if t > len {
                len
            } else {
                t
            };
        }
        let key = if up {
            Key::Up
        } else {
            Key::Down
        };
        let ghost start = self.cy as int;
        let ghost cx0 = self.cx as int;
        let mut i: usize = 0;
        while i < height
            invariant
                i <= height,
                0 <= start <= buf.lines().len(),
                (self.cy as int, self.cx as int) == spec_move_n(
                    buf.lines(),
                    start,
                    cx0,
                    key,
                    i as nat,
                ),
                self.cy <= buf.lines().len(),
                i > 0 ==> cursor_ok(buf.lines(), self.cy as int, self.cx as int),
                self.rx == old(self).rx,
                self.row_offset == old(self).row_offset,
                self.col_offset == old(self).col_offset,
            decreases height - i,
        {
            self.move_cursor(key, buf);
            i = i + 1;
        }
    }

    /// Rendered column of `cx` in `line`, walking the line's prefix.
    pub fn cx_to_rx(line: &Vec<u8>, cx: usize) -> (rx: usize)
        requires
            cx <= line@.len(),
            8 * line@.len() <= usize::MAX,
        ensures
            rx == spec_rx(line@, cx as int),
    {
        let mut rx: usize = 0;
        let mut i: usize = 0;
        while i < cx
            invariant
                i <= cx,
                cx <= line@.len(),
                8 * line@.len() <= usize::MAX,
                rx == spec_rx(line@, i as int),
                rx <= 8 * i,
            decreases cx - i,
        {
            if line[i] == 9 {
                rx = rx + (8 - rx % 8);
            } else {
                rx = rx + 1;
            }
            i = i + 1;
        }
        rx
    }

    /// Bring the cursor inside the window: clamp the row offset around
    /// `cy`, recompute the rendered column from the current line, then
    /// clamp the column offset around it.  Afterwards the cursor row and
    /// rendered column both lie inside the viewport.
    pub fn scroll(&mut self, buf: &TextBuffer, height: usize, width: usize)
        requires
            1 <= height,
            1 <= width,
            cursor_ok(buf.lines(), old(self).cy as int, old(self).cx as int),
            buf.lines().len() + height <= usize::MAX,
            old(self).cy < buf.lines().len() ==> 8 * buf.lines()[old(self).cy as int].len()
                + width <= usize::MAX,
        ensures
            final(self).cy == old(self).cy,
            final(self).cx == old(self).cx,
            final(self).rx == (if old(self).cy < buf.lines().len() {
                spec_rx(buf.lines()[old(self).cy as int], old(self).cx as int)
            } else {
                0
            }),
            final(self).row_offset == spec_clamp_offset(
                old(self).row_offset as int,
                old(self).cy as int,
                height as int,
            ),
            final(self).col_offset == spec_clamp_offset(
                old(self).col_offset as int,
                final(self).rx as int,
                width as int,
            ),
            final(self).row_offset <= final(self).cy < final(self).row_offset + height,
            final(self).col_offset <= final(self).rx < final(self).col_offset + width,
    {
        if self.cy < self.row_offset {
            self.row_offset = self.cy;
        } else if self.cy >= self.row_offset + height {
            self.row_offset = self.cy - height + 1;
        }
        self.rx = 0;
        if self.cy < buf.line_count() {
            proof {
                lemma_rx_bounds(buf.lines()[self.cy as int], self.cx as int);
            }
            self.rx = Viewport::cx_to_rx(&buf.rows[self.cy], self.cx);
        }
        if self.rx < self.col_offset {
            self.col_offset = self.rx;
        } else if self.rx >= self.col_offset + width {
            self.col_offset = self.rx - width + 1;
        }
    }
}

} // verus!
