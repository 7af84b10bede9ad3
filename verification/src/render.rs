//! Frame composition: every byte the editor sends to the screen.
//!
//! One refresh is one byte string, composed here and written by the
//! caller in a single flush: hide the cursor, home, one row per viewport
//! line (buffer text tab-expanded and sliced to the window, or a filler
//! marker, with a centered welcome banner on one row of an empty buffer),
//! a reverse-video status bar, a message bar honoring the message's
//! time-to-live, and finally the escape sequence placing the cursor back
//! at its viewport position.

use vstd::prelude::*;
use crate::buffer::TextBuffer;
use crate::viewport::{Viewport, spec_rx};

verus! {

/// Decimal digits of `n`, most significant first.
pub open spec fn spec_digits(n: int) -> Seq<u8>
    recommends
        0 <= n,
    decreases n,
{
    if n <= 9 {
        seq![(48 + n) as u8]
    } else {
        spec_digits(n / 10) + seq![(48 + n % 10) as u8]
    }
}

/// `n` spaces.
pub open spec fn spec_spaces(n: int) -> Seq<u8> {
    Seq::new(n as nat, |i: int| 32u8)
}

/// A line as rendered: every byte one column, except a tab, which
/// becomes spaces out to the next multiple of the tab stop.
pub open spec fn spec_render(line: Seq<u8>) -> Seq<u8>
    decreases line.len(),
{
    if line.len() == 0 {
        Seq::<u8>::empty()
    } else {
        let prev = spec_render(line.drop_last());
        if line.last() == 9 {
            prev + spec_spaces(8 - prev.len() % 8)
        } else {
            prev.push(line.last())
        }
    }
}

/// The rendered column of the cursor is the length of the rendered
/// prefix before it: the scroll arithmetic and the drawn text agree on
/// where each column falls.
pub proof fn lemma_rx_is_rendered_prefix_len(line: Seq<u8>, cx: int)
    requires
        0 <= cx <= line.len(),
    ensures
        spec_rx(line, cx) == spec_render(line.take(cx)).len(),
    decreases cx,
{
    if cx > 0 {
        lemma_rx_is_rendered_prefix_len(line, cx - 1);
        assert(line.take(cx).drop_last() =~= line.take(cx - 1));
        assert(line.take(cx).last() == line[cx - 1]);
    }
}

// The escape sequences of the frame, as byte sequences:
// hide cursor then home, show cursor, erase-to-end-of-line with a line
// break, reverse video on, reverse video off with a line break, and
// erase-to-end-of-line alone.
pub open spec fn esc_hide_home() -> Seq<u8> {
    seq![27u8, 91u8, 63u8, 50u8, 53u8, 108u8, 27u8, 91u8, 72u8]
}

pub open spec fn esc_show_cursor() -> Seq<u8> {
    seq![27u8, 91u8, 63u8, 50u8, 53u8, 104u8]
}

pub open spec fn esc_erase_crlf() -> Seq<u8> {
    seq![27u8, 91u8, 75u8, 13u8, 10u8]
}

pub open spec fn esc_reverse_on() -> Seq<u8> {
    seq![27u8, 91u8, 55u8, 109u8]
}

pub open spec fn esc_reverse_off_crlf() -> Seq<u8> {
    seq![27u8, 91u8, 109u8, 13u8, 10u8]
}

pub open spec fn esc_erase() -> Seq<u8> {
    seq![27u8, 91u8, 75u8]
}

/// The welcome banner's text.
pub open spec fn spec_welcome_text() -> Seq<u8> {
    seq![75u8, 105u8, 108u8, 111u8, 32u8, 101u8, 100u8, 105u8, 116u8, 111u8, 114u8]
}

/// The welcome row: the banner centered behind a filler marker, or cut
/// to the window when the window is narrower than the text.
pub open spec fn spec_welcome_row(width: int) -> Seq<u8>
    recommends
        0 <= width,
{
    let text = spec_welcome_text();
    if width < text.len() {
        text.take(width)
    } else {
        let padding = (width - text.len()) / 2;
        if padding > 0 {
            seq![126u8] + spec_spaces(padding - 1) + text
        } else {
            text
        }
    }
}

/// A buffer line as shown: rendered, then the window `[coloff, coloff +
/// width)` of it; empty when the line ends before the window starts.
pub open spec fn spec_text_row(line: Seq<u8>, coloff: int, width: int) -> Seq<u8>
    recommends
        0 <= coloff,
        0 <= width,
{
    let r = spec_render(line);
    if coloff < r.len() {
        r.subrange(
            coloff,
            if r.len() < coloff + width {
                r.len() as int
            } else {
                coloff + width
            },
        )
    } else {
        Seq::<u8>::empty()
    }
}

/// One screen row `y`: buffer text when the viewport row maps to a line,
/// else the filler marker — with the welcome banner on one specific row
/// of an empty buffer — each row ending in erase-to-end-of-line and a
/// line break.
pub open spec fn spec_screen_row(
    lines: Seq<Seq<u8>>,
    y: int,
    rowoff: int,
    coloff: int,
    height: int,
    width: int,
) -> Seq<u8> {
    let body = if y + rowoff < lines.len() {
        spec_text_row(lines[y + rowoff], coloff, width)
    } else if lines.len() == 0 && y == height / 3 {
        spec_welcome_row(width)
    } else {
        seq![126u8]
    };
    body + esc_erase_crlf()
}

/// The first `upto` screen rows, concatenated.
pub open spec fn spec_screen_rows_upto(
    lines: Seq<Seq<u8>>,
    rowoff: int,
    coloff: int,
    height: int,
    width: int,
    upto: int,
) -> Seq<u8>
    decreases upto,
{
    if upto <= 0 {
        Seq::<u8>::empty()
    } else {
        spec_screen_rows_upto(lines, rowoff, coloff, height, width, upto - 1)
            + spec_screen_row(lines, upto - 1, rowoff, coloff, height, width)
    }
}

/// All `height` rows of the text area.
pub open spec fn spec_draw_rows(
    lines: Seq<Seq<u8>>,
    rowoff: int,
    coloff: int,
    height: int,
    width: int,
) -> Seq<u8> {
    spec_screen_rows_upto(lines, rowoff, coloff, height, width, height)
}

/// The file name shown in the status bar: at most its first twenty
/// bytes, or a placeholder when no name is set.
pub open spec fn spec_name20(filename: Option<Seq<u8>>) -> Seq<u8> {
    match filename {
        Option::Some(f) => if f.len() > 20 {
            f.take(20)
        } else {
            f
        },
        Option::None => seq![91u8, 78u8, 111u8, 32u8, 78u8, 97u8, 109u8, 101u8, 93u8],
    }
}

/// The left text of the status bar: name, line count and a marker for
/// unsaved changes.
pub open spec fn spec_filedesc(filename: Option<Seq<u8>>, nlines: int, dirty: bool) -> Seq<u8> {
    spec_name20(filename) + seq![32u8, 45u8, 32u8] + spec_digits(nlines)
        + seq![32u8, 108u8, 105u8, 110u8, 101u8, 115u8, 32u8]
        + if dirty {
            seq![40u8, 109u8, 111u8, 100u8, 105u8, 102u8, 105u8, 101u8, 100u8, 41u8]
        } else {
            Seq::<u8>::empty()
        }
}

/// The right text of the status bar: current line over line count.
pub open spec fn spec_linedesc(cy: int, nlines: int) -> Seq<u8> {
    spec_digits(cy + 1) + seq![47u8] + spec_digits(nlines)
}

/// The status bar: reverse video, the left text cut to the window,
/// spaces, and the right text exactly at the window's right edge when it
/// fits, all closed with reverse video off and a line break.
pub open spec fn spec_status_row(
    filename: Option<Seq<u8>>,
    nlines: int,
    dirty: bool,
    cy: int,
    width: int,
) -> Seq<u8>
    recommends
        0 <= width,
{
    let fd = spec_filedesc(filename, nlines, dirty);
    let ld = spec_linedesc(cy, nlines);
    let line = if fd.len() > width {
        fd.take(width)
    } else {
        fd
    };
    let rest = if line.len() + ld.len() <= width {
        spec_spaces(width - ld.len() - line.len()) + ld
    } else {
        spec_spaces(width - line.len())
    };
    esc_reverse_on() + line + rest + esc_reverse_off_crlf()
}

/// Whether a status message set at `msg_time` is still shown at `now`:
/// it lives for five seconds.
pub open spec fn spec_msg_visible(msg_time: int, now: int) -> bool {
    msg_time <= now < msg_time + 5
}

/// The message bar: erase the line, then the message cut to the window
/// while it lives.
pub open spec fn spec_message_row(msg: Seq<u8>, msg_time: int, now: int, width: int) -> Seq<u8>
    recommends
        0 <= width,
{
    esc_erase() + if spec_msg_visible(msg_time, now) {
        if msg.len() > width {
            msg.take(width)
        } else {
            msg
        }
    } else {
        Seq::<u8>::empty()
    }
}

/// The escape sequence that puts the cursor at one-based screen row
/// `row` and column `col`.
pub open spec fn spec_goto(row: int, col: int) -> Seq<u8>
    recommends
        0 <= row,
        0 <= col,
{
    seq![27u8, 91u8] + spec_digits(row) + seq![59u8] + spec_digits(col) + seq![72u8]
}

/// A whole frame, in the order it reaches the terminal.
pub open spec fn spec_frame(
    lines: Seq<Seq<u8>>,
    filename: Option<Seq<u8>>,
    dirty: bool,
    cy: int,
    rx: int,
    rowoff: int,
    coloff: int,
    height: int,
    width: int,
    msg: Seq<u8>,
    msg_time: int,
    now: int,
) -> Seq<u8>
    recommends
        rowoff <= cy,
        coloff <= rx,
{
    esc_hide_home() + spec_draw_rows(lines, rowoff, coloff, height, width)
        + spec_status_row(filename, lines.len() as int, dirty, cy, width)
        + spec_message_row(msg, msg_time, now, width) + spec_goto(cy - rowoff + 1, rx - coloff + 1)
        + esc_show_cursor()
}

/// Append `src[from..to]` to `dst`.
pub fn push_range(dst: &mut Vec<u8>, src: &Vec<u8>, from: usize, to: usize)
    requires
        from <= to <= src@.len(),
    ensures
        final(dst)@ == old(dst)@ + src@.subrange(from as int, to as int),
{
    let ghost base = dst@;
    let mut i: usize = from;
    while i < to
        invariant
            from <= i <= to <= src@.len(),
            dst@ == base + src@.subrange(from as int, i as int),
        decreases to - i,
    {
        dst.push(src[i]);
        proof {
            assert(dst@ =~= base + src@.subrange(from as int, i as int + 1));
        }
        i = i + 1;
    }
}

/// Append `n` spaces to `dst`.
pub fn push_spaces(dst: &mut Vec<u8>, n: usize)
    ensures
        final(dst)@ == old(dst)@ + spec_spaces(n as int),
{
    let ghost base = dst@;
    let mut i: usize = 0;
    while i < n
        invariant
            i <= n,
            dst@ == base + spec_spaces(i as int),
        decreases n - i,
    {
        dst.push(32);
        proof {
            assert(dst@ =~= base + spec_spaces(i as int + 1));
        }
        i = i + 1;
    }
}

/// Append the decimal digits of `n` to `dst`.
pub fn push_digits(dst: &mut Vec<u8>, n: usize)
    ensures
        final(dst)@ == old(dst)@ + spec_digits(n as int),
    decreases n,
{
    if n <= 9 {
        dst.push(48 + n as u8);
        proof {
            assert(dst@ =~= old(dst)@ + spec_digits(n as int));
        }
    } else {
        push_digits(dst, n / 10);
        dst.push(48 + (n % 10) as u8);
        proof {
            assert(dst@ =~= old(dst)@ + spec_digits(n as int));
        }
    }
}

/// Tab-expand a line for display.
pub fn render_row(line: &Vec<u8>) -> (r: Vec<u8>)
    ensures
        r@ == spec_render(line@),
{
    let mut out: Vec<u8> = Vec::new();
    let mut i: usize = 0;
    proof {
        assert(line@.take(0) =~= Seq::<u8>::empty());
    }
    while i < line.len()
        invariant
            i <= line@.len(),
            out@ == spec_render(line@.take(i as int)),
        decreases line@.len() - i,
    {
        let ghost prevr = out@;
        if line[i] == 9 {
            let pad = 8 - (out.len() % 8);
            push_spaces(&mut out, pad);
        } else {
            out.push(line[i]);
        }
        proof {
            assert(line@.take(i as int + 1).drop_last() =~= line@.take(i as int));
            assert(line@.take(i as int + 1).last() == line@[i as int]);
            assert(out@ =~= spec_render(line@.take(i as int + 1)));
        }
        i = i + 1;
    }
    proof {
        assert(line@.take(line@.len() as int) =~= line@);
    }
    out
}

/// The welcome row for a window `width` columns wide.
pub fn welcome_row(width: usize) -> (r: Vec<u8>)
    ensures
        r@ == spec_welcome_row(width as int),
{
    let text = welcome_text();
    let mut out: Vec<u8> = Vec::new();
    if width < text.len() {
        push_range(&mut out, &text, 0, width);
        proof {
            assert(out@ =~= spec_welcome_row(width as int));
        }
    } else {
        let padding = (width - text.len()) / 2;
        if padding > 0 {
            out.push(126);
            push_spaces(&mut out, padding - 1);
            push_range(&mut out, &text, 0, text.len());
            proof {
                assert(text@.subrange(0, text@.len() as int) =~= text@);
                assert(out@ =~= spec_welcome_row(width as int));
            }
        } else {
            push_range(&mut out, &text, 0, text.len());
            proof {
                assert(text@.subrange(0, text@.len() as int) =~= text@);
                assert(out@ =~= spec_welcome_row(width as int));
            }
        }
    }
    out
}

/// The welcome banner's text as bytes.
fn welcome_text() -> (r: Vec<u8>)
    ensures
        r@ == spec_welcome_text(),
{
    let mut v: Vec<u8> = Vec::new();
    v.push(75);
    v.push(105);
    v.push(108);
    v.push(111);
    v.push(32);
    v.push(101);
    v.push(100);
    v.push(105);
    v.push(116);
    v.push(111);
    v.push(114);
    proof {
        assert(v@ =~= spec_welcome_text());
    }
    v
}

/// Append erase-to-end-of-line and a line break.
fn push_erase_crlf(dst: &mut Vec<u8>)
    ensures
        final(dst)@ == old(dst)@ + esc_erase_crlf(),
{
    dst.push(27);
    dst.push(91);
    dst.push(75);
    dst.push(13);
    dst.push(10);
    proof {
        assert(dst@ =~= old(dst)@ + esc_erase_crlf());
    }
}

/// The text area: `height` rows as one byte string.
pub fn draw_rows(
    buf: &TextBuffer,
    rowoff: usize,
    coloff: usize,
    height: usize,
    width: usize,
) -> (r: Vec<u8>)
    requires
        rowoff + height <= usize::MAX,
        coloff + width <= usize::MAX,
    ensures
        r@ == spec_draw_rows(buf.lines(), rowoff as int, coloff as int, height as int, width as int),
{
    let mut out: Vec<u8> = Vec::new();
    let mut y: usize = 0;
    while y < height
        invariant
            y <= height,
            rowoff + height <= usize::MAX,
            coloff + width <= usize::MAX,
            out@ == spec_screen_rows_upto(
                buf.lines(),
                rowoff as int,
                coloff as int,
                height as int,
                width as int,
                y as int,
            ),
        decreases height - y,
    {
        let ghost base = out@;
        let fileoff = y + rowoff;
        if fileoff < buf.line_count() {
            let rend = render_row(&buf.rows[fileoff]);
            if coloff < rend.len() {
                let end = if rend.len() < coloff + width {
                    rend.len()
                } else {
                    coloff + width
                };
                push_range(&mut out, &rend, coloff, end);
            }
            proof {
                assert(out@ =~= base + spec_text_row(
                    buf.lines()[fileoff as int],
                    coloff as int,
                    width as int,
                ));
            }
        } else if buf.line_count() == 0 && y == height / 3 {
            let w = welcome_row(width);
            push_range(&mut out, &w, 0, w.len());
            proof {
                assert(w@.subrange(0, w@.len() as int) =~= w@);
            }
        } else {
            out.push(126);
            proof {
                assert(out@ =~= base + seq![126u8]);
            }
        }
        push_erase_crlf(&mut out);
        proof {
            assert(out@ =~= base + spec_screen_row(
                buf.lines(),
                y as int,
                rowoff as int,
                coloff as int,
                height as int,
                width as int,
            ));
        }
        y = y + 1;
    }
    out
}

/// The left text of the status bar.
#[verifier::rlimit(60)]
fn filedesc(filename: &Option<Vec<u8>>, nlines: usize, dirty: bool) -> (r: Vec<u8>)
    ensures
        r@ == spec_filedesc(filename.deep_view(), nlines as int, dirty),
{
    let mut fd: Vec<u8> = Vec::new();
    match filename {
        Option::Some(f) => {
            let cut = if f.len() > 20 {
                20
            } else {
                f.len()
            };
            push_range(&mut fd, f, 0, cut);
            proof {
                assert(f@.subrange(0, f@.len() as int) =~= f@);
                assert(fd@ =~= spec_name20(filename.deep_view()));
            }
        },
        Option::None => {
            fd.push(91);
            fd.push(78);
            fd.push(111);
            fd.push(32);
            fd.push(78);
            fd.push(97);
            fd.push(109);
            fd.push(101);
            fd.push(93);
            proof {
                assert(fd@ =~= spec_name20(filename.deep_view()));
            }
        },
    }
    fd.push(32);
    fd.push(45);
    fd.push(32);
    push_digits(&mut fd, nlines);
    fd.push(32);
    fd.push(108);
    fd.push(105);
    fd.push(110);
    fd.push(101);
    fd.push(115);
    fd.push(32);
    if dirty {
        fd.push(40);
        fd.push(109);
        fd.push(111);
        fd.push(100);
        fd.push(105);
        fd.push(102);
        fd.push(105);
        fd.push(101);
        fd.push(100);
        fd.push(41);
    }
    proof {
        assert(fd@ =~= spec_filedesc(filename.deep_view(), nlines as int, dirty));
    }
    fd
}

/// The right text of the status bar.
fn linedesc(cy: usize, nlines: usize) -> (r: Vec<u8>)
    requires
        cy < usize::MAX,
    ensures
        r@ == spec_linedesc(cy as int, nlines as int),
{
    let mut ld: Vec<u8> = Vec::new();
    push_digits(&mut ld, cy + 1);
    ld.push(47);
    push_digits(&mut ld, nlines);
    proof {
        assert(ld@ =~= spec_linedesc(cy as int, nlines as int));
    }
    ld
}

/// The status bar row.
#[verifier::rlimit(60)]
pub fn status_bar(
    filename: &Option<Vec<u8>>,
    nlines: usize,
    dirty: bool,
    cy: usize,
    width: usize,
) -> (r: Vec<u8>)
    requires
        cy < usize::MAX,
    ensures
        r@ == spec_status_row(filename.deep_view(), nlines as int, dirty, cy as int, width as int),
{
    let fd = filedesc(filename, nlines, dirty);
    let ld = linedesc(cy, nlines);
    let mut out: Vec<u8> = Vec::new();
    out.push(27);
    out.push(91);
    out.push(55);
    out.push(109);
    proof {
        assert(out@ =~= esc_reverse_on());
    }
    let line_len = if fd.len() > width {
        width
    } else {
        fd.len()
    };
    push_range(&mut out, &fd, 0, line_len);
    proof {
        assert(fd@.subrange(0, fd@.len() as int) =~= fd@);
    }
    if ld.len() <= width - line_len {
        push_spaces(&mut out, width - line_len - ld.len());
        push_range(&mut out, &ld, 0, ld.len());
        proof {
            assert(ld@.subrange(0, ld@.len() as int) =~= ld@);
        }
    } else {
        push_spaces(&mut out, width - line_len);
    }
    out.push(27);
    out.push(91);
    out.push(109);
    out.push(13);
    out.push(10);
    proof {
        assert(out@ =~= spec_status_row(
            filename.deep_view(),
            nlines as int,
            dirty,
            cy as int,
            width as int,
        ));
    }
    out
}

/// The message bar row.
pub fn message_bar(msg: &Vec<u8>, msg_time: u64, now: u64, width: usize) -> (r: Vec<u8>)
    ensures
        r@ == spec_message_row(msg@, msg_time as int, now as int, width as int),
{
    let mut out: Vec<u8> = Vec::new();
    out.push(27);
    out.push(91);
    out.push(75);
    if now >= msg_time && now - msg_time < 5 {
        let cut = if msg.len() > width {
            width
        } else {
            msg.len()
        };
        push_range(&mut out, msg, 0, cut);
        proof {
            assert(msg@.subrange(0, msg@.len() as int) =~= msg@);
        }
    }
    proof {
        assert(out@ =~= spec_message_row(msg@, msg_time as int, now as int, width as int));
    }
    out
}

/// One whole frame for the given buffer, viewport and message state.
/// The viewport must already hold the cursor (the scroll step ensures
/// it), so the cursor-placing sequence at the end is well defined.
pub fn compose_frame(
    buf: &TextBuffer,
    view: &Viewport,
    height: usize,
    width: usize,
    msg: &Vec<u8>,
    msg_time: u64,
    now: u64,
) -> (r: Vec<u8>)
    requires
        view.cy < usize::MAX,
        view.row_offset <= view.cy,
        view.cy - view.row_offset < usize::MAX,
        view.col_offset <= view.rx,
        view.rx - view.col_offset < usize::MAX,
        view.row_offset + height <= usize::MAX,
        view.col_offset + width <= usize::MAX,
    ensures
        r@ == spec_frame(
            buf.lines(),
            buf.filename.deep_view(),
            buf.dirty,
            view.cy as int,
            view.rx as int,
            view.row_offset as int,
            view.col_offset as int,
            height as int,
            width as int,
            msg@,
            msg_time as int,
            now as int,
        ),
{
    let mut out: Vec<u8> = Vec::new();
    out.push(27);
    out.push(91);
    out.push(63);
    out.push(50);
    out.push(53);
    out.push(108);
    out.push(27);
    out.push(91);
    out.push(72);
    proof {
        assert(out@ =~= esc_hide_home());
    }
    let rows = draw_rows(buf, view.row_offset, view.col_offset, height, width);
    push_range(&mut out, &rows, 0, rows.len());
    let sb = status_bar(&buf.filename, buf.rows.len(), buf.dirty, view.cy, width);
    push_range(&mut out, &sb, 0, sb.len());
    let mb = message_bar(msg, msg_time, now, width);
    push_range(&mut out, &mb, 0, mb.len());
    let ghost mid = out@;
    out.push(27);
    out.push(91);
    push_digits(&mut out, view.cy - view.row_offset + 1);
    out.push(59);
    push_digits(&mut out, view.rx - view.col_offset + 1);
    out.push(72);
    proof {
        assert(out@ =~= mid + spec_goto(
            view.cy - view.row_offset + 1,
            view.rx - view.col_offset + 1,
        ));
    }
    out.push(27);
    out.push(91);
    out.push(63);
    out.push(50);
    out.push(53);
    out.push(104);
    proof {
        assert(rows@.subrange(0, rows@.len() as int) =~= rows@);
        assert(sb@.subrange(0, sb@.len() as int) =~= sb@);
        assert(mb@.subrange(0, mb@.len() as int) =~= mb@);
        assert(buf.rows.len() == buf.lines().len());
        assert(out@ =~= spec_frame(
            buf.lines(),
            buf.filename.deep_view(),
            buf.dirty,
            view.cy as int,
            view.rx as int,
            view.row_offset as int,
            view.col_offset as int,
            height as int,
            width as int,
            msg@,
            msg_time as int,
            now as int,
        ));
    }
    out
}

} // verus!
