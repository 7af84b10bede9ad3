//! The text buffer: an ordered sequence of lines with edit operations.
//!
//! A line is a sequence of bytes with no embedded newline byte; the buffer
//! keeps the lines in file order, a dirty flag for unsaved changes, and the
//! name of the file it was loaded from, when there is one.  All operations
//! here are pure data manipulation; reading and writing files is the
//! caller's business.

use vstd::prelude::*;

verus! {

/// The in-memory line store.
pub struct TextBuffer {
    pub rows: Vec<Vec<u8>>,
    pub dirty: bool,
    pub filename: Option<Vec<u8>>,
}

/// The lines of the buffer as a mathematical sequence of byte sequences.
pub open spec fn lines_view(rows: Seq<Vec<u8>>) -> Seq<Seq<u8>> {
    Seq::new(rows.len(), |i: int| rows[i]@)
}

/// The buffer after a character is inserted at column `cx` of line `cy`.
/// When `cy` is the line count, a new empty line is appended first; a
/// column past the end of the line inserts at the end.
pub open spec fn spec_insert(lines: Seq<Seq<u8>>, cy: int, cx: int, ch: u8) -> Seq<Seq<u8>>
    recommends
        0 <= cy <= lines.len(),
        0 <= cx,
{
    let ls = if cy == lines.len() {
        lines.push(Seq::<u8>::empty())
    } else {
        lines
    };
    let k = if cx > ls[cy].len() {
        ls[cy].len() as int
    } else {
        cx
    };
    ls.update(cy, ls[cy].insert(k, ch))
}

/// Whether a deletion at `(cy, cx)` changes the buffer at all: it does
/// not when the cursor sits on the virtual line past the end, nor at the
/// very start of the buffer.
pub open spec fn spec_delete_mutates(lines: Seq<Seq<u8>>, cy: int, cx: int) -> bool {
    cy < lines.len() && !(cx == 0 && cy == 0)
}

/// The buffer and cursor after a deletion at `(cy, cx)`: with `cx > 0`
/// the byte before the cursor goes and the cursor steps left; with
/// `cx == 0` and `cy > 0` line `cy` is joined onto the end of line
/// `cy - 1`, which the cursor moves to the former end of.
pub open spec fn spec_delete(lines: Seq<Seq<u8>>, cy: int, cx: int) -> (Seq<Seq<u8>>, int, int)
    recommends
        0 <= cy <= lines.len(),
        0 <= cx,
        cy < lines.len() ==> cx <= lines[cy].len(),
{
    if !spec_delete_mutates(lines, cy, cx) {
        (lines, cy, cx)
    } else if cx > 0 {
        (lines.update(cy, lines[cy].remove(cx - 1)), cy, cx - 1)
    } else {
        (lines.update(cy - 1, lines[cy - 1] + lines[cy]).remove(cy), cy - 1, lines[cy - 1].len() as int)
    }
}

/// All lines joined by single newline bytes, ending in one trailing
/// newline; an empty buffer serializes to a single newline.
pub open spec fn spec_serialize(lines: Seq<Seq<u8>>) -> Seq<u8> {
    if lines.len() == 0 {
        seq![10u8]
    } else {
        spec_flatten_nl(lines)
    }
}

/// Each line followed by a newline byte, concatenated in order.
pub open spec fn spec_flatten_nl(lines: Seq<Seq<u8>>) -> Seq<u8>
    decreases lines.len(),
{
    if lines.len() == 0 {
        Seq::<u8>::empty()
    } else {
        spec_flatten_nl(lines.drop_last()) + lines.last() + seq![10u8]
    }
}

impl TextBuffer {
    /// The buffer's lines as a sequence of byte sequences.
    pub open spec fn lines(&self) -> Seq<Seq<u8>> {
        lines_view(self.rows@)
    }

    /// A fresh buffer holding the given lines, not dirty.
    pub fn load(rows: Vec<Vec<u8>>, filename: Option<Vec<u8>>) -> (r: TextBuffer)
        ensures
            r.lines() == lines_view(rows@),
            r.dirty == false,
            r.filename == filename,
    {
        TextBuffer { rows, dirty: false, filename }
    }

    /// An empty buffer with no lines and no file name.
    pub fn new() -> (r: TextBuffer)
        ensures
            r.lines() == Seq::<Seq<u8>>::empty(),
            r.dirty == false,
            r.filename is None,
    {
        let r = TextBuffer { rows: Vec::new(), dirty: false, filename: None };
        proof {
            assert(r.lines() =~= Seq::<Seq<u8>>::empty());
        }
        r
    }

    /// Number of lines in the buffer.
    pub fn line_count(&self) -> (r: usize)
        ensures
            r == self.lines().len(),
    {
        self.rows.len()
    }

    /// Length of line `cy`.
    pub fn line_len(&self, cy: usize) -> (r: usize)
        requires
            cy < self.lines().len(),
        ensures
            r == self.lines()[cy as int].len(),
    {
        self.rows[cy].len()
    }

    /// Insert byte `ch` at column `cx` of line `cy` and mark the buffer
    /// dirty.  When `cy` equals the line count a new empty line is
    /// appended first; a column past the end of the line appends.
    pub fn insert_char(&mut self, cy: usize, cx: usize, ch: u8)
        requires
            cy <= old(self).lines().len(),
        ensures
            final(self).lines() == spec_insert(old(self).lines(), cy as int, cx as int, ch),
            final(self).dirty == true,
            final(self).filename == old(self).filename,
    {
        let ghost pre = self.lines();
        if cy == self.rows.len() {
            self.rows.push(Vec::new());
        }
        let ghost ls = self.lines();
        proof {
            assert(ls =~~= (if cy == pre.len() { pre.push(Seq::<u8>::empty()) } else { pre }));
        }
        let row = &mut self.rows[cy];
        let k = if cx > row.len() {
            row.len()
        } else {
            cx
        };
        row.insert(k, ch);
        self.dirty = true;
        proof {
            assert(self.lines() =~~= spec_insert(pre, cy as int, cx as int, ch));
        }
    }

    /// Delete at `(cy, cx)` and return the cursor position afterwards.
    /// At the very start of the buffer, or past the last line, nothing
    /// happens; the dirty flag is set exactly when the buffer changed.
    pub fn delete_char(&mut self, cy: usize, cx: usize) -> (r: (usize, usize))
        requires
            cy <= old(self).lines().len(),
            cy < old(self).lines().len() ==> cx <= old(self).lines()[cy as int].len(),
        ensures
            ({
                let (nl, ny, nx) = spec_delete(old(self).lines(), cy as int, cx as int);
                &&& final(self).lines() == nl
                &&& r.0 == ny
                &&& r.1 == nx
            }),
            final(self).dirty == (old(self).dirty
                || spec_delete_mutates(old(self).lines(), cy as int, cx as int)),
            final(self).filename == old(self).filename,
    {
        let ghost pre = self.lines();
        if cy == self.rows.len() {
            return (cy, cx);
        }
        if cx == 0 && cy == 0 {
            return (cy, cx);
        }
        if cx > 0 {
            let row = &mut self.rows[cy];
            row.remove(cx - 1);
            self.dirty = true;
            proof {
                assert(self.lines() =~~= spec_delete(pre, cy as int, cx as int).0);
            }
            (cy, cx - 1)
        } else {
            let cur = self.rows.remove(cy);
            let prev = &mut self.rows[cy - 1];
            let join_at = prev.len();
            let ghost prev0 = prev@;
            let mut i: usize = 0;
            while i < cur.len()
                invariant
                    i <= cur@.len(),
                    prev@ == prev0 + cur@.subrange(0, i as int),
                decreases cur@.len() - i,
            {
                prev.push(cur[i]);
                proof {
                    assert(prev@ =~= prev0 + cur@.subrange(0, i as int + 1));
                }
                i = i + 1;
            }
            proof {
                assert(prev@ =~= prev0 + cur@);
            }
            self.dirty = true;
            proof {
                assert(self.lines() =~~= spec_delete(pre, cy as int, cx as int).0);
            }
            (cy - 1, join_at)
        }
    }

    /// The whole buffer as the bytes of the file: lines joined with
    /// newlines and one trailing newline.
    pub fn serialize(&self) -> (r: Vec<u8>)
        ensures
            r@ == spec_serialize(self.lines()),
    {
        let mut out: Vec<u8> = Vec::new();
        let n = self.rows.len();
        if n == 0 {
            out.push(10);
            proof {
                assert(out@ =~= spec_serialize(self.lines()));
            }
            return out;
        }
        let mut i: usize = 0;
        while i < n
            invariant
                i <= n,
                n == self.lines().len(),
                out@ == spec_flatten_nl(self.lines().take(i as int)),
            decreases n - i,
        {
            let row = &self.rows[i];
            let mut j: usize = 0;
            let ghost mid = out@;
            while j < row.len()
                invariant
                    j <= row@.len(),
                    out@ == mid + row@.subrange(0, j as int),
                decreases row@.len() - j,
            {
                out.push(row[j]);
                proof {
                    assert(out@ =~= mid + row@.subrange(0, j as int + 1));
                }
                j = j + 1;
            }
            out.push(10);
            proof {
                let pre = self.lines().take(i as int);
                let post = self.lines().take(i as int + 1);
                assert(post.drop_last() =~= pre);
                assert(post.last() =~= row@);
                assert(row@.subrange(0, row@.len() as int) =~= row@);
                assert(out@ =~= spec_flatten_nl(pre) + row@ + seq![10u8]);
            }
            i = i + 1;
        }
        proof {
            assert(self.lines().take(n as int) =~= self.lines());
        }
        out
    }
}

/// The number of bytes the buffer serializes to when it is not empty:
/// each line's length plus one for its newline.
pub open spec fn spec_buffer_size(lines: Seq<Seq<u8>>) -> int
    decreases lines.len(),
{
    if lines.len() == 0 {
        0
    } else {
        spec_buffer_size(lines.drop_last()) + lines.last().len() + 1
    }
}

pub proof fn lemma_size_nonneg(lines: Seq<Seq<u8>>)
    ensures
        spec_buffer_size(lines) >= 0,
    decreases lines.len(),
{
    if lines.len() > 0 {
        lemma_size_nonneg(lines.drop_last());
    }
}

/// Every line contributes at least one byte, so there are no more lines
/// than serialized bytes.
pub proof fn lemma_size_len(lines: Seq<Seq<u8>>)
    ensures
        lines.len() <= spec_buffer_size(lines),
    decreases lines.len(),
{
    if lines.len() > 0 {
        lemma_size_len(lines.drop_last());
    }
}

pub proof fn lemma_size_take(lines: Seq<Seq<u8>>, k: int)
    requires
        0 <= k <= lines.len(),
    ensures
        spec_buffer_size(lines.take(k)) <= spec_buffer_size(lines),
    decreases lines.len() - k,
{
    if k == lines.len() {
        assert(lines.take(k) =~= lines);
    } else {
        assert(lines.drop_last().take(k) =~= lines.take(k));
        lemma_size_take(lines.drop_last(), k);
    }
}

pub proof fn lemma_size_take_unfold(lines: Seq<Seq<u8>>, i: int)
    requires
        0 <= i < lines.len(),
    ensures
        spec_buffer_size(lines.take(i + 1)) == spec_buffer_size(lines.take(i)) + lines[i].len()
            + 1,
{
    assert(lines.take(i + 1).drop_last() =~= lines.take(i));
    assert(lines.take(i + 1).last() == lines[i]);
}

/// No line is longer than the whole serialized buffer.
pub proof fn lemma_size_line(lines: Seq<Seq<u8>>, i: int)
    requires
        0 <= i < lines.len(),
    ensures
        lines[i].len() + 1 <= spec_buffer_size(lines),
{
    lemma_size_take(lines, i + 1);
    lemma_size_take_unfold(lines, i);
    lemma_size_nonneg(lines.take(i));
}

pub proof fn lemma_size_update(lines: Seq<Seq<u8>>, i: int, l: Seq<u8>)
    requires
        0 <= i < lines.len(),
    ensures
        spec_buffer_size(lines.update(i, l)) == spec_buffer_size(lines) - lines[i].len()
            + l.len(),
    decreases lines.len(),
{
    if i == lines.len() - 1 {
        assert(lines.update(i, l).drop_last() =~= lines.drop_last());
        assert(lines.update(i, l).last() == l);
    } else {
        assert(lines.update(i, l).drop_last() =~= lines.drop_last().update(i, l));
        assert(lines.update(i, l).last() == lines.last());
        lemma_size_update(lines.drop_last(), i, l);
    }
}

pub proof fn lemma_size_remove(lines: Seq<Seq<u8>>, i: int)
    requires
        0 <= i < lines.len(),
    ensures
        spec_buffer_size(lines.remove(i)) == spec_buffer_size(lines) - lines[i].len() - 1,
    decreases lines.len(),
{
    if i == lines.len() - 1 {
        assert(lines.remove(i) =~= lines.drop_last());
    } else {
        assert(lines.remove(i).drop_last() =~= lines.drop_last().remove(i));
        assert(lines.remove(i).last() == lines.last());
        lemma_size_remove(lines.drop_last(), i);
    }
}

pub proof fn lemma_size_push(lines: Seq<Seq<u8>>, l: Seq<u8>)
    ensures
        spec_buffer_size(lines.push(l)) == spec_buffer_size(lines) + l.len() + 1,
{
    assert(lines.push(l).drop_last() =~= lines);
    assert(lines.push(l).last() == l);
}

/// An insertion grows the serialized buffer by one byte, plus a newline
/// when it created the line.
pub proof fn lemma_size_insert(lines: Seq<Seq<u8>>, cy: int, cx: int, ch: u8)
    requires
        0 <= cy <= lines.len(),
        0 <= cx,
    ensures
        spec_buffer_size(spec_insert(lines, cy, cx, ch)) == spec_buffer_size(lines) + (
        if cy == lines.len() {
            2int
        } else {
            1int
        }),
{
    let ls = if cy == lines.len() {
        lines.push(Seq::<u8>::empty())
    } else {
        lines
    };
    if cy == lines.len() {
        lemma_size_push(lines, Seq::<u8>::empty());
    }
    let k = if cx > ls[cy].len() {
        ls[cy].len() as int
    } else {
        cx
    };
    assert(ls[cy].insert(k, ch).len() == ls[cy].len() + 1);
    lemma_size_update(ls, cy, ls[cy].insert(k, ch));
}

/// A deletion never grows the serialized buffer.
pub proof fn lemma_size_delete(lines: Seq<Seq<u8>>, cy: int, cx: int)
    requires
        0 <= cy <= lines.len(),
        0 <= cx,
        cy < lines.len() ==> cx <= lines[cy].len(),
    ensures
        spec_buffer_size(spec_delete(lines, cy, cx).0) <= spec_buffer_size(lines),
{
    if !spec_delete_mutates(lines, cy, cx) {
    } else if cx > 0 {
        assert(lines[cy].remove(cx - 1).len() == lines[cy].len() - 1);
        lemma_size_update(lines, cy, lines[cy].remove(cx - 1));
    } else {
        let joined = lines[cy - 1] + lines[cy];
        let mid = lines.update(cy - 1, joined);
        lemma_size_update(lines, cy - 1, joined);
        assert(mid[cy] == lines[cy]);
        lemma_size_remove(mid, cy);
    }
}

/// Inserting a byte and then deleting at the cursor position that results
/// restores the line and the cursor exactly: the deletion undoes the
/// insertion.  When the insertion happened on the virtual line past the
/// end, the appended line stays, restored to empty.
pub proof fn lemma_insert_then_delete(lines: Seq<Seq<u8>>, cy: int, cx: int, ch: u8)
    requires
        0 <= cy <= lines.len(),
        cy < lines.len() ==> 0 <= cx <= lines[cy].len(),
        cy == lines.len() ==> cx == 0,
    ensures
        ({
            let inserted = spec_insert(lines, cy, cx, ch);
            let (nl, ny, nx) = spec_delete(inserted, cy, cx + 1);
            &&& ny == cy
            &&& nx == cx
            &&& nl == if cy == lines.len() {
                lines.push(Seq::<u8>::empty())
            } else {
                lines
            }
        }),
{
    let ls = if cy == lines.len() {
        lines.push(Seq::<u8>::empty())
    } else {
        lines
    };
    let line = ls[cy];
    let inserted = spec_insert(lines, cy, cx, ch);
    let li = line.insert(cx, ch);
    assert(inserted == ls.update(cy, li));
    assert(li.len() == line.len() + 1);
    let (nl, ny, nx) = spec_delete(inserted, cy, cx + 1);
    assert(li.remove(cx) =~= line);
    assert(nl =~~= ls);
}

} // verus!
