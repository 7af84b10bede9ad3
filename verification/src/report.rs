//! Parsing the terminal's cursor-position report.
//!
//! When the size of the terminal cannot be asked for directly, the
//! cursor is sent to the far bottom right and the terminal is asked
//! where it ended up; the reply has the shape `ESC [ rows ; cols R`.
//! This module parses the bytes between the lead-in and the final `R`:
//! two non-empty decimal numbers separated by exactly one semicolon,
//! each small enough for sixteen bits.  Anything else is rejected, and
//! the caller treats that as a fatal inability to size the screen.

use vstd::prelude::*;

verus! {

/// Every byte is a decimal digit.
pub open spec fn all_digits(s: Seq<u8>) -> bool {
    forall|i: int| 0 <= i < s.len() ==> 48 <= #[trigger] s[i] <= 57
}

/// The number the digit string stands for.
pub open spec fn dec_val(s: Seq<u8>) -> int
    recommends
        all_digits(s),
    decreases s.len(),
{
    if s.len() == 0 {
        0
    } else {
        10 * dec_val(s.drop_last()) + (s.last() - 48)
    }
}

/// A digit string's value is never negative.
pub proof fn lemma_dec_val_nonneg(s: Seq<u8>)
    requires
        all_digits(s),
    ensures
        dec_val(s) >= 0,
    decreases s.len(),
{
    if s.len() > 0 {
        assert(all_digits(s.drop_last()));
        lemma_dec_val_nonneg(s.drop_last());
    }
}

/// A digit string's value only grows as digits are appended.
pub proof fn lemma_dec_val_prefix(s: Seq<u8>, k: int)
    requires
        all_digits(s),
        0 <= k <= s.len(),
    ensures
        dec_val(s) >= dec_val(s.take(k)),
    decreases s.len() - k,
{
    if k < s.len() {
        lemma_dec_val_prefix(s, k + 1);
        let t = s.take(k + 1);
        assert(t.drop_last() =~= s.take(k));
        assert(all_digits(t.drop_last()));
        lemma_dec_val_nonneg(t.drop_last());
        assert(dec_val(t) == 10 * dec_val(s.take(k)) + (t.last() - 48));
    } else {
        assert(s.take(k) =~= s);
    }
}

/// The position of the first semicolon at or after `from`, if any.
pub open spec fn spec_first_semi(s: Seq<u8>, from: int) -> Option<int>
    recommends
        0 <= from,
    decreases s.len() - from when from <= s.len()
{
    if from >= s.len() {
        Option::None
    } else if s[from] == 59 {
        Option::Some(from)
    } else {
        spec_first_semi(s, from + 1)
    }
}

/// What a digit field stands for: its value, provided the field is
/// non-empty, all digits, and small enough for sixteen bits.
pub open spec fn spec_parse_u16(s: Seq<u8>) -> Option<u16> {
    if s.len() > 0 && all_digits(s) && dec_val(s) <= 65535 {
        Option::Some(dec_val(s) as u16)
    } else {
        Option::None
    }
}

/// What a cursor-position report stands for: `ESC [`, then a row field
/// and a column field separated by exactly one semicolon.
pub open spec fn spec_parse_report(s: Seq<u8>) -> Option<(u16, u16)> {
    if s.len() < 2 || s[0] != 27 || s[1] != 91 {
        Option::None
    } else {
        match spec_first_semi(s, 2) {
            Option::None => Option::None,
            Option::Some(i) => if spec_first_semi(s, i + 1) is Some {
                Option::None
            } else {
                match (spec_parse_u16(s.subrange(2, i)), spec_parse_u16(
                    s.subrange(i + 1, s.len() as int),
                )) {
                    (Option::Some(r), Option::Some(c)) => Option::Some((r, c)),
                    _ => Option::None,
                }
            },
        }
    }
}

/// Parse the digit field `s[from..to]`.
fn parse_u16(s: &Vec<u8>, from: usize, to: usize) -> (r: Option<u16>)
    requires
        from <= to <= s@.len(),
    ensures
        r == spec_parse_u16(s@.subrange(from as int, to as int)),
{
    let ghost field = s@.subrange(from as int, to as int);
    if from == to {
        return None;
    }
    let mut acc: u32 = 0;
    let mut j: usize = from;
    while j < to
        invariant
            from <= j <= to <= s@.len(),
            field == s@.subrange(from as int, to as int),
            all_digits(s@.subrange(from as int, j as int)),
            acc == dec_val(s@.subrange(from as int, j as int)),
            acc <= 65535,
        decreases to - j,
    {
        let b = s[j];
        let ghost seen = s@.subrange(from as int, j as int);
        let ghost next = s@.subrange(from as int, j as int + 1);
        proof {
            assert(next.drop_last() =~= seen);
            assert(next.last() == s@[j as int]);
        }
        if b < 48 || b > 57 {
            assert(field[j - from] == b);
            assert(!all_digits(field));
            return None;
        }
        assert(all_digits(next));
        let d = (b - 48) as u32;
        let acc2 = acc * 10 + d;
        assert(acc2 == dec_val(next));
        if acc2 > 65535 {
            proof {
                if all_digits(field) {
                    lemma_dec_val_prefix(field, j as int + 1 - from);
                    assert(field.take(j as int + 1 - from) =~= next);
                }
            }
            return None;
        }
        acc = acc2;
        j = j + 1;
    }
    proof {
        assert(s@.subrange(from as int, j as int) =~= field);
        lemma_dec_val_nonneg(field);
    }
    Some(acc as u16)
}

/// Parse a cursor-position report (the bytes before the final `R`).
pub fn parse_cursor_report(s: &Vec<u8>) -> (r: Option<(u16, u16)>)
    ensures
        r == spec_parse_report(s@),
{
    let n = s.len();
    if n < 2 {
        return None;
    }
    if s[0] != 27 || s[1] != 91 {
        return None;
    }
    let mut j: usize = 2;
    while j < n && s[j] != 59
        invariant
            2 <= j <= n,
            n == s@.len(),
            spec_first_semi(s@, 2) == spec_first_semi(s@, j as int),
        decreases n - j,
    {
        j = j + 1;
    }
    if j == n {
        assert(spec_first_semi(s@, 2) is None);
        return None;
    }
    assert(spec_first_semi(s@, 2) == Option::Some(j as int));
    let mut k: usize = j + 1;
    while k < n && s[k] != 59
        invariant
            j + 1 <= k <= n,
            n == s@.len(),
            spec_first_semi(s@, j as int + 1) == spec_first_semi(s@, k as int),
        decreases n - k,
    {
        k = k + 1;
    }
    if k < n {
        assert(spec_first_semi(s@, j as int + 1) is Some);
        return None;
    }
    assert(spec_first_semi(s@, j as int + 1) is None);
    let a = parse_u16(s, 2, j);
    let b = parse_u16(s, j + 1, n);
    match (a, b) {
        (Some(row), Some(col)) => Some((row, col)),
        _ => None,
    }
}

} // verus!
