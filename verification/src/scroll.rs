//! Windowing over the rows of a table: the scroll offset, the rows that fit
//! the viewport, and the width of each column.

use crate::text::{rows_view, strings_view};
use vstd::prelude::*;
use vstd::slice::slice_subrange;

verus! {

/// Scrolling down stops once the last `SCROLL_WINDOW` rows start at the
/// offset, whatever the height of the viewport.
pub const SCROLL_WINDOW: usize = 10;

/// Narrowest column that is drawn.
pub const MIN_COLUMN_WIDTH: usize = 8;

/// Widest column that is drawn.
pub const MAX_COLUMN_WIDTH: usize = 30;

/// The largest offset that scrolling down can reach from the top.
pub open spec fn scroll_ceiling(len: nat) -> nat {
    if len > SCROLL_WINDOW {
        (len - SCROLL_WINDOW) as nat
    } else {
        0
    }
}

/// The offset after one step up.
pub open spec fn scrolled_up(offset: nat) -> nat {
    if offset > 0 {
        (offset - 1) as nat
    } else {
        0
    }
}

/// The offset after one step down over `len` rows.
pub open spec fn scrolled_down(offset: nat, len: nat) -> nat {
    if offset + SCROLL_WINDOW < len {
        offset + 1
    } else {
        offset
    }
}

/// Moves the offset one row up; at the top it stays.
pub fn scroll_up(scroll: &mut usize)
    ensures
        *final(scroll) == scrolled_up(*old(scroll) as nat),
        *old(scroll) == 0 ==> *final(scroll) == 0,
{
    if *scroll > 0 {
        *scroll -= 1;
    }
}

/// Moves the offset one row down while more than `SCROLL_WINDOW` rows start
/// at it. The offset never decreases, never passes `scroll_ceiling(len)` once
/// it is within it, and stays where it is from the ceiling on.
pub fn scroll_down(scroll: &mut usize, len: usize)
    ensures
        *final(scroll) == scrolled_down(*old(scroll) as nat, len as nat),
        *old(scroll) <= *final(scroll) <= *old(scroll) + 1,
        *old(scroll) + SCROLL_WINDOW >= len ==> *final(scroll) == *old(scroll),
        *old(scroll) <= scroll_ceiling(len as nat) ==> *final(scroll) <= scroll_ceiling(len as nat),
{
    if len > SCROLL_WINDOW && *scroll < len - SCROLL_WINDOW {
        *scroll += 1;
    }
}

/// Scrolling down is monotonic, stays within the ceiling, and changes
/// nothing once the offset has reached the ceiling; scrolling up from the
/// top changes nothing.
pub proof fn lemma_scroll_bounds(offset: nat, len: nat)
    ensures
        offset <= scrolled_down(offset, len),
        offset <= scroll_ceiling(len) ==> scrolled_down(offset, len) <= scroll_ceiling(len),
        offset >= scroll_ceiling(len) ==> scrolled_down(offset, len) == offset,
        scrolled_down(scrolled_down(offset, len), len) == scrolled_down(offset, len)
            <==> scrolled_down(offset, len) + SCROLL_WINDOW >= len,
        scrolled_up(0) == 0,
        scrolled_up(offset) <= offset,
{
}

/// First row shown and the row after the last one shown, for `len` rows seen
/// from `offset` through a viewport of `height` rows.
pub open spec fn window(len: nat, offset: nat, height: nat) -> (nat, nat) {
    let start = if offset < len {
        offset
    } else {
        len
    };
    let end = if start + height < len {
        start + height
    } else {
        len
    };
    (start, end)
}

/// The bounds of the visible window, as [`window`] defines them.
pub fn visible_range(len: usize, offset: usize, height: usize) -> (r: (usize, usize))
    ensures
        r.0 <= r.1 <= len,
        r.1 - r.0 <= height,
        (r.0 as nat, r.1 as nat) == window(len as nat, offset as nat, height as nat),
{
    let start = if offset < len {
        offset
    } else {
        len
    };
    let end = if height < len - start {
        start + height
    } else {
        len
    };
    (start, end)
}

/// The rows that show in a viewport of `height` rows when the first one
/// shown is row `offset`. An offset past the end shows nothing.
pub fn visible_slice<'a>(rows: &'a Vec<Vec<String>>, offset: usize, height: usize) -> (shown:
    &'a [Vec<String>])
    ensures
        shown@ == rows@.subrange(
            window(rows@.len(), offset as nat, height as nat).0 as int,
            window(rows@.len(), offset as nat, height as nat).1 as int,
        ),
{
    let (start, end) = visible_range(rows.len(), offset, height);
    slice_subrange(rows.as_slice(), start, end)
}

/// The number of columns of a table: the length of its longest row.
pub open spec fn column_count(rows: Seq<Seq<Seq<char>>>) -> nat
    decreases rows.len(),
{
    if rows.len() == 0 {
        0
    } else {
        let before = column_count(rows.drop_last());
        if rows.last().len() > before {
            rows.last().len()
        } else {
            before
        }
    }
}

/// The length, in characters, of the longest cell in column `c`; 0 when no
/// row reaches that column.
pub open spec fn widest_cell(rows: Seq<Seq<Seq<char>>>, c: int) -> nat
    decreases rows.len(),
{
    if rows.len() == 0 {
        0
    } else {
        let before = widest_cell(rows.drop_last(), c);
        let row = rows.last();
        if 0 <= c < row.len() && row[c].len() > before {
            row[c].len()
        } else {
            before
        }
    }
}

/// `n` brought into `lo ..= hi`.
pub open spec fn clamped(n: nat, lo: nat, hi: nat) -> nat {
    if n < lo {
        lo
    } else if n > hi {
        hi
    } else {
        n
    }
}

/// No row is longer than `column_count`, and a table with rows has a row of
/// that length.
pub proof fn lemma_column_count(rows: Seq<Seq<Seq<char>>>)
    ensures
        forall|r: int| 0 <= r < rows.len() ==> (#[trigger] rows[r]).len() <= column_count(rows),
        rows.len() > 0 ==> exists|r: int|
            0 <= r < rows.len() && (#[trigger] rows[r]).len() == column_count(rows),
        rows.len() == 0 ==> column_count(rows) == 0,
    decreases rows.len(),
{
    if rows.len() > 0 {
        let head = rows.drop_last();
        lemma_column_count(head);
        assert forall|r: int| 0 <= r < rows.len() implies (#[trigger] rows[r]).len()
            <= column_count(rows) by {
            if r < head.len() {
                assert(rows[r] == head[r]);
            }
        }
        if rows.last().len() > column_count(head) || head.len() == 0 {
            assert(rows[rows.len() - 1].len() == column_count(rows));
        } else {
            let r = choose|r: int| 0 <= r < head.len() && (#[trigger] head[r]).len() == column_count(head);
            assert(rows[r] == head[r]);
        }
    }
}

/// No cell of column `c` is longer than `widest_cell`, and unless that is 0
/// some cell of the column has that length.
pub proof fn lemma_widest_cell(rows: Seq<Seq<Seq<char>>>, c: int)
    ensures
        forall|r: int|
            0 <= r < rows.len() && 0 <= c < (#[trigger] rows[r]).len() ==> rows[r][c].len()
                <= widest_cell(rows, c),
        widest_cell(rows, c) > 0 ==> exists|r: int|
            0 <= r < rows.len() && 0 <= c < (#[trigger] rows[r]).len() && rows[r][c].len()
                == widest_cell(rows, c),
    decreases rows.len(),
{
    if rows.len() > 0 {
        let head = rows.drop_last();
        lemma_widest_cell(head, c);
        assert forall|r: int| 0 <= r < rows.len() && 0 <= c < (#[trigger] rows[r]).len() implies
            rows[r][c].len() <= widest_cell(rows, c) by {
            if r < head.len() {
                assert(rows[r] == head[r]);
            }
        }
        if widest_cell(rows, c) > 0 {
            let row = rows.last();
            if 0 <= c < row.len() && row[c].len() > widest_cell(head, c) {
                assert(rows[rows.len() - 1][c].len() == widest_cell(rows, c));
            } else {
                let r = choose|r: int|
                    0 <= r < head.len() && 0 <= c < (#[trigger] head[r]).len() && head[r][c].len()
                        == widest_cell(head, c);
                assert(rows[r] == head[r]);
            }
        }
    }
}

/// The number of columns of `rows`.
fn count_columns(rows: &Vec<Vec<String>>) -> (cols: usize)
    ensures
        cols == column_count(rows_view(rows@)),
{
    let ghost all = rows_view(rows@);
    let mut cols: usize = 0;
    let mut r: usize = 0;
    while r < rows.len()
        invariant
            r <= rows.len(),
            all == rows_view(rows@),
            cols == column_count(all.take(r as int)),
        decreases rows.len() - r,
    {
        proof {
            assert(all.take(r + 1).drop_last() == all.take(r as int));
        }
        if rows[r].len() > cols {
            cols = rows[r].len();
        }
        r += 1;
    }
    assert(all.take(rows.len() as int) == all);
    cols
}

/// The width of each column: the length in characters of its longest cell,
/// brought into `min_width ..= max_width`. There are as many widths as the
/// longest row has cells.
pub fn column_widths(rows: &Vec<Vec<String>>, min_width: usize, max_width: usize) -> (widths: Vec<
    usize,
>)
    requires
        min_width <= max_width,
    ensures
        widths.len() == column_count(rows_view(rows@)),
        forall|c: int|
            0 <= c < widths.len() ==> widths[c] == clamped(
                widest_cell(rows_view(rows@), c),
                min_width as nat,
                max_width as nat,
            ),
{
    let ghost all = rows_view(rows@);
    let cols = count_columns(rows);
    let mut widths: Vec<usize> = Vec::new();
    let mut c: usize = 0;
    while c < cols
        invariant
            c <= cols,
            widths.len() == c,
            forall|k: int| 0 <= k < c ==> widths[k] == 0,
        decreases cols - c,
    {
        widths.push(0);
        c += 1;
    }
    let mut r: usize = 0;
    proof {
        lemma_column_count(all);
    }
    while r < rows.len()
        invariant
            r <= rows.len(),
            all == rows_view(rows@),
            widths.len() == cols,
            forall|r0: int| 0 <= r0 < all.len() ==> (#[trigger] all[r0]).len() <= cols,
            forall|k: int| 0 <= k < cols ==> widths[k] == widest_cell(all.take(r as int), k),
        decreases rows.len() - r,
    {
        let row = &rows[r];
        let ghost head = all.take(r as int);
        let ghost upto = all.take(r + 1);
        proof {
            assert(all[r as int].len() == row.len());
        }
        let mut i: usize = 0;
        while i < row.len()
            invariant
                i <= row.len() <= cols,
                widths.len() == cols,
                upto.drop_last() == head,
                upto.len() > 0,
                upto.last() == strings_view(row@),
                forall|k: int| 0 <= k < i ==> widths[k] == widest_cell(upto, k),
                forall|k: int| i <= k < cols ==> widths[k] == widest_cell(head, k),
            decreases row.len() - i,
        {
            let n = row[i].as_str().unicode_len();
            proof {
                assert(widths[i as int] == widest_cell(upto.drop_last(), i as int));
            }
            if n > widths[i] {
                widths.set(i, n);
            }
            i += 1;
        }
        assert forall|k: int| 0 <= k < cols implies widths[k] == widest_cell(upto, k) by {
            if k >= row.len() {
                assert(widest_cell(upto, k) == widest_cell(head, k));
            }
        }
        r += 1;
    }
    assert(all.take(rows.len() as int) == all);
    let mut c: usize = 0;
    while c < cols
        invariant
            c <= cols,
            widths.len() == cols,
            min_width <= max_width,
            forall|k: int|
                0 <= k < c ==> widths[k] == clamped(
                    widest_cell(all, k),
                    min_width as nat,
                    max_width as nat,
                ),
            forall|k: int| c <= k < cols ==> widths[k] == widest_cell(all, k),
        decreases cols - c,
    {
        let w = widths[c];
        if w < min_width {
            widths.set(c, min_width);
        } else if w > max_width {
            widths.set(c, max_width);
        }
        c += 1;
    }
    widths
}

} // verus!
