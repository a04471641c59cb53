//! Markdown pipe tables: from text to rows of cells.
//!
//! The parser is lenient on purpose. It reads one line at a time, knows no
//! header and no escaping, and a pipe inside a cell simply starts a new cell.
//! A cell keeps its column: a blank cell between two pipes is a cell.

use crate::text::{
    chars_of, copy_range, is_space, lemma_split_append_plain, pieces_view, rows_view, split,
    split_range, string_of, strings_view, trim_bounds, trim_end, trim_start, trimmed,
};
use vstd::prelude::*;

verus! {

/// A trimmed line is a table row when it starts and ends with a pipe.
pub open spec fn is_row_line(t: Seq<char>) -> bool {
    t.len() > 0 && t[0] == '|' && t.last() == '|'
}

/// The cells among the pieces of a row line: the pieces between the first
/// and the last one, each trimmed. The first piece stands before the leading
/// pipe and the last one behind the trailing pipe, and both are left out. A
/// piece between two pipes is a cell, blank or not.
pub open spec fn cells_of(pieces: Seq<Seq<char>>) -> Seq<Seq<char>> {
    if pieces.len() < 2 {
        Seq::empty()
    } else {
        Seq::new((pieces.len() - 2) as nat, |i: int| trimmed(pieces[i + 1]))
    }
}

/// The cells of a trimmed row line.
pub open spec fn row_cells(t: Seq<char>) -> Seq<Seq<char>> {
    cells_of(split(t, '|'))
}

/// The rows read from `lines`: for each line that is a row line once trimmed
/// and has at least `min_cols` cells, its cells.
pub open spec fn table_rows(lines: Seq<Seq<char>>, min_cols: nat) -> Seq<Seq<Seq<char>>>
    decreases lines.len(),
{
    if lines.len() == 0 {
        Seq::empty()
    } else {
        let before = table_rows(lines.drop_last(), min_cols);
        let t = trimmed(lines.last());
        if is_row_line(t) && row_cells(t).len() >= min_cols {
            before.push(row_cells(t))
        } else {
            before
        }
    }
}

/// The table that `content` holds: its lines are the pieces between line
/// feeds.
pub open spec fn parsed_table(content: Seq<char>, min_cols: nat) -> Seq<Seq<Seq<char>>> {
    table_rows(split(content, '\n'), min_cols)
}

/// The cells of the row line `line[lo..hi]`.
fn read_cells(line: &Vec<char>, lo: usize, hi: usize) -> (cells: Vec<String>)
    requires
        lo <= hi <= line.len(),
    ensures
        strings_view(cells@) == row_cells(line@.subrange(lo as int, hi as int)),
{
    let pieces = split_range(line, lo, hi, '|');
    let ghost all = split(line@.subrange(lo as int, hi as int), '|');
    let mut cells: Vec<String> = Vec::new();
    if pieces.len() < 2 {
        return cells;
    }
    let last = pieces.len() - 1;
    let mut i: usize = 1;
    while i < last
        invariant
            1 <= i <= last,
            last + 1 == pieces.len(),
            pieces_view(pieces@) == all,
            cells.len() == i - 1,
            forall|k: int| 0 <= k < i - 1 ==> (#[trigger] cells[k])@ == trimmed(all[k + 1]),
        decreases last - i,
    {
        let piece = &pieces[i];
        let (a, b) = trim_bounds(piece, 0, piece.len());
        assert(piece@.subrange(0, piece.len() as int) == piece@);
        cells.push(string_of(copy_range(piece, a, b)));
        i += 1;
    }
    cells
}

/// Reads the rows of a markdown pipe table out of `content`.
///
/// A line counts when, once trimmed, it starts and ends with `|`. It is cut
/// at every `|`; what stands before the first and behind the last `|` is
/// dropped, and every piece between two pipes is a cell, trimmed, blank or
/// not. The line becomes a row if it has at least `min_cols` cells.
pub fn parse_table(content: &str, min_cols: usize) -> (rows: Vec<Vec<String>>)
    ensures
        rows_view(rows@) == parsed_table(content@, min_cols as nat),
{
    let chars = chars_of(content);
    let lines = split_range(&chars, 0, chars.len(), '\n');
    let ghost all = split(content@, '\n');
    let mut rows: Vec<Vec<String>> = Vec::new();
    let mut i: usize = 0;
    assert(chars@.subrange(0, chars.len() as int) == content@);
    while i < lines.len()
        invariant
            i <= lines.len(),
            pieces_view(lines@) == all,
            rows_view(rows@) == table_rows(all.take(i as int), min_cols as nat),
        decreases lines.len() - i,
    {
        let line = &lines[i];
        let (a, b) = trim_bounds(line, 0, line.len());
        proof {
            assert(all.take(i + 1).drop_last() == all.take(i as int));
            assert(line@.subrange(0, line.len() as int) == line@);
        }
        if a < b && line[a] == '|' && line[b - 1] == '|' {
            let cells = read_cells(line, a, b);
            if cells.len() >= min_cols {
                rows.push(cells);
            }
        }
        i += 1;
    }
    assert(all.take(lines.len() as int) == all);
    rows
}

/// Replaces `rows` by the table read from what was loaded, or by no rows when
/// nothing could be loaded, and moves the view back to the top.
pub fn load_table(rows: &mut Vec<Vec<String>>, scroll: &mut usize, loaded: Option<&str>)
    ensures
        *final(scroll) == 0,
        rows_view(final(rows)@) == match loaded {
            Some(text) => parsed_table(text@, 1),
            None => Seq::empty(),
        },
{
    match loaded {
        Some(text) => {
            *rows = parse_table(text, 1);
        },
        None => {
            *rows = Vec::new();
        },
    }
    *scroll = 0;
}

/// What follows a visit to the editor. When the editor ended well the table
/// is loaded again as by [`load_table`]; otherwise the rows are dropped.
/// Either way the view is back at the top and a full redraw is due.
pub fn edit_table(
    rows: &mut Vec<Vec<String>>,
    scroll: &mut usize,
    edited: bool,
    loaded: Option<&str>,
    force_redraw: &mut bool,
)
    ensures
        *final(scroll) == 0,
        *final(force_redraw),
        rows_view(final(rows)@) == match loaded {
            Some(text) if edited => parsed_table(text@, 1),
            _ => Seq::empty(),
        },
{
    if edited {
        load_table(rows, scroll, loaded);
    } else {
        *rows = Vec::new();
        *scroll = 0;
    }
    *force_redraw = true;
}

/// A text that can stand between two pipes as a cell: it holds no pipe and
/// no line feed. It may be blank.
pub open spec fn is_cell_text(c: Seq<char>) -> bool {
    !c.contains('|') && !c.contains('\n')
}

/// The row line that holds `cells`: a pipe, then each cell followed by a
/// pipe.
pub open spec fn row_text(cells: Seq<Seq<char>>) -> Seq<char>
    decreases cells.len(),
{
    if cells.len() == 0 {
        seq!['|']
    } else {
        row_text(cells.drop_last()) + cells.last() + seq!['|']
    }
}

/// White space that ends no line: what may stand before and behind a row
/// line.
pub open spec fn is_margin(m: Seq<char>) -> bool {
    forall|i: int| 0 <= i < m.len() ==> is_space(#[trigger] m[i]) && m[i] != '\n'
}

/// The line that holds `cells` as it is written: the row line with a margin
/// before it and a margin behind it.
pub open spec fn written_line(cells: Seq<Seq<char>>, margins: (Seq<char>, Seq<char>)) -> Seq<char> {
    margins.0 + row_text(cells) + margins.1
}

/// The text that holds `rows`: the written line of each row, with the
/// margins of that row, followed by a line feed.
pub open spec fn table_text(
    rows: Seq<Seq<Seq<char>>>,
    margins: Seq<(Seq<char>, Seq<char>)>,
) -> Seq<char>
    decreases rows.len(),
{
    if rows.len() == 0 || margins.len() != rows.len() {
        Seq::empty()
    } else {
        table_text(rows.drop_last(), margins.drop_last()) + written_line(
            rows.last(),
            margins.last(),
        ) + seq!['\n']
    }
}

/// Each cell of a row, trimmed.
pub open spec fn trimmed_cells(cells: Seq<Seq<char>>) -> Seq<Seq<char>> {
    Seq::new(cells.len(), |i: int| trimmed(cells[i]))
}

/// Each row of a table with its cells trimmed.
pub open spec fn trimmed_rows(rows: Seq<Seq<Seq<char>>>) -> Seq<Seq<Seq<char>>> {
    Seq::new(rows.len(), |r: int| trimmed_cells(rows[r]))
}

/// A row line starts and ends with a pipe and holds no line feed, as long as
/// its cells hold none.
proof fn lemma_row_text_shape(cells: Seq<Seq<char>>)
    requires
        forall|i: int| 0 <= i < cells.len() ==> is_cell_text(#[trigger] cells[i]),
    ensures
        row_text(cells).len() > 0,
        row_text(cells)[0] == '|',
        row_text(cells).last() == '|',
        !row_text(cells).contains('\n'),
        trimmed(row_text(cells)) == row_text(cells),
        is_row_line(trimmed(row_text(cells))),
    decreases cells.len(),
{
    let line = row_text(cells);
    if cells.len() > 0 {
        let head = cells.drop_last();
        lemma_row_text_shape(head);
        let before = row_text(head);
        let cell = cells.last();
        if line.contains('\n') {
            let i = choose|i: int| 0 <= i < line.len() && line[i] == '\n';
            if i < before.len() {
                assert(before[i] == '\n');
            } else if i < before.len() + cell.len() {
                assert(cell[i - before.len()] == '\n');
            }
        }
    }
}

/// Cut at its pipes, a row line gives an empty piece, its cells, and an
/// empty piece.
proof fn lemma_row_text_split(cells: Seq<Seq<char>>)
    requires
        forall|i: int| 0 <= i < cells.len() ==> is_cell_text(#[trigger] cells[i]),
    ensures
        split(row_text(cells), '|') == (seq![Seq::<char>::empty()] + cells).push(Seq::empty()),
    decreases cells.len(),
{
    let none = Seq::<char>::empty();
    if cells.len() == 0 {
        let line = row_text(cells);
        assert(line.drop_last() == none);
        assert(split(none, '|') == seq![none]);
    } else {
        let head = cells.drop_last();
        let cell = cells.last();
        lemma_row_text_split(head);
        let before = row_text(head);
        lemma_split_append_plain(before, cell, '|');
        let line = row_text(cells);
        assert(line.drop_last() == before + cell);
    }
}

/// The cells read from a row line are its cells, trimmed.
proof fn lemma_row_cells_of_row_text(cells: Seq<Seq<char>>)
    requires
        forall|i: int| 0 <= i < cells.len() ==> is_cell_text(#[trigger] cells[i]),
    ensures
        row_cells(row_text(cells)) == trimmed_cells(cells),
{
    lemma_row_text_split(cells);
    let pieces = (seq![Seq::<char>::empty()] + cells).push(Seq::empty());
    assert(cells_of(pieces) =~= trimmed_cells(cells));
}

/// A margin before a text is trimmed away with the white space that the
/// text starts with.
proof fn lemma_trim_start_margin(m: Seq<char>, s: Seq<char>)
    requires
        is_margin(m),
    ensures
        trim_start(m + s) == trim_start(s),
    decreases m.len(),
{
    if m.len() > 0 {
        let rest = m.drop_first();
        lemma_trim_start_margin(rest, s);
        assert((m + s).drop_first() == rest + s);
    }
}

/// A margin behind a text is trimmed away with the white space that the
/// text ends with.
proof fn lemma_trim_end_margin(s: Seq<char>, m: Seq<char>)
    requires
        is_margin(m),
    ensures
        trim_end(s + m) == trim_end(s),
    decreases m.len(),
{
    if m.len() > 0 {
        let head = m.drop_last();
        lemma_trim_end_margin(s, head);
        assert((s + m).drop_last() == s + head);
    }
}

/// A written line holds no line feed, and trimmed it is the row line.
proof fn lemma_written_line(cells: Seq<Seq<char>>, margins: (Seq<char>, Seq<char>))
    requires
        forall|i: int| 0 <= i < cells.len() ==> is_cell_text(#[trigger] cells[i]),
        is_margin(margins.0),
        is_margin(margins.1),
    ensures
        !written_line(cells, margins).contains('\n'),
        trimmed(written_line(cells, margins)) == row_text(cells),
{
    let line = row_text(cells);
    let written = written_line(cells, margins);
    lemma_row_text_shape(cells);
    if written.contains('\n') {
        let i = choose|i: int| 0 <= i < written.len() && written[i] == '\n';
        if i < margins.0.len() {
            assert(margins.0[i] == '\n');
        } else if i < margins.0.len() + line.len() {
            assert(line[i - margins.0.len()] == '\n');
        } else {
            assert(margins.1[i - margins.0.len() - line.len()] == '\n');
        }
    }
    assert(written == margins.0 + (line + margins.1));
    lemma_trim_start_margin(margins.0, line + margins.1);
    lemma_trim_end_margin(line, margins.1);
}

/// Cut at its line feeds, the text of a table gives its written lines and
/// an empty line; the rows read from those lines are the rows of the table.
proof fn lemma_table_text_lines(
    rows: Seq<Seq<Seq<char>>>,
    margins: Seq<(Seq<char>, Seq<char>)>,
    min_cols: nat,
)
    requires
        margins.len() == rows.len(),
        forall|r: int, c: int|
            0 <= r < rows.len() && 0 <= c < rows[r].len() ==> is_cell_text(#[trigger] rows[r][c]),
        forall|r: int| 0 <= r < rows.len() ==> (#[trigger] rows[r]).len() >= min_cols,
        forall|r: int|
            0 <= r < margins.len() ==> is_margin((#[trigger] margins[r]).0) && is_margin(
                margins[r].1,
            ),
    ensures
        split(table_text(rows, margins), '\n').len() > 0,
        split(table_text(rows, margins), '\n').last() == Seq::<char>::empty(),
        table_rows(split(table_text(rows, margins), '\n').drop_last(), min_cols) == trimmed_rows(
            rows,
        ),
    decreases rows.len(),
{
    if rows.len() > 0 {
        let head = rows.drop_last();
        let head_margins = margins.drop_last();
        let row = rows.last();
        let margin = margins.last();
        lemma_table_text_lines(head, head_margins, min_cols);
        lemma_written_line(row, margin);
        lemma_row_text_shape(row);
        lemma_row_cells_of_row_text(row);
        let before = table_text(head, head_margins);
        let written = written_line(row, margin);
        let lines = split(before, '\n');
        lemma_split_append_plain(before, written, '\n');
        let text = table_text(rows, margins);
        assert(text.drop_last() == before + written);
        let upto = split(before + written, '\n');
        assert(split(text, '\n').drop_last() == upto);
        assert(upto.drop_last() == lines.drop_last());
    }
}

/// What is written as a table reads back as that table. Let every cell
/// of `rows` hold no pipe and no line feed, let every row have at least
/// `min_cols` cells, and let the margins be white space without a line
/// feed. Then the text made of one line for each row, a pipe before the first
/// cell and after every cell, with a margin before and behind the line, reads
/// as the same rows with the same cells in the same columns, each cell
/// trimmed.
pub proof fn lemma_parse_table_round_trip(
    rows: Seq<Seq<Seq<char>>>,
    margins: Seq<(Seq<char>, Seq<char>)>,
    min_cols: nat,
)
    requires
        margins.len() == rows.len(),
        forall|r: int, c: int|
            0 <= r < rows.len() && 0 <= c < rows[r].len() ==> is_cell_text(#[trigger] rows[r][c]),
        forall|r: int| 0 <= r < rows.len() ==> (#[trigger] rows[r]).len() >= min_cols,
        forall|r: int|
            0 <= r < margins.len() ==> is_margin((#[trigger] margins[r]).0) && is_margin(
                margins[r].1,
            ),
    ensures
        parsed_table(table_text(rows, margins), min_cols) == trimmed_rows(rows),
        forall|r: int|
            0 <= r < rows.len() ==> (#[trigger] parsed_table(
                table_text(rows, margins),
                min_cols,
            )[r]).len() >= min_cols,
{
    lemma_table_text_lines(rows, margins, min_cols);
}

} // verus!
