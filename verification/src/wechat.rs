//! The spreadsheet strategy: a wallet statement, as WeChat Pay exports it,
//! in the first worksheet of a workbook.
//!
//! The list of transactions starts below the row whose first cell reads
//! `交易时间`. In each row below it the counterparty, the description, the
//! direction marker and the amount stand in the third to sixth cell.

use crate::amount::{decimal_text, distance, push_decimal};
use crate::ledger::{AggregateView, BillAggregate, BillEntry, Direction, EntryView};
use crate::source::{
    cells_view, ledger_row, read_ledger_row, sheet_view, CellView, FileData, FileDataView,
    ParseError, SheetCell,
};
use crate::text::{chars_of, range_is, string_of, trim_bounds, trimmed};
use vstd::prelude::*;

verus! {

/// The column of the counterparty.
pub const PARTNER_COLUMN: usize = 2;

/// The column of the description.
pub const PRODUCT_COLUMN: usize = 3;

/// The column of the direction marker.
pub const MARKER_COLUMN: usize = 4;

/// The column of the amount.
pub const AMOUNT_COLUMN: usize = 5;

/// The label in the first cell of the header row.
pub open spec fn header_label() -> Seq<char> {
    "交易时间"@
}

/// `i` written in base ten, with a leading `-` when it is negative.
pub open spec fn int_text(i: int) -> Seq<char> {
    if i < 0 {
        seq!['-'] + decimal_text((-i) as nat)
    } else {
        decimal_text(i as nat)
    }
}

/// The text that a cell shows. An empty cell and a cell of another kind show
/// nothing.
pub open spec fn cell_text(c: CellView) -> Seq<char> {
    match c {
        CellView::Text(s) => s,
        CellView::Int(i) => int_text(i),
        CellView::Bool(b) => if b {
            "true"@
        } else {
            "false"@
        },
        CellView::Empty => Seq::empty(),
        CellView::Other => Seq::empty(),
    }
}

/// The text of cell `k` of a row; nothing when the row is shorter.
pub open spec fn field_text(row: Seq<CellView>, k: int) -> Seq<char> {
    if 0 <= k < row.len() {
        cell_text(row[k])
    } else {
        Seq::empty()
    }
}

/// The header row is the one whose first cell, trimmed, is the label.
pub open spec fn is_header_row(row: Seq<CellView>) -> bool {
    trimmed(field_text(row, 0)) == header_label()
}

/// Every cell of the row is empty; a row without cells is blank too.
pub open spec fn is_blank_row(row: Seq<CellView>) -> bool {
    forall|k: int| 0 <= k < row.len() ==> row[k] is Empty
}

/// The entry that a row below the header makes, if any. A blank row makes
/// none; the fields of any other row are read as they stand, untrimmed.
pub open spec fn sheet_row(row: Seq<CellView>) -> Option<(Direction, EntryView)> {
    if is_blank_row(row) {
        None
    } else {
        ledger_row(
            field_text(row, PARTNER_COLUMN as int),
            field_text(row, PRODUCT_COLUMN as int),
            field_text(row, MARKER_COLUMN as int),
            field_text(row, AMOUNT_COLUMN as int),
        )
    }
}

/// The entries that `rows` make, each on its side, in the order of the rows.
pub open spec fn sheet_entries(rows: Seq<Seq<CellView>>) -> AggregateView
    decreases rows.len(),
{
    if rows.len() == 0 {
        AggregateView::empty()
    } else {
        let before = sheet_entries(rows.drop_last());
        match sheet_row(rows.last()) {
            Some((side, entry)) => before.with_entry(side, entry),
            None => before,
        }
    }
}

/// Row `r` is the first header row of `rows`.
pub open spec fn header_row_at(rows: Seq<Seq<CellView>>, r: int) -> bool {
    &&& 0 <= r < rows.len()
    &&& is_header_row(rows[r])
    &&& forall|k: int| 0 <= k < r ==> !is_header_row(#[trigger] rows[k])
}

/// What the rows of a worksheet give: the entries of the rows below the
/// first header row, or `MissingHeader` when no row is a header row.
pub open spec fn sheet_result(rows: Seq<Seq<CellView>>) -> Result<AggregateView, ParseError> {
    if exists|r: int| header_row_at(rows, r) {
        let r = choose|r: int| header_row_at(rows, r);
        Ok(sheet_entries(rows.skip(r + 1)))
    } else {
        Err(ParseError::MissingHeader)
    }
}

/// What a file gives when it is read as a wallet spreadsheet.
pub open spec fn wechat_result(data: FileDataView) -> Result<AggregateView, ParseError> {
    match data {
        FileDataView::Sheet(rows) => sheet_result(rows),
        FileDataView::NoWorksheet => Err(ParseError::MissingWorksheet),
        FileDataView::BrokenWorksheet => Err(ParseError::BrokenWorksheet),
        FileDataView::Unreadable => Err(ParseError::Unreadable),
        FileDataView::Text(_) => Err(ParseError::Unreadable),
    }
}

/// The outcome of a parse, with the aggregate taken by its view.
pub open spec fn outcome_view(r: Result<BillAggregate, ParseError>) -> Result<
    AggregateView,
    ParseError,
> {
    match r {
        Ok(a) => Ok(a@),
        Err(e) => Err(e),
    }
}

/// The text that a cell shows.
pub fn cell_to_string(cell: &SheetCell) -> (text: String)
    ensures
        text@ == cell_text(cell@),
{
    match cell {
        SheetCell::Text(s) => s.clone(),
        SheetCell::Int(i) => {
            let mut out: Vec<char> = Vec::new();
            if *i < 0 {
                out.push('-');
            }
            push_decimal(&mut out, distance(*i as i128));
            string_of(out)
        },
        SheetCell::Bool(b) => if *b {
            "true".to_owned()
        } else {
            "false".to_owned()
        },
        SheetCell::Empty => String::new(),
        SheetCell::Other => String::new(),
    }
}

/// The text of cell `k` of `row`; nothing when the row is shorter.
fn field_string(row: &Vec<SheetCell>, k: usize) -> (text: String)
    ensures
        text@ == field_text(cells_view(row@), k as int),
{
    if k < row.len() {
        cell_to_string(&row[k])
    } else {
        String::new()
    }
}

/// Whether `row` is the header row.
fn row_is_header(row: &Vec<SheetCell>, label: &Vec<char>) -> (is_header: bool)
    requires
        label@ == header_label(),
    ensures
        is_header == is_header_row(cells_view(row@)),
{
    let first = field_string(row, 0);
    let chars = chars_of(first.as_str());
    let (a, b) = trim_bounds(&chars, 0, chars.len());
    assert(chars@.subrange(0, chars.len() as int) == chars@);
    range_is(&chars, a, b, label)
}

/// Whether every cell of `row` is empty.
fn row_is_blank(row: &Vec<SheetCell>) -> (blank: bool)
    ensures
        blank == is_blank_row(cells_view(row@)),
{
    let mut i: usize = 0;
    while i < row.len()
        invariant
            i <= row.len(),
            forall|k: int| 0 <= k < i ==> cells_view(row@)[k] is Empty,
        decreases row.len() - i,
    {
        match &row[i] {
            SheetCell::Empty => {},
            _ => {
                assert(!(cells_view(row@)[i as int] is Empty));
                return false;
            },
        }
        i += 1;
    }
    true
}

/// The entry that a row below the header makes, if any.
pub fn read_sheet_row(row: &Vec<SheetCell>) -> (entry: Option<(Direction, BillEntry)>)
    ensures
        entry is Some <==> sheet_row(cells_view(row@)) is Some,
        entry matches Some((side, e)) ==> sheet_row(cells_view(row@)) == Some((side, e@)),
{
    if row_is_blank(row) {
        return None;
    }
    let marker = field_string(row, MARKER_COLUMN);
    let partner = field_string(row, PARTNER_COLUMN);
    let product = field_string(row, PRODUCT_COLUMN);
    let amount = field_string(row, AMOUNT_COLUMN);
    read_ledger_row(partner.as_str(), product.as_str(), marker.as_str(), amount.as_str())
}

/// Puts `entry` on its side of `aggregate`.
pub fn add_entry(aggregate: &mut BillAggregate, side: Direction, entry: BillEntry)
    ensures
        final(aggregate)@ == old(aggregate)@.with_entry(side, entry@),
{
    match side {
        Direction::Income => {
            aggregate.incomes.push(entry);
            assert(aggregate@.incomes == old(aggregate)@.incomes.push(entry@));
        },
        Direction::Expense => {
            aggregate.expenses.push(entry);
            assert(aggregate@.expenses == old(aggregate)@.expenses.push(entry@));
        },
    }
}

/// Reads the rows of a worksheet: finds the first header row and takes the
/// entries of the rows below it.
pub fn parse_sheet_rows(rows: &Vec<Vec<SheetCell>>) -> (result: Result<BillAggregate, ParseError>)
    ensures
        outcome_view(result) == sheet_result(sheet_view(rows@)),
{
    let ghost all = sheet_view(rows@);
    let label = chars_of("交易时间");
    let mut r: usize = 0;
    while r < rows.len() && !row_is_header(&rows[r], &label)
        invariant
            r <= rows.len(),
            label@ == header_label(),
            all == sheet_view(rows@),
            forall|k: int| 0 <= k < r ==> !is_header_row(#[trigger] all[k]),
        decreases rows.len() - r,
    {
        r += 1;
    }
    if r == rows.len() {
        assert forall|k: int| !header_row_at(all, k) by {
            if 0 <= k < all.len() {
                assert(!is_header_row(all[k]));
            }
        }
        return Err(ParseError::MissingHeader);
    }
    proof {
        assert(header_row_at(all, r as int));
        let chosen = choose|k: int| header_row_at(all, k);
        assert(chosen == r) by {
            if chosen < r {
                assert(!is_header_row(all[chosen]));
            } else if r < chosen {
                assert(!is_header_row(all[r as int]));
            }
        }
    }
    let ghost below = all.skip(r + 1);
    let first = r + 1;
    let mut aggregate = BillAggregate::default();
    let mut i: usize = first;
    assert(below.take(0) == Seq::<Seq<CellView>>::empty());
    while i < rows.len()
        invariant
            first <= i <= rows.len(),
            all == sheet_view(rows@),
            below == all.skip(first as int),
            aggregate@ == sheet_entries(below.take(i - first)),
        decreases rows.len() - i,
    {
        proof {
            assert(below.take(i - first + 1).drop_last() == below.take(i - first));
            assert(below.take(i - first + 1).last() == cells_view(rows[i as int]@));
        }
        match read_sheet_row(&rows[i]) {
            Some((side, entry)) => {
                add_entry(&mut aggregate, side, entry);
            },
            None => {},
        }
        i += 1;
    }
    assert(below.take(rows.len() - first) == below);
    Ok(aggregate)
}

/// Reads a wallet statement from what was read of a workbook.
///
/// The header row is the first row whose first cell, trimmed, reads
/// `交易时间`; every row below it may make an entry. A blank row is skipped,
/// and so is a row with an empty marker or amount, with an amount that is no
/// decimal, or with a marker that names no side. A workbook without the
/// worksheet, with an unreadable one or without a header row fails as a
/// whole.
pub fn parse_wechat_bill(data: &FileData) -> (result: Result<BillAggregate, ParseError>)
    ensures
        outcome_view(result) == wechat_result(data@),
{
    match data {
        FileData::Sheet(rows) => parse_sheet_rows(rows),
        FileData::NoWorksheet => Err(ParseError::MissingWorksheet),
        FileData::BrokenWorksheet => Err(ParseError::BrokenWorksheet),
        FileData::Unreadable => Err(ParseError::Unreadable),
        FileData::Text(_) => Err(ParseError::Unreadable),
    }
}

} // verus!
