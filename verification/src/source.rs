//! What the two statement formats share: the kinds of source file, what was
//! read from one, the errors that end a file, and the rule that turns the
//! fields of one statement row into a ledger entry.

use crate::amount::{parse_amount, parsed_amount};
use crate::ledger::{BillEntry, Direction, EntryView};
use crate::text::chars_of;
use vstd::prelude::*;

verus! {

/// Why a statement file could not be taken in. Each of these ends the file:
/// nothing of a file that fails is kept.
#[derive(Debug, Clone, Copy, PartialEq, Eq, Structural)]
pub enum ParseError {
    /// The path has no extension to tell the format by.
    UnknownKind,
    /// The extension names a format that is not read.
    UnsupportedKind,
    /// The file is missing or could not be read.
    Unreadable,
    /// The workbook has no first worksheet.
    MissingWorksheet,
    /// The first worksheet could not be read.
    BrokenWorksheet,
    /// No row or line starts the list of transactions.
    MissingHeader,
    /// The reader of the comma-separated records reported an error.
    MalformedCsv,
}

/// The strategy by which a statement file is read.
#[derive(Debug, Clone, Copy, PartialEq, Eq, Structural)]
pub enum ParserKind {
    /// A wallet statement in the first worksheet of a workbook.
    Spreadsheet,
    /// A bank statement as comma-separated text.
    Csv,
}

/// A cell of a worksheet. A cell that holds a fractional number is given as
/// the text that shows it.
#[derive(Debug, Clone, PartialEq, Eq)]
pub enum SheetCell {
    Empty,
    Text(String),
    Int(i64),
    Bool(bool),
    /// A cell of any other kind; it reads as empty text but is not empty.
    Other,
}

/// What a [`SheetCell`] stands for.
pub enum CellView {
    Empty,
    Text(Seq<char>),
    Int(int),
    Bool(bool),
    Other,
}

impl View for SheetCell {
    type V = CellView;

    open spec fn view(&self) -> CellView {
        match self {
            SheetCell::Empty => CellView::Empty,
            SheetCell::Text(s) => CellView::Text(s@),
            SheetCell::Int(i) => CellView::Int(*i as int),
            SheetCell::Bool(b) => CellView::Bool(*b),
            SheetCell::Other => CellView::Other,
        }
    }
}

/// The views of the cells of a row.
pub open spec fn cells_view(row: Seq<SheetCell>) -> Seq<CellView> {
    Seq::new(row.len(), |i: int| row[i]@)
}

/// The views of the rows of a worksheet.
pub open spec fn sheet_view(rows: Seq<Vec<SheetCell>>) -> Seq<Seq<CellView>> {
    Seq::new(rows.len(), |i: int| cells_view(rows[i]@))
}

/// What was read from a statement file, before any of it is interpreted.
#[derive(Debug, Clone, PartialEq, Eq)]
pub enum FileData {
    /// The file is missing or could not be read.
    Unreadable,
    /// The text of the file.
    Text(String),
    /// The file is a workbook without a first worksheet.
    NoWorksheet,
    /// The file is a workbook whose first worksheet could not be read.
    BrokenWorksheet,
    /// The rows of the first worksheet of the workbook.
    Sheet(Vec<Vec<SheetCell>>),
}

/// What a [`FileData`] stands for.
pub enum FileDataView {
    Unreadable,
    Text(Seq<char>),
    NoWorksheet,
    BrokenWorksheet,
    Sheet(Seq<Seq<CellView>>),
}

impl View for FileData {
    type V = FileDataView;

    open spec fn view(&self) -> FileDataView {
        match self {
            FileData::Unreadable => FileDataView::Unreadable,
            FileData::Text(s) => FileDataView::Text(s@),
            FileData::NoWorksheet => FileDataView::NoWorksheet,
            FileData::BrokenWorksheet => FileDataView::BrokenWorksheet,
            FileData::Sheet(rows) => FileDataView::Sheet(sheet_view(rows@)),
        }
    }
}

/// The index of the last `c` in `s`, or -1 when `s` has none.
pub open spec fn last_index(s: Seq<char>, c: char) -> int
    decreases s.len(),
{
    if s.len() == 0 {
        -1
    } else if s.last() == c {
        s.len() - 1
    } else {
        last_index(s.drop_last(), c)
    }
}

/// The last segment of a path: what follows its last `/`.
pub open spec fn file_name(path: Seq<char>) -> Seq<char> {
    path.skip(last_index(path, '/') + 1)
}

/// The extension of a path: what follows the last `.` of its file name.
/// There is none when the file name has no `.`, when its only `.` is its
/// first character, and when it is `..`.
pub open spec fn extension(path: Seq<char>) -> Option<Seq<char>> {
    let name = file_name(path);
    let dot = last_index(name, '.');
    if dot <= 0 || name == seq!['.', '.'] {
        None
    } else {
        Some(name.skip(dot + 1))
    }
}

/// The code point of `c`, with the letters `A` to `Z` taken as `a` to `z`.
pub open spec fn lowered(c: char) -> u32 {
    if 0x41 <= c as u32 <= 0x5A {
        (c as u32 + 0x20) as u32
    } else {
        c as u32
    }
}

/// `s` reads `word` when ASCII case is ignored; `word` is in lower case.
pub open spec fn reads_as(s: Seq<char>, word: Seq<char>) -> bool {
    s.len() == word.len() && forall|i: int| 0 <= i < s.len() ==> lowered(s[i]) == word[i] as u32
}

/// The strategy for a path, by its extension: `xlsx` is a spreadsheet,
/// `csv` is comma-separated text, in any case of letters.
pub open spec fn kind_of(path: Seq<char>) -> Result<ParserKind, ParseError> {
    match extension(path) {
        None => Err(ParseError::UnknownKind),
        Some(ext) => if reads_as(ext, seq!['x', 'l', 's', 'x']) {
            Ok(ParserKind::Spreadsheet)
        } else if reads_as(ext, seq!['c', 's', 'v']) {
            Ok(ParserKind::Csv)
        } else {
            Err(ParseError::UnsupportedKind)
        },
    }
}

/// The side of the ledger that a direction marker names: the expense
/// ideograph wins over the income ideograph, and a marker with neither names
/// no side.
pub open spec fn direction_of(marker: Seq<char>) -> Option<Direction> {
    if marker.contains('支') {
        Some(Direction::Expense)
    } else if marker.contains('收') {
        Some(Direction::Income)
    } else {
        None
    }
}

/// The entry that the fields of one statement row make, and its side. There
/// is none when the marker or the amount is empty, when the amount is no
/// decimal, and when the marker names no side.
pub open spec fn ledger_row(
    partner: Seq<char>,
    product: Seq<char>,
    marker: Seq<char>,
    amount: Seq<char>,
) -> Option<(Direction, EntryView)> {
    if marker.len() == 0 || amount.len() == 0 {
        None
    } else {
        match (parsed_amount(amount), direction_of(marker)) {
            (Some(h), Some(direction)) => Some(
                (direction, EntryView { partner, product, amount: h }),
            ),
            _ => None,
        }
    }
}

impl ParseError {
    /// What the error says, as a sequence of characters.
    pub open spec fn message_text(self) -> Seq<char> {
        match self {
            ParseError::UnknownKind => "cannot tell the kind of file"@,
            ParseError::UnsupportedKind => "unsupported statement format"@,
            ParseError::Unreadable => "cannot read the file"@,
            ParseError::MissingWorksheet => "the statement has no worksheet"@,
            ParseError::BrokenWorksheet => "cannot read the worksheet"@,
            ParseError::MissingHeader => "no list of transactions found"@,
            ParseError::MalformedCsv => "cannot parse the CSV records"@,
        }
    }

    /// What the error says, in one line.
    pub fn message(&self) -> (text: &'static str)
        ensures
            text@ == self.message_text(),
    {
        match self {
            ParseError::UnknownKind => "cannot tell the kind of file",
            ParseError::UnsupportedKind => "unsupported statement format",
            ParseError::Unreadable => "cannot read the file",
            ParseError::MissingWorksheet => "the statement has no worksheet",
            ParseError::BrokenWorksheet => "cannot read the worksheet",
            ParseError::MissingHeader => "no list of transactions found",
            ParseError::MalformedCsv => "cannot parse the CSV records",
        }
    }
}

/// Whether `c` occurs in `s`.
pub fn has_char(s: &Vec<char>, c: char) -> (found: bool)
    ensures
        found == s@.contains(c),
{
    let mut i: usize = 0;
    while i < s.len()
        invariant
            i <= s.len(),
            forall|k: int| 0 <= k < i ==> s[k] != c,
        decreases s.len() - i,
    {
        if s[i] == c {
            return true;
        }
        i += 1;
    }
    false
}

/// The side of the ledger that `marker` names.
pub fn direction(marker: &str) -> (side: Option<Direction>)
    ensures
        side == direction_of(marker@),
{
    let chars = chars_of(marker);
    if has_char(&chars, '支') {
        Some(Direction::Expense)
    } else if has_char(&chars, '收') {
        Some(Direction::Income)
    } else {
        None
    }
}

/// Makes the ledger entry of one statement row from its fields, and says
/// on which side it falls; `None` where the row is to be skipped.
pub fn read_ledger_row(partner: &str, product: &str, marker: &str, amount: &str) -> (row: Option<
    (Direction, BillEntry),
>)
    ensures
        row is Some <==> ledger_row(partner@, product@, marker@, amount@) is Some,
        row matches Some((side, entry)) ==> ledger_row(partner@, product@, marker@, amount@)
            == Some((side, entry@)),
{
    if marker.unicode_len() == 0 || amount.unicode_len() == 0 {
        return None;
    }
    let parsed = match parse_amount(amount) {
        Some(a) => a,
        None => {
            return None;
        },
    };
    match direction(marker) {
        Some(side) => Some(
            (
                side,
                BillEntry {
                    partner: partner.to_owned(),
                    product: product.to_owned(),
                    amount: parsed,
                },
            ),
        ),
        None => None,
    }
}

/// The index of the last `c` in `s[..hi]`, or `None` when there is none.
fn find_last(s: &Vec<char>, hi: usize, c: char) -> (found: Option<usize>)
    requires
        hi <= s.len(),
    ensures
        match found {
            Some(i) => i < hi && i == last_index(s@.take(hi as int), c),
            None => last_index(s@.take(hi as int), c) == -1,
        },
{
    let mut i: usize = hi;
    while i > 0
        invariant
            i <= hi <= s.len(),
            last_index(s@.take(hi as int), c) == last_index(s@.take(i as int), c),
        decreases i,
    {
        proof {
            assert(s@.take(i as int).drop_last() == s@.take(i - 1));
        }
        if s[i - 1] == c {
            return Some(i - 1);
        }
        i -= 1;
    }
    None
}

/// Whether `s[lo..]` reads `word` when ASCII case is ignored.
fn tail_reads_as(s: &Vec<char>, lo: usize, word: &Vec<char>) -> (same: bool)
    requires
        lo <= s.len(),
    ensures
        same == reads_as(s@.skip(lo as int), word@),
{
    if s.len() - lo != word.len() {
        return false;
    }
    let ghost t = s@.skip(lo as int);
    let mut i: usize = 0;
    while i < word.len()
        invariant
            i <= word.len(),
            lo + word.len() == s.len(),
            t == s@.skip(lo as int),
            forall|k: int| 0 <= k < i ==> lowered(t[k]) == word[k] as u32,
        decreases word.len() - i,
    {
        let c = s[lo + i];
        let u: u32 = c as u32;
        let low: u32 = if 0x41 <= u && u <= 0x5A {
            u + 0x20
        } else {
            u
        };
        if low != word[i] as u32 {
            return false;
        }
        i += 1;
    }
    true
}

/// The strategy by which the file at `path` is to be read, told by its
/// extension.
pub fn parser_kind(path: &str) -> (kind: Result<ParserKind, ParseError>)
    ensures
        kind == kind_of(path@),
{
    let chars = chars_of(path);
    let n = chars.len();
    assert(chars@.take(n as int) == chars@);
    let start = match find_last(&chars, n, '/') {
        Some(i) => i + 1,
        None => 0,
    };
    let ghost name = file_name(path@);
    // The last point of the file name is the last point of the path, unless
    // that one stands before the file name.
    let dot = match find_last(&chars, n, '.') {
        Some(i) => i,
        None => {
            proof {
                lemma_last_index_skip(chars@, start as int, '.');
            }
            return Err(ParseError::UnknownKind);
        },
    };
    proof {
        lemma_last_index_skip(chars@, start as int, '.');
    }
    if dot <= start {
        return Err(ParseError::UnknownKind);
    }
    if n - start == 2 && chars[start] == '.' && chars[start + 1] == '.' {
        assert(name =~= seq!['.', '.']);
        return Err(ParseError::UnknownKind);
    }
    let xlsx: Vec<char> = vec!['x', 'l', 's', 'x'];
    let csv: Vec<char> = vec!['c', 's', 'v'];
    if tail_reads_as(&chars, dot + 1, &xlsx) {
        Ok(ParserKind::Spreadsheet)
    } else if tail_reads_as(&chars, dot + 1, &csv) {
        Ok(ParserKind::Csv)
    } else {
        Err(ParseError::UnsupportedKind)
    }
}

/// `last_index(s, c)` is -1 or an index of `s` that holds `c`, and no `c`
/// comes after it.
pub proof fn lemma_last_index(s: Seq<char>, c: char)
    ensures
        -1 <= last_index(s, c) < s.len(),
        last_index(s, c) >= 0 ==> s[last_index(s, c)] == c,
        forall|k: int| last_index(s, c) < k < s.len() ==> s[k] != c,
    decreases s.len(),
{
    if s.len() > 0 && s.last() != c {
        let head = s.drop_last();
        lemma_last_index(head, c);
        assert forall|k: int| last_index(s, c) < k < s.len() implies s[k] != c by {
            if k < head.len() {
                assert(s[k] == head[k]);
            }
        }
    }
}

/// The last `c` of `s.skip(from)` is the last `c` of `s`, unless that one
/// stands before `from`.
pub proof fn lemma_last_index_skip(s: Seq<char>, from: int, c: char)
    requires
        0 <= from <= s.len(),
    ensures
        last_index(s.skip(from), c) == if last_index(s, c) >= from {
            last_index(s, c) - from
        } else {
            -1
        },
    decreases s.len(),
{
    lemma_last_index(s, c);
    if from < s.len() {
        if s.last() != c {
            lemma_last_index_skip(s.drop_last(), from, c);
            assert(s.skip(from).drop_last() == s.drop_last().skip(from));
        }
    }
}

} // verus!
