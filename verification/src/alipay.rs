//! The comma-separated strategy: a bank statement as text, as Alipay
//! exports it.
//!
//! The statement opens with free-form lines. The table of transactions
//! starts at the first `交易时间,`, which opens its header line; from there
//! on the text is comma-separated records. The counterparty, the
//! description, the flow marker and the amount are the third, fifth, sixth
//! and seventh field of a record; a record with fewer fields is passed over,
//! whatever the number of fields of the header.

use crate::ledger::{AggregateView, BillAggregate, BillEntry, Direction, EntryView};
use crate::source::{ledger_row, read_ledger_row, FileData, FileDataView, ParseError};
use crate::text::{
    chars_of, copy_range, range_is, rows_view, string_of, strings_view, trimmed, trimmed_string,
};
use crate::wechat::{add_entry, outcome_view};
use vstd::prelude::*;

verus! {

/// A record with fewer fields than this is skipped.
pub const MIN_FIELDS: usize = 7;

/// The field of the counterparty.
pub const PARTNER_FIELD: usize = 2;

/// The field of the description.
pub const PRODUCT_FIELD: usize = 4;

/// The field of the flow marker.
pub const FLOW_FIELD: usize = 5;

/// The field of the amount.
pub const AMOUNT_FIELD: usize = 6;

/// The text that opens the header line of the table.
pub open spec fn header_prefix() -> Seq<char> {
    "交易时间,"@
}

/// `s` without the byte-order mark that it may start with.
pub open spec fn without_mark(s: Seq<char>) -> Seq<char> {
    if s.len() > 0 && s[0] == '\u{feff}' {
        s.skip(1)
    } else {
        s
    }
}

/// `word` stands in `s` at index `i`.
pub open spec fn occurs_at(s: Seq<char>, word: Seq<char>, i: int) -> bool {
    0 <= i <= s.len() - word.len() && s.subrange(i, i + word.len()) == word
}

/// `i` is the index of the first occurrence of `word` in `s`.
pub open spec fn first_at(s: Seq<char>, word: Seq<char>, i: int) -> bool {
    occurs_at(s, word, i) && forall|k: int| 0 <= k < i ==> !occurs_at(s, word, k)
}

/// The records that the `csv` crate reads from `data` when the first record
/// is taken as the header and left out, and a record may have another number
/// of fields than the header: the fields of each record after the header, or
/// `None` when the reader reports an error at any record.
pub uninterp spec fn csv_records(data: Seq<char>) -> Option<Seq<Seq<Seq<char>>>>;

/// The entry that a record makes, if any. A record of fewer than
/// `MIN_FIELDS` fields makes none; the fields of any other are trimmed first.
pub open spec fn csv_row(record: Seq<Seq<char>>) -> Option<(Direction, EntryView)> {
    if record.len() < MIN_FIELDS {
        None
    } else {
        ledger_row(
            trimmed(record[PARTNER_FIELD as int]),
            trimmed(record[PRODUCT_FIELD as int]),
            trimmed(record[FLOW_FIELD as int]),
            trimmed(record[AMOUNT_FIELD as int]),
        )
    }
}

/// The entries that `records` make, each on its side, in the order of the
/// records.
pub open spec fn csv_entries(records: Seq<Seq<Seq<char>>>) -> AggregateView
    decreases records.len(),
{
    if records.len() == 0 {
        AggregateView::empty()
    } else {
        let before = csv_entries(records.drop_last());
        match csv_row(records.last()) {
            Some((side, entry)) => before.with_entry(side, entry),
            None => before,
        }
    }
}

/// What the text of a statement gives: `MissingHeader` when the header
/// prefix does not occur in it, `MalformedCsv` when the reader reports an
/// error on the text from the first occurrence on, and else the entries of
/// the records.
pub open spec fn csv_result(content: Seq<char>) -> Result<AggregateView, ParseError> {
    let text = without_mark(content);
    if exists|i: int| first_at(text, header_prefix(), i) {
        let i = choose|i: int| first_at(text, header_prefix(), i);
        match csv_records(text.skip(i)) {
            Some(records) => Ok(csv_entries(records)),
            None => Err(ParseError::MalformedCsv),
        }
    } else {
        Err(ParseError::MissingHeader)
    }
}

/// What a file gives when it is read as a comma-separated bank statement.
pub open spec fn alipay_result(data: FileDataView) -> Result<AggregateView, ParseError> {
    match data {
        FileDataView::Text(content) => csv_result(content),
        _ => Err(ParseError::Unreadable),
    }
}

/// `csv::Error`, the error of the `csv` reader, carried through as an
/// opaque value.
#[verifier::external_type_specification]
#[verifier::external_body]
pub struct ExCsvError(csv::Error);

/// `csv::ReaderBuilder::new`, `has_headers(true)`, `flexible(true)` and
/// `from_reader` over the bytes of `data`, then `Reader::records` read to its
/// end or to its first error. Claimed: what comes out depends on `data`
/// alone, so it is `csv_records(data)`; the rows returned are the records in
/// the order in which the reader yields them, each with its fields in order,
/// and an error at any record gives `Err` and no rows.
#[verifier::external_body]
fn read_records(data: &str) -> (result: Result<Vec<Vec<String>>, csv::Error>)
    ensures
        match result {
            Ok(rows) => csv_records(data@) == Some(rows_view(rows@)),
            Err(_) => csv_records(data@) is None,
        },
{
    let mut reader = csv::ReaderBuilder::new()
        .has_headers(true)
        .flexible(true)
        .from_reader(data.as_bytes());
    let mut rows = Vec::new();
    for record in reader.records() {
        rows.push(record?.iter().map(String::from).collect());
    }
    Ok(rows)
}

/// The entry that a record makes, if any.
pub fn read_csv_row(record: &Vec<String>) -> (entry: Option<(Direction, BillEntry)>)
    ensures
        entry is Some <==> csv_row(strings_view(record@)) is Some,
        entry matches Some((side, e)) ==> csv_row(strings_view(record@)) == Some(
            (side, e@),
        ),
{
    if record.len() < MIN_FIELDS {
        return None;
    }
    let flow = trimmed_string(record[FLOW_FIELD].as_str());
    let amount = trimmed_string(record[AMOUNT_FIELD].as_str());
    let partner = trimmed_string(record[PARTNER_FIELD].as_str());
    let product = trimmed_string(record[PRODUCT_FIELD].as_str());
    read_ledger_row(partner.as_str(), product.as_str(), flow.as_str(), amount.as_str())
}

/// The entries that the records of a statement make.
pub fn alipay_entries(records: &Vec<Vec<String>>) -> (aggregate: BillAggregate)
    ensures
        aggregate@ == csv_entries(rows_view(records@)),
{
    let ghost all = rows_view(records@);
    let mut aggregate = BillAggregate::default();
    let mut i: usize = 0;
    while i < records.len()
        invariant
            i <= records.len(),
            all == rows_view(records@),
            aggregate@ == csv_entries(all.take(i as int)),
        decreases records.len() - i,
    {
        proof {
            assert(all.take(i + 1).drop_last() == all.take(i as int));
        }
        match read_csv_row(&records[i]) {
            Some((side, entry)) => {
                add_entry(&mut aggregate, side, entry);
            },
            None => {},
        }
        i += 1;
    }
    assert(all.take(records.len() as int) == all);
    aggregate
}

/// The index of the first occurrence of `word` in `s[from..]`, counted from
/// `from`.
pub fn find_first(s: &Vec<char>, from: usize, word: &Vec<char>) -> (found: Option<usize>)
    requires
        from <= s.len(),
    ensures
        match found {
            Some(i) => first_at(s@.skip(from as int), word@, i as int),
            None => forall|i: int| !occurs_at(s@.skip(from as int), word@, i),
        },
{
    let ghost t = s@.skip(from as int);
    let n = s.len() - from;
    if word.len() > n {
        return None;
    }
    let last = n - word.len();
    let mut i: usize = 0;
    loop
        invariant
            i <= last,
            last + word.len() == n,
            n + from == s.len(),
            t == s@.skip(from as int),
            forall|k: int| 0 <= k < i ==> !occurs_at(t, word@, k),
        decreases last - i,
    {
        assert(t.subrange(i as int, i + word.len()) == s@.subrange(
            from + i,
            from + i + word.len(),
        ));
        if range_is(s, from + i, from + i + word.len(), word) {
            return Some(i);
        }
        if i == last {
            return None;
        }
        i += 1;
    }
}

/// What the outcome of the reader gives: the entries that its records
/// make, or `MalformedCsv` when it reported an error.
pub fn records_outcome(records: Result<Vec<Vec<String>>, csv::Error>) -> (result: Result<
    BillAggregate,
    ParseError,
>)
    ensures
        outcome_view(result) == match records {
            Ok(rows) => Ok(csv_entries(rows_view(rows@))),
            Err(_) => Err(ParseError::MalformedCsv),
        },
{
    match records {
        Ok(rows) => Ok(alipay_entries(&rows)),
        Err(_) => Err(ParseError::MalformedCsv),
    }
}

/// Reads a bank statement from its text.
///
/// A byte-order mark at the start is dropped. The records start at the
/// first `交易时间,`; the record that starts there is the header and makes no
/// entry, and a record of fewer than `MIN_FIELDS` fields is passed over. A
/// text without that prefix fails as a whole, and so does one of which the
/// reader reports an error.
pub fn parse_csv_text(content: &str) -> (result: Result<BillAggregate, ParseError>)
    ensures
        outcome_view(result) == csv_result(content@),
{
    let chars = chars_of(content);
    let from: usize = if chars.len() > 0 && chars[0] == '\u{feff}' {
        1
    } else {
        0
    };
    let ghost text = without_mark(content@);
    assert(text == chars@.skip(from as int));
    let word = chars_of("交易时间,");
    let start = match find_first(&chars, from, &word) {
        Some(i) => i,
        None => {
            return Err(ParseError::MissingHeader);
        },
    };
    proof {
        assert(text.skip(start as int) == chars@.subrange(from + start, chars.len() as int));
    }
    let data = string_of(copy_range(&chars, from + start, chars.len()));
    records_outcome(read_records(data.as_str()))
}

/// Reads a bank statement from what was read of a file.
pub fn parse_alipay_bill(data: &FileData) -> (result: Result<BillAggregate, ParseError>)
    ensures
        outcome_view(result) == alipay_result(data@),
{
    match data {
        FileData::Text(content) => parse_csv_text(content.as_str()),
        _ => Err(ParseError::Unreadable),
    }
}

} // verus!
