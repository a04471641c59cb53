use jeek::amount::Amount;
use jeek::ledger::{BillAggregate, BillEntry, Direction};
use jeek::source::{FileData, ParseError, SheetCell};
use jeek::wechat::{cell_to_string, parse_sheet_rows, parse_wechat_bill, read_sheet_row};

fn entry(partner: &str, product: &str, hundredths: u64) -> BillEntry {
    BillEntry {
        partner: partner.to_string(),
        product: product.to_string(),
        amount: Amount::new(hundredths).unwrap(),
    }
}

fn text(s: &str) -> SheetCell {
    SheetCell::Text(s.to_string())
}

fn texts(cells: &[&str]) -> Vec<SheetCell> {
    cells.iter().map(|c| text(c)).collect()
}

fn header() -> Vec<SheetCell> {
    texts(&["交易时间", "交易类型", "交易对方", "商品", "收/支", "金额(元)", "支付方式"])
}

#[test]
fn cell_to_string_shows_each_kind() {
    assert_eq!(cell_to_string(&text("abc")), "abc");
    assert_eq!(cell_to_string(&SheetCell::Int(42)), "42");
    assert_eq!(cell_to_string(&SheetCell::Int(0)), "0");
    assert_eq!(cell_to_string(&SheetCell::Int(-7)), "-7");
    assert_eq!(cell_to_string(&SheetCell::Int(i64::MIN)), "-9223372036854775808");
    assert_eq!(cell_to_string(&SheetCell::Int(i64::MAX)), "9223372036854775807");
    assert_eq!(cell_to_string(&SheetCell::Bool(true)), "true");
    assert_eq!(cell_to_string(&SheetCell::Bool(false)), "false");
    assert_eq!(cell_to_string(&SheetCell::Empty), "");
    assert_eq!(cell_to_string(&SheetCell::Other), "");
}

#[test]
fn sheet_row_reads_the_fixed_columns() {
    let row = texts(&["2024-01-01 10:00:00", "商户消费", "Shop", "Tea", "支出", "¥1,234.56", "零钱"]);
    assert_eq!(read_sheet_row(&row), Some((Direction::Expense, entry("Shop", "Tea", 123456))));
}

#[test]
fn sheet_row_takes_number_cells() {
    let row = vec![
        text("2024-01-01"),
        text("转账"),
        text("Bob"),
        SheetCell::Empty,
        text("收入"),
        SheetCell::Int(25),
    ];
    assert_eq!(read_sheet_row(&row), Some((Direction::Income, entry("Bob", "", 2500))));
    let row = vec![text("t"), text("k"), text("Bob"), text("x"), text("收入"), text("25.50")];
    assert_eq!(read_sheet_row(&row), Some((Direction::Income, entry("Bob", "x", 2550))));
}

#[test]
fn sheet_row_is_skipped_when_blank_or_short() {
    assert_eq!(read_sheet_row(&Vec::new()), None);
    assert_eq!(read_sheet_row(&vec![SheetCell::Empty, SheetCell::Empty]), None);
    assert_eq!(read_sheet_row(&texts(&["t", "k", "Bob", "x", "收入"])), None);
    assert_eq!(read_sheet_row(&texts(&["t", "k", "Bob", "x"])), None);
}

#[test]
fn sheet_row_is_not_trimmed() {
    let row = texts(&["t", "k", " Bob ", " x", " 支出 ", " 5 "]);
    assert_eq!(read_sheet_row(&row), Some((Direction::Expense, entry(" Bob ", " x", 500))));
    let row = texts(&["t", "k", "Bob", "x", " ", "5"]);
    assert_eq!(read_sheet_row(&row), None);
    let row = vec![text("t"), text("k"), text("Bob"), text("x"), text("支出"), SheetCell::Int(-5)];
    assert_eq!(read_sheet_row(&row), None);
}

#[test]
fn sheet_rows_below_the_header_make_the_entries() {
    let rows = vec![
        texts(&["微信支付账单明细"]),
        Vec::new(),
        texts(&["支出", "x", "early", "row", "支出", "9.99"]),
        header(),
        texts(&["2024-01-01", "消费", "Shop", "Tea", "支出", "¥12.00", "零钱"]),
        vec![SheetCell::Empty, SheetCell::Empty, SheetCell::Empty],
        texts(&["2024-01-02", "转账", "Bob", "Loan", "收入", "¥100.00", "零钱"]),
        texts(&["2024-01-03", "消费", "Bar", "Beer", "支出", "n/a", "零钱"]),
        texts(&["2024-01-04", "转账", "Eve", "Move", "/", "¥5.00", "零钱"]),
        texts(&["2024-01-05", "消费", "Cafe", "Cake", "支出", "¥8.50", "零钱"]),
    ];
    let expected = BillAggregate::from_entries(
        vec![entry("Shop", "Tea", 1200), entry("Cafe", "Cake", 850)],
        vec![entry("Bob", "Loan", 10000)],
    );
    assert_eq!(parse_sheet_rows(&rows), Ok(expected.clone()));
    assert_eq!(parse_wechat_bill(&FileData::Sheet(rows)), Ok(expected));
}

#[test]
fn the_first_header_row_counts() {
    let rows = vec![
        texts(&["  交易时间\t", "x"]),
        texts(&["a", "b", "P", "Q", "支出", "1"]),
        header(),
        texts(&["a", "b", "R", "S", "收入", "2"]),
    ];
    let got = parse_sheet_rows(&rows).unwrap();
    assert_eq!(got.expenses, vec![entry("P", "Q", 100)]);
    assert_eq!(got.incomes, vec![entry("R", "S", 200)]);
}

#[test]
fn a_header_as_last_row_gives_no_entries() {
    assert_eq!(parse_sheet_rows(&vec![header()]), Ok(BillAggregate::default()));
}

#[test]
fn a_sheet_without_header_fails() {
    let rows = vec![
        texts(&["交易时间:", "x"]),
        texts(&["a", "交易时间"]),
        Vec::new(),
        vec![SheetCell::Empty],
    ];
    assert_eq!(parse_sheet_rows(&rows), Err(ParseError::MissingHeader));
    assert_eq!(parse_sheet_rows(&Vec::new()), Err(ParseError::MissingHeader));
}

#[test]
fn workbook_failures_are_told_apart() {
    assert_eq!(parse_wechat_bill(&FileData::Unreadable), Err(ParseError::Unreadable));
    assert_eq!(parse_wechat_bill(&FileData::NoWorksheet), Err(ParseError::MissingWorksheet));
    assert_eq!(parse_wechat_bill(&FileData::BrokenWorksheet), Err(ParseError::BrokenWorksheet));
    assert_eq!(
        parse_wechat_bill(&FileData::Text("交易时间,".to_string())),
        Err(ParseError::Unreadable)
    );
}
