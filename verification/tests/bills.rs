use jeek::amount::Amount;
use jeek::bills::{analyze_bill_file, has_path, BillState, IngestError};
use jeek::catalog::{catalog_of, lex_le_chars};
use jeek::ledger::{BillAggregate, BillEntry};
use jeek::source::{FileData, ParseError, SheetCell};

fn entry(partner: &str, product: &str, hundredths: u64) -> BillEntry {
    BillEntry {
        partner: partner.to_string(),
        product: product.to_string(),
        amount: Amount::new(hundredths).unwrap(),
    }
}

fn paths(list: &[&str]) -> Vec<String> {
    list.iter().map(|p| p.to_string()).collect()
}

fn chars(s: &str) -> Vec<char> {
    s.chars().collect()
}

fn csv(rows: &str) -> FileData {
    FileData::Text(format!("交易时间,交易分类,交易对方,对方账号,商品说明,收/支,金额\n{}", rows))
}

fn sheet(partner: &str, marker: &str, amount: &str) -> FileData {
    let cell = |s: &str| SheetCell::Text(s.to_string());
    FileData::Sheet(vec![
        vec![cell("交易时间")],
        vec![cell("t"), cell("k"), cell(partner), cell("thing"), cell(marker), cell(amount)],
    ])
}

#[test]
fn lex_le_orders_by_code_point() {
    assert!(lex_le_chars(&chars(""), &chars("")));
    assert!(lex_le_chars(&chars(""), &chars("a")));
    assert!(!lex_le_chars(&chars("a"), &chars("")));
    assert!(lex_le_chars(&chars("a"), &chars("a")));
    assert!(lex_le_chars(&chars("a"), &chars("ab")));
    assert!(!lex_le_chars(&chars("ab"), &chars("a")));
    assert!(lex_le_chars(&chars("B"), &chars("a")));
    assert!(lex_le_chars(&chars("a.b"), &chars("a/b")));
    assert!(lex_le_chars(&chars("z"), &chars("账单")));
    assert!(!lex_le_chars(&chars("b"), &chars("a")));
}

#[test]
fn catalog_keeps_statement_files_sorted() {
    let listing = paths(&[
        "tmp/wallet_02.xlsx",
        "tmp/readme.md",
        "tmp/bank_2024.csv",
        "tmp/notes",
        "tmp/Wallet_01.XLSX",
        "tmp/.csv",
        "tmp/bank_2023.CSV",
    ]);
    assert_eq!(
        catalog_of(&listing),
        paths(&["tmp/Wallet_01.XLSX", "tmp/bank_2023.CSV", "tmp/bank_2024.csv", "tmp/wallet_02.xlsx"])
    );
    assert!(catalog_of(&Vec::new()).is_empty());
    assert_eq!(catalog_of(&paths(&["b.csv", "a.csv", "b.csv"])), paths(&["a.csv", "b.csv", "b.csv"]));
}

#[test]
fn analyze_bill_file_picks_the_strategy() {
    let text = csv("t,k,Alice,acc,Coffee,支出,12.50\n");
    let expected = BillAggregate::from_entries(vec![entry("Alice", "Coffee", 1250)], Vec::new());
    assert_eq!(analyze_bill_file("tmp/bank.CSV", &text), Ok(expected));
    let expected = BillAggregate::from_entries(Vec::new(), vec![entry("Bob", "thing", 200)]);
    assert_eq!(analyze_bill_file("tmp/w.xlsx", &sheet("Bob", "收入", "2")), Ok(expected));
    assert_eq!(analyze_bill_file("tmp/bank.csv", &sheet("Bob", "收入", "2")), Err(ParseError::Unreadable));
    assert_eq!(analyze_bill_file("tmp/w.xlsx", &text), Err(ParseError::Unreadable));
    assert_eq!(analyze_bill_file("tmp/bank", &text), Err(ParseError::UnknownKind));
    assert_eq!(analyze_bill_file("tmp/bank.txt", &text), Err(ParseError::UnsupportedKind));
}

#[test]
fn has_path_finds_whole_paths() {
    let list = paths(&["a.csv", "b.csv"]);
    assert!(has_path(&list, &"b.csv".to_string()));
    assert!(!has_path(&list, &"b.cs".to_string()));
    assert!(!has_path(&Vec::new(), &"".to_string()));
}

#[test]
fn a_new_session_is_empty() {
    let state = BillState::new("tmp");
    assert_eq!(state.bill_dir(), "tmp");
    assert!(state.files().is_empty());
    assert!(state.processed().is_empty());
    assert!(state.aggregate().is_empty());
    assert_eq!(state.pending_count(), 0);
    assert!(state.export_reports().is_empty());
}

#[test]
fn refresh_replaces_the_catalog_only() {
    let mut state = BillState::new("tmp");
    state.refresh_files(&paths(&["tmp/b.csv", "tmp/a.xlsx", "tmp/c.txt"]));
    assert_eq!(state.files(), &paths(&["tmp/a.xlsx", "tmp/b.csv"]));
    assert_eq!(state.pending_count(), 2);
    state.refresh_files(&paths(&["tmp/z.csv"]));
    assert_eq!(state.files(), &paths(&["tmp/z.csv"]));
    assert!(state.processed().is_empty());
    assert_eq!(state.bill_dir(), "tmp");
}

#[test]
fn ingest_takes_pending_files_in_catalog_order() {
    let mut state = BillState::new("tmp");
    state.refresh_files(&paths(&["tmp/b.xlsx", "tmp/a.csv"]));
    let loaded = vec![csv("t,k,Alice,acc,Coffee,支出,12.50\n"), sheet("Bob", "收入", "50")];
    assert_eq!(state.analyze_pending(&loaded), Ok(2));
    assert_eq!(state.processed(), &paths(&["tmp/a.csv", "tmp/b.xlsx"]));
    assert_eq!(state.aggregate().expenses, vec![entry("Alice", "Coffee", 1250)]);
    assert_eq!(state.aggregate().incomes, vec![entry("Bob", "thing", 5000)]);
    assert_eq!(state.pending_count(), 0);
    assert_eq!(state.aggregate().net(), 3750);
}

#[test]
fn ingesting_the_same_path_twice_changes_nothing() {
    let mut state = BillState::new("tmp");
    state.refresh_files(&paths(&["tmp/a.csv"]));
    let loaded = vec![csv("t,k,Alice,acc,Coffee,支出,12.50\n")];
    assert_eq!(state.analyze_pending(&loaded), Ok(1));
    let before = state.aggregate().clone();
    assert_eq!(state.analyze_pending(&loaded), Err(IngestError::NothingPending));
    assert_eq!(state.aggregate(), &before);
    assert_eq!(state.processed(), &paths(&["tmp/a.csv"]));
    // The file is known by its path: other content under the same path is
    // not read, and a refresh does not make it pending again.
    let changed = vec![csv("t,k,Zed,acc,Car,支出,99999.00\n")];
    state.refresh_files(&paths(&["tmp/a.csv"]));
    assert_eq!(state.analyze_pending(&changed), Err(IngestError::NothingPending));
    assert_eq!(state.aggregate(), &before);
    assert_eq!(state.analyze_pending(&vec![FileData::Unreadable]), Err(IngestError::NothingPending));
}

#[test]
fn ingest_with_an_empty_catalog_has_nothing_pending() {
    let mut state = BillState::new("tmp");
    assert_eq!(state.analyze_pending(&Vec::new()), Err(IngestError::NothingPending));
    assert!(state.aggregate().is_empty());
}

#[test]
fn ingest_stops_at_the_first_failure_and_keeps_what_came_before() {
    let mut state = BillState::new("tmp");
    state.refresh_files(&paths(&["tmp/2.csv", "tmp/1.csv"]));
    let loaded = vec![csv("t,k,Alice,acc,Coffee,支出,12.50\n"), FileData::Text("no table here".to_string())];
    assert_eq!(
        state.analyze_pending(&loaded),
        Err(IngestError::Failed(ParseError::MissingHeader))
    );
    assert_eq!(state.aggregate().expenses, vec![entry("Alice", "Coffee", 1250)]);
    assert_eq!(state.processed(), &paths(&["tmp/1.csv"]));
    assert!(has_path(state.processed(), &"tmp/1.csv".to_string()));
    assert_eq!(state.pending_count(), 1);
}

#[test]
fn ingest_does_not_look_past_a_failure() {
    let mut state = BillState::new("tmp");
    state.refresh_files(&paths(&["tmp/1.csv", "tmp/2.xlsx", "tmp/3.csv"]));
    let loaded = vec![
        csv("t,k,Alice,acc,Coffee,支出,12.50\n"),
        FileData::NoWorksheet,
        csv("t,k,Bob,acc,Tea,支出,1.00\n"),
    ];
    assert_eq!(
        state.analyze_pending(&loaded),
        Err(IngestError::Failed(ParseError::MissingWorksheet))
    );
    assert_eq!(state.processed(), &paths(&["tmp/1.csv"]));
    assert_eq!(state.aggregate().expenses, vec![entry("Alice", "Coffee", 1250)]);
    // Once the broken file is replaced, the run goes on where it stopped.
    let loaded = vec![FileData::Unreadable, sheet("Eve", "收入", "3"), csv("t,k,Bob,acc,Tea,支出,1.00\n")];
    assert_eq!(state.analyze_pending(&loaded), Ok(2));
    assert_eq!(state.processed(), &paths(&["tmp/1.csv", "tmp/2.xlsx", "tmp/3.csv"]));
    assert_eq!(
        state.aggregate().expenses,
        vec![entry("Alice", "Coffee", 1250), entry("Bob", "Tea", 100)]
    );
    assert_eq!(state.aggregate().incomes, vec![entry("Eve", "thing", 300)]);
}

#[test]
fn a_statement_of_short_records_is_taken_in_without_entries() {
    let mut state = BillState::new("tmp");
    state.refresh_files(&paths(&["tmp/a.csv"]));
    assert_eq!(state.analyze_pending(&vec![csv("only,three,fields\n")]), Ok(1));
    assert!(state.aggregate().is_empty());
    assert_eq!(state.processed(), &paths(&["tmp/a.csv"]));
}

#[test]
fn each_failure_is_reported_as_itself() {
    let cases = vec![
        ("tmp/a.csv", FileData::Unreadable, ParseError::Unreadable),
        ("tmp/a.xlsx", FileData::Unreadable, ParseError::Unreadable),
        ("tmp/a.xlsx", FileData::NoWorksheet, ParseError::MissingWorksheet),
        ("tmp/a.xlsx", FileData::BrokenWorksheet, ParseError::BrokenWorksheet),
        ("tmp/a.xlsx", FileData::Sheet(Vec::new()), ParseError::MissingHeader),
        ("tmp/a.csv", FileData::Text("x".to_string()), ParseError::MissingHeader),
    ];
    for (path, data, error) in cases {
        let mut state = BillState::new("tmp");
        state.refresh_files(&paths(&[path]));
        assert_eq!(state.analyze_pending(&vec![data]), Err(IngestError::Failed(error)));
        assert!(state.processed().is_empty());
        assert!(state.aggregate().is_empty());
        assert_eq!(state.pending_count(), 1);
    }
}

#[test]
fn a_path_listed_twice_is_taken_in_once() {
    let mut state = BillState::new("tmp");
    state.refresh_files(&paths(&["tmp/a.csv", "tmp/a.csv"]));
    assert_eq!(state.pending_count(), 2);
    let one = csv("t,k,Alice,acc,Coffee,支出,12.50\n");
    assert_eq!(state.analyze_pending(&vec![one.clone(), one]), Ok(1));
    assert_eq!(state.processed(), &paths(&["tmp/a.csv"]));
    assert_eq!(state.aggregate().expenses.len(), 1);
    assert_eq!(state.pending_count(), 0);
}

#[test]
fn pending_count_is_catalog_less_processed() {
    let mut state = BillState::new("tmp");
    state.refresh_files(&paths(&["tmp/a.csv", "tmp/b.csv", "tmp/c.csv"]));
    assert_eq!(state.pending_count(), 3);
    let loaded = vec![csv(""), FileData::Unreadable, csv("")];
    assert!(state.analyze_pending(&loaded).is_err());
    assert_eq!(state.pending_count(), state.files().len() - state.processed().len());
    assert_eq!(state.pending_count(), 2);
    // A processed file that left the directory is not counted against the
    // catalog.
    state.refresh_files(&paths(&["tmp/b.csv"]));
    assert_eq!(state.pending_count(), 1);
}

#[test]
fn export_writes_nothing_for_an_empty_aggregate() {
    let mut state = BillState::new("tmp");
    state.refresh_files(&paths(&["tmp/a.csv"]));
    assert_eq!(state.analyze_pending(&vec![csv("")]), Ok(1));
    assert!(state.aggregate().is_empty());
    assert!(state.export_reports().is_empty());
}

#[test]
fn export_writes_one_summary() {
    let mut state = BillState::new("tmp");
    state.refresh_files(&paths(&["tmp/a.csv"]));
    let loaded = vec![csv("t,k,Bob,acc,Refund,收入,50.00\nt,k,Alice,acc,Coffee,支出,20.00\n")];
    assert_eq!(state.analyze_pending(&loaded), Ok(1));
    let reports = state.export_reports();
    assert_eq!(reports.len(), 1);
    assert_eq!(reports[0].name, "bill_summary.md");
    assert_eq!(reports[0].content, state.aggregate().to_markdown());
    assert_eq!(reports[0].content.lines().last(), Some("net income: 30.00"));
    assert!(reports[0].content.contains("| Alice | Coffee | 20.00 |\n"));
    assert!(reports[0].content.contains("| Bob | Refund | 50.00 |\n"));
}

#[test]
fn status_lines_sum_the_session_up() {
    let mut state = BillState::new("tmp");
    state.refresh_files(&paths(&["tmp/a.csv", "tmp/b.csv"]));
    assert_eq!(
        state.status_lines(),
        paths(&["statement directory: tmp", "pending statements: 2", "analyzed statements: 0"])
    );
    assert_eq!(state.pending_line(), "pending statements: 2");
    let loaded = vec![csv("t,k,Alice,acc,Coffee,支出,20.00\n"), FileData::Unreadable];
    assert!(state.analyze_pending(&loaded).is_err());
    assert_eq!(
        state.status_lines(),
        paths(&[
            "statement directory: tmp",
            "pending statements: 1",
            "analyzed statements: 1",
            "net expense: 20.00",
        ])
    );
}
