use jeek::amount::Amount;
use jeek::ledger::{BillAggregate, BillEntry};

fn entry(partner: &str, product: &str, hundredths: u64) -> BillEntry {
    BillEntry {
        partner: partner.to_string(),
        product: product.to_string(),
        amount: Amount::new(hundredths).unwrap(),
    }
}

#[test]
fn aggregate_starts_empty() {
    let a = BillAggregate::default();
    assert!(a.is_empty());
    assert_eq!(a.total_income(), 0);
    assert_eq!(a.total_expense(), 0);
    assert_eq!(a.net(), 0);
}

#[test]
fn from_entries_keeps_the_sides_apart() {
    let a = BillAggregate::from_entries(vec![entry("shop", "tea", 300)], vec![entry("job", "pay", 900)]);
    assert_eq!(a.expenses, vec![entry("shop", "tea", 300)]);
    assert_eq!(a.incomes, vec![entry("job", "pay", 900)]);
    assert!(!a.is_empty());
}

#[test]
fn totals_are_sums_and_net_is_their_difference() {
    let a = BillAggregate::from_entries(
        vec![entry("a", "x", 1999), entry("b", "y", 1), entry("c", "z", 12345)],
        vec![entry("d", "w", 5000), entry("e", "v", 70)],
    );
    assert_eq!(a.total_expense(), 1999 + 1 + 12345);
    assert_eq!(a.total_income(), 5070);
    assert_eq!(a.net(), 5070 - 14345);
    assert_eq!(a.net(), a.total_income() as i128 - a.total_expense() as i128);
}

#[test]
fn totals_do_not_drift() {
    let tenth = (0..1000).map(|_| entry("p", "q", 10)).collect();
    let a = BillAggregate::from_entries(Vec::new(), tenth);
    assert_eq!(a.total_income(), 10_000);
    assert_eq!(a.net_line(), "net income: 100.00");
}

#[test]
fn totals_hold_the_largest_amounts() {
    let big = jeek::amount::MAX_HUNDREDTHS;
    let a = BillAggregate::from_entries(
        vec![entry("a", "x", big), entry("a", "x", big), entry("a", "x", big)],
        vec![entry("b", "y", big)],
    );
    assert_eq!(a.total_expense(), 3 * big as u128);
    assert_eq!(a.total_income(), big as u128);
    assert_eq!(a.net(), -2 * big as i128);
    assert_eq!(a.net_line(), "net expense: 20000000000000000.00");
}

#[test]
fn extend_appends_in_order() {
    let mut a = BillAggregate::from_entries(vec![entry("a", "1", 100)], vec![entry("b", "2", 200)]);
    let b = BillAggregate::from_entries(vec![entry("c", "3", 300)], vec![entry("d", "4", 400)]);
    a.extend(b);
    assert_eq!(a.expenses, vec![entry("a", "1", 100), entry("c", "3", 300)]);
    assert_eq!(a.incomes, vec![entry("b", "2", 200), entry("d", "4", 400)]);
    assert_eq!(a.net(), 600 - 400);
}

#[test]
fn net_line_names_the_side_that_is_ahead() {
    let ahead = BillAggregate::from_entries(vec![entry("a", "x", 2000)], vec![entry("b", "y", 5000)]);
    assert_eq!(ahead.net_line(), "net income: 30.00");
    let behind = BillAggregate::from_entries(vec![entry("a", "x", 5000)], vec![entry("b", "y", 2000)]);
    assert_eq!(behind.net_line(), "net expense: 30.00");
    let even = BillAggregate::from_entries(vec![entry("a", "x", 5000)], vec![entry("b", "y", 5000)]);
    assert_eq!(even.net_line(), "net income: 0.00");
}

#[test]
fn export_of_one_income_and_one_expense() {
    let a = BillAggregate::from_entries(
        vec![entry("Alice", "Coffee", 2000)],
        vec![entry("Bob", "Refund", 5000)],
    );
    let doc = a.to_markdown();
    assert_eq!(doc.lines().last(), Some("net income: 30.00"));
    assert_eq!(
        doc,
        "# Bill analysis\n\n\
         ## Expenses\n\
         | Counterparty | Description | Amount |\n\
         |--------------|-------------|--------|\n\
         | Alice | Coffee | 20.00 |\n\
         \n\
         total expense: 20.00\n\
         \n\
         ## Income\n\
         | Counterparty | Description | Amount |\n\
         |--------------|-------------|--------|\n\
         | Bob | Refund | 50.00 |\n\
         \n\
         total income: 50.00\n\
         \n\
         net income: 30.00\n"
    );
}

#[test]
fn markdown_says_when_a_side_has_no_records() {
    let a = BillAggregate::from_entries(vec![entry("shop", "tea", 350), entry("bar", "", 1000)], Vec::new());
    assert_eq!(
        a.to_markdown(),
        "# Bill analysis\n\n\
         ## Expenses\n\
         | Counterparty | Description | Amount |\n\
         |--------------|-------------|--------|\n\
         | shop | tea | 3.50 |\n\
         | bar |  | 10.00 |\n\
         \n\
         total expense: 13.50\n\
         \n\
         ## Income\n\
         No income records.\n\
         net expense: 13.50\n"
    );
    assert_eq!(
        BillAggregate::default().to_markdown(),
        "# Bill analysis\n\n## Expenses\nNo expense records.\n## Income\nNo income records.\nnet income: 0.00\n"
    );
}
