//! Ledger entries, the running aggregate of incomes and expenses, and the
//! report written from it.

use crate::amount::{distance, format_magnitude, magnitude_text, Amount, MAX_HUNDREDTHS};
use vstd::prelude::*;
use vstd::string::StringExecFns;

verus! {

/// One transaction: who it was with, what it was for, and how much.
#[derive(Debug, Clone, PartialEq, Eq)]
pub struct BillEntry {
    pub partner: String,
    pub product: String,
    pub amount: Amount,
}

/// What a [`BillEntry`] stands for: two texts and a number of hundredths,
/// which is never negative.
pub struct EntryView {
    pub partner: Seq<char>,
    pub product: Seq<char>,
    pub amount: nat,
}

impl View for BillEntry {
    type V = EntryView;

    open spec fn view(&self) -> EntryView {
        EntryView { partner: self.partner@, product: self.product@, amount: self.amount@ }
    }
}

/// The side of the ledger a transaction falls on.
#[derive(Debug, Clone, Copy, PartialEq, Eq, Structural)]
pub enum Direction {
    Income,
    Expense,
}

/// The views of a vector of entries.
pub open spec fn entries_view(v: Seq<BillEntry>) -> Seq<EntryView> {
    Seq::new(v.len(), |i: int| v[i]@)
}

/// The sum of the amounts of `entries`, in hundredths.
pub open spec fn sum_amounts(entries: Seq<EntryView>) -> nat
    decreases entries.len(),
{
    if entries.len() == 0 {
        0
    } else {
        sum_amounts(entries.drop_last()) + entries.last().amount
    }
}

/// The sum over a concatenation is the sum of the sums.
pub proof fn lemma_sum_amounts_add(a: Seq<EntryView>, b: Seq<EntryView>)
    ensures
        sum_amounts(a + b) == sum_amounts(a) + sum_amounts(b),
    decreases b.len(),
{
    if b.len() > 0 {
        lemma_sum_amounts_add(a, b.drop_last());
        assert((a + b).drop_last() == a + b.drop_last());
    }
}

/// The totals of an aggregate that was extended are the totals of its two
/// parts, added up; the net is income less expense throughout.
pub proof fn lemma_extended_totals(a: AggregateView, b: AggregateView)
    ensures
        a.extended(b).total_income() == a.total_income() + b.total_income(),
        a.extended(b).total_expense() == a.total_expense() + b.total_expense(),
        a.extended(b).net() == a.net() + b.net(),
        a.net() == a.total_income() - a.total_expense(),
{
    lemma_sum_amounts_add(a.incomes, b.incomes);
    lemma_sum_amounts_add(a.expenses, b.expenses);
}

/// What a [`BillAggregate`] stands for.
pub struct AggregateView {
    pub incomes: Seq<EntryView>,
    pub expenses: Seq<EntryView>,
}

impl AggregateView {
    /// The aggregate without entries.
    pub open spec fn empty() -> AggregateView {
        AggregateView { incomes: Seq::empty(), expenses: Seq::empty() }
    }

    /// This aggregate followed by the entries of `other`.
    pub open spec fn extended(self, other: AggregateView) -> AggregateView {
        AggregateView {
            incomes: self.incomes + other.incomes,
            expenses: self.expenses + other.expenses,
        }
    }

    /// This aggregate with one more entry on the side `direction`.
    pub open spec fn with_entry(self, direction: Direction, entry: EntryView) -> AggregateView {
        match direction {
            Direction::Income => AggregateView { incomes: self.incomes.push(entry), ..self },
            Direction::Expense => AggregateView { expenses: self.expenses.push(entry), ..self },
        }
    }

    /// Neither side holds an entry.
    pub open spec fn is_empty(self) -> bool {
        self.incomes.len() == 0 && self.expenses.len() == 0
    }

    /// The sum of the incomes, in hundredths.
    pub open spec fn total_income(self) -> nat {
        sum_amounts(self.incomes)
    }

    /// The sum of the expenses, in hundredths.
    pub open spec fn total_expense(self) -> nat {
        sum_amounts(self.expenses)
    }

    /// Income less expense.
    pub open spec fn net(self) -> int {
        self.total_income() - self.total_expense()
    }
}

/// The entries taken in so far, incomes and expenses apart, each in the
/// order in which they came. Totals are computed from the entries whenever
/// they are asked for.
#[derive(Debug, Clone, PartialEq, Eq)]
pub struct BillAggregate {
    pub incomes: Vec<BillEntry>,
    pub expenses: Vec<BillEntry>,
}

impl View for BillAggregate {
    type V = AggregateView;

    open spec fn view(&self) -> AggregateView {
        AggregateView {
            incomes: entries_view(self.incomes@),
            expenses: entries_view(self.expenses@),
        }
    }
}

impl Default for BillAggregate {
    fn default() -> (aggregate: BillAggregate)
        ensures
            aggregate@ == AggregateView::empty(),
    {
        let aggregate = BillAggregate { incomes: Vec::new(), expenses: Vec::new() };
        assert(aggregate@.expenses == Seq::<EntryView>::empty());
        aggregate
    }
}

/// The line of the report that sums up: the label says which side is
/// ahead, the amount is the distance between them.
pub open spec fn net_line_text(net: int) -> Seq<char> {
    let label = if net >= 0 {
        "net income"@
    } else {
        "net expense"@
    };
    let distance = if net >= 0 {
        net as nat
    } else {
        (-net) as nat
    };
    label + ": "@ + magnitude_text(distance)
}

/// The table row of one entry.
pub open spec fn entry_row(e: EntryView) -> Seq<char> {
    "| "@ + e.partner + " | "@ + e.product + " | "@ + magnitude_text(e.amount) + " |\n"@
}

/// The table rows of `entries`, one after the other.
pub open spec fn entry_rows(entries: Seq<EntryView>) -> Seq<char>
    decreases entries.len(),
{
    if entries.len() == 0 {
        Seq::empty()
    } else {
        entry_rows(entries.drop_last()) + entry_row(entries.last())
    }
}

/// The head of an entry table.
pub open spec fn table_head() -> Seq<char> {
    "| Counterparty | Description | Amount |\n|--------------|-------------|--------|\n"@
}

/// The section of the report on the expenses.
pub open spec fn expense_section(entries: Seq<EntryView>) -> Seq<char> {
    "## Expenses\n"@ + if entries.len() == 0 {
        "No expense records.\n"@
    } else {
        table_head() + entry_rows(entries) + "\ntotal expense: "@ + magnitude_text(
            sum_amounts(entries),
        ) + "\n\n"@
    }
}

/// The section of the report on the incomes.
pub open spec fn income_section(entries: Seq<EntryView>) -> Seq<char> {
    "## Income\n"@ + if entries.len() == 0 {
        "No income records.\n"@
    } else {
        table_head() + entry_rows(entries) + "\ntotal income: "@ + magnitude_text(
            sum_amounts(entries),
        ) + "\n\n"@
    }
}

/// The report on an aggregate: a title, the expenses, the incomes, and the
/// net line.
pub open spec fn markdown_text(a: AggregateView) -> Seq<char> {
    "# Bill analysis\n\n"@ + expense_section(a.expenses) + income_section(a.incomes)
        + net_line_text(a.net()) + "\n"@
}

/// The sum of the amounts of `entries`.
fn total_of(entries: &Vec<BillEntry>) -> (total: u128)
    ensures
        total == sum_amounts(entries_view(entries@)),
        total <= entries.len() * MAX_HUNDREDTHS,
{
    let ghost all = entries_view(entries@);
    let mut total: u128 = 0;
    let mut i: usize = 0;
    while i < entries.len()
        invariant
            i <= entries.len(),
            all == entries_view(entries@),
            total == sum_amounts(all.take(i as int)),
            total <= i * MAX_HUNDREDTHS,
        decreases entries.len() - i,
    {
        let h = entries[i].amount.hundredths();
        proof {
            assert(all.take(i + 1).drop_last() == all.take(i as int));
        }
        total = total + h as u128;
        i += 1;
    }
    assert(all.take(entries.len() as int) == all);
    total
}

/// Appends the table rows of `entries` to `out`.
fn push_entry_rows(out: &mut String, entries: &Vec<BillEntry>)
    ensures
        final(out)@ == old(out)@ + entry_rows(entries_view(entries@)),
{
    let ghost all = entries_view(entries@);
    let mut i: usize = 0;
    while i < entries.len()
        invariant
            i <= entries.len(),
            all == entries_view(entries@),
            out@ == old(out)@ + entry_rows(all.take(i as int)),
        decreases entries.len() - i,
    {
        let e = &entries[i];
        let amount = e.amount.to_text();
        out.append("| ");
        out.append(e.partner.as_str());
        out.append(" | ");
        out.append(e.product.as_str());
        out.append(" | ");
        out.append(amount.as_str());
        out.append(" |\n");
        proof {
            assert(all.take(i + 1).drop_last() == all.take(i as int));
        }
        i += 1;
    }
    assert(all.take(entries.len() as int) == all);
}

impl BillAggregate {
    /// The aggregate of the given expenses and incomes.
    pub fn from_entries(expenses: Vec<BillEntry>, incomes: Vec<BillEntry>) -> (aggregate: Self)
        ensures
            aggregate.incomes == incomes,
            aggregate.expenses == expenses,
    {
        BillAggregate { incomes, expenses }
    }

    /// Appends the entries of `other`, incomes to incomes and expenses to
    /// expenses. Nothing that was there is removed or reordered.
    pub fn extend(&mut self, other: BillAggregate)
        ensures
            final(self)@ == old(self)@.extended(other@),
    {
        let mut other = other;
        let ghost added = other@;
        self.incomes.append(&mut other.incomes);
        self.expenses.append(&mut other.expenses);
        assert(self@.incomes == old(self)@.incomes + added.incomes);
        assert(self@.expenses == old(self)@.expenses + added.expenses);
    }

    /// Whether no entry was taken in yet.
    pub fn is_empty(&self) -> (empty: bool)
        ensures
            empty == self@.is_empty(),
    {
        self.incomes.len() == 0 && self.expenses.len() == 0
    }

    /// The sum of the incomes, in hundredths.
    pub fn total_income(&self) -> (total: u128)
        ensures
            total == self@.total_income(),
            total == sum_amounts(self@.incomes),
    {
        total_of(&self.incomes)
    }

    /// The sum of the expenses, in hundredths.
    pub fn total_expense(&self) -> (total: u128)
        ensures
            total == self@.total_expense(),
            total == sum_amounts(self@.expenses),
    {
        total_of(&self.expenses)
    }

    /// Income less expense, in hundredths.
    pub fn net(&self) -> (net: i128)
        ensures
            net == self@.net(),
            net == self@.total_income() - self@.total_expense(),
    {
        total_of(&self.incomes) as i128 - total_of(&self.expenses) as i128
    }

    /// The line that sums the aggregate up: `net income: 30.00` when income
    /// is at least expense, `net expense: 30.00` otherwise.
    pub fn net_line(&self) -> (line: String)
        ensures
            line@ == net_line_text(self@.net()),
    {
        let net = self.net();
        let mut line = if net >= 0 {
            String::from_str("net income")
        } else {
            String::from_str("net expense")
        };
        let amount = format_magnitude(distance(net));
        line.append(": ");
        line.append(amount.as_str());
        line
    }

    /// The report in markdown: the expenses and the incomes, each as a
    /// table followed by its total, or a line saying that there are none, and
    /// the net line.
    pub fn to_markdown(&self) -> (out: String)
        ensures
            out@ == markdown_text(self@),
    {
        let mut out = String::from_str("# Bill analysis\n\n");
        let ghost title = out@;

        out.append("## Expenses\n");
        if self.expenses.len() == 0 {
            out.append("No expense records.\n");
        } else {
            let total = format_magnitude(self.total_expense());
            out.append("| Counterparty | Description | Amount |\n|--------------|-------------|--------|\n");
            push_entry_rows(&mut out, &self.expenses);
            out.append("\ntotal expense: ");
            out.append(total.as_str());
            out.append("\n\n");
        }
        assert(out@ == title + expense_section(self@.expenses));
        let ghost upto_expenses = out@;

        out.append("## Income\n");
        if self.incomes.len() == 0 {
            out.append("No income records.\n");
        } else {
            let total = format_magnitude(self.total_income());
            out.append("| Counterparty | Description | Amount |\n|--------------|-------------|--------|\n");
            push_entry_rows(&mut out, &self.incomes);
            out.append("\ntotal income: ");
            out.append(total.as_str());
            out.append("\n\n");
        }
        assert(out@ == upto_expenses + income_section(self@.incomes));

        let net = self.net_line();
        out.append(net.as_str());
        out.append("\n");
        out
    }
}

} // verus!
