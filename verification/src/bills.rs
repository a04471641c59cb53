//! The bill session: the catalog of statement files, the set of files that
//! were taken in, and the aggregate of their entries.
//!
//! A file is taken in once. It is known by its path: a file that changes
//! after it was taken in is not read again.

use crate::alipay::{alipay_result, parse_alipay_bill};
use crate::catalog::{bill_paths, catalog_of, sorted_paths};
use crate::amount::{decimal_string, decimal_text};
use crate::ledger::{markdown_text, net_line_text, AggregateView, BillAggregate};
use crate::source::{kind_of, parser_kind, FileData, FileDataView, ParseError, ParserKind};
use crate::text::strings_view;
use crate::wechat::{outcome_view, parse_wechat_bill, wechat_result};
use vstd::prelude::*;
use vstd::string::StringExecFns;

verus! {

/// Why a run over the pending files added nothing or stopped.
#[derive(Debug, Clone, Copy, PartialEq, Eq, Structural)]
pub enum IngestError {
    /// Every file of the catalog was taken in before.
    NothingPending,
    /// A pending file could not be parsed; the run stopped at it.
    Failed(ParseError),
}

/// A document to be written by an export.
#[derive(Debug, Clone, PartialEq, Eq)]
pub struct ReportFile {
    pub name: String,
    pub content: String,
}

/// What a file gives when it is read by the strategy for its path.
pub open spec fn file_result(path: Seq<char>, data: FileDataView) -> Result<
    AggregateView,
    ParseError,
> {
    match kind_of(path) {
        Ok(kind) => kind.result(data),
        Err(e) => Err(e),
    }
}

/// The views of what was read from a list of files.
pub open spec fn loaded_view(loaded: Seq<FileData>) -> Seq<FileDataView> {
    Seq::new(loaded.len(), |i: int| loaded[i]@)
}

/// The paths of `files` that are not in `processed`, in order.
pub open spec fn pending_paths(files: Seq<Seq<char>>, processed: Seq<Seq<char>>) -> Seq<Seq<char>>
    decreases files.len(),
{
    if files.len() == 0 {
        Seq::empty()
    } else if processed.contains(files.last()) {
        pending_paths(files.drop_last(), processed)
    } else {
        pending_paths(files.drop_last(), processed).push(files.last())
    }
}

/// Where a run over the catalog stands.
pub struct Progress {
    /// The paths taken in, those of earlier runs first.
    pub processed: Seq<Seq<char>>,
    /// The aggregate, with the entries of the files that this run took in.
    pub aggregate: AggregateView,
    /// The number of files that this run took in.
    pub added: nat,
    /// The error that stopped the run, if one did.
    pub failure: Option<ParseError>,
}

/// Where a run stands after the files `files`, of which `loaded` holds what
/// was read, when it began with `processed` and `aggregate`. The files are
/// taken in order. One that is in the processed set by its turn is passed
/// over. One that parses is added to the set and its entries to the
/// aggregate. The first one that fails stops the run: what came before it
/// stays, what comes after it is not looked at.
pub open spec fn run_over(
    files: Seq<Seq<char>>,
    loaded: Seq<FileDataView>,
    processed: Seq<Seq<char>>,
    aggregate: AggregateView,
) -> Progress
    decreases files.len(),
{
    if files.len() == 0 || loaded.len() != files.len() {
        Progress { processed, aggregate, added: 0, failure: None }
    } else {
        let before = run_over(files.drop_last(), loaded.drop_last(), processed, aggregate);
        if before.failure is Some || before.processed.contains(files.last()) {
            before
        } else {
            match file_result(files.last(), loaded.last()) {
                Ok(report) => Progress {
                    processed: before.processed.push(files.last()),
                    aggregate: before.aggregate.extended(report),
                    added: before.added + 1,
                    failure: None,
                },
                Err(e) => Progress { failure: Some(e), ..before },
            }
        }
    }
}

/// What a run reports: the error that stopped it, else that nothing was
/// pending, else the number of files taken in.
pub open spec fn run_report(end: Progress) -> Result<nat, IngestError> {
    match end.failure {
        Some(e) => Err(IngestError::Failed(e)),
        None => if end.added == 0 {
            Err(IngestError::NothingPending)
        } else {
            Ok(end.added)
        },
    }
}

/// The line that says how many files of the catalog are pending.
pub open spec fn pending_text(bills: BillStateView) -> Seq<char> {
    "pending statements: "@ + decimal_text(pending_paths(bills.files, bills.processed).len())
}

/// The lines that sum a session up: the watched directory, the numbers of
/// pending and of processed files, and the net line once there are entries.
pub open spec fn status_text(bills: BillStateView) -> Seq<Seq<char>> {
    let lines = seq![
        "statement directory: "@ + bills.bill_dir,
        pending_text(bills),
        "analyzed statements: "@ + decimal_text(bills.processed.len()),
    ];
    if bills.aggregate.is_empty() {
        lines
    } else {
        lines.push(net_line_text(bills.aggregate.net()))
    }
}

/// What a [`BillState`] stands for.
pub struct BillStateView {
    pub bill_dir: Seq<char>,
    pub files: Seq<Seq<char>>,
    pub processed: Seq<Seq<char>>,
    pub aggregate: AggregateView,
}

impl BillStateView {
    /// The catalog is sorted, and no path is in the processed set twice.
    pub open spec fn wf(self) -> bool {
        &&& sorted_paths(self.files)
        &&& self.processed.no_duplicates()
    }
}

/// The state of the bill view: the watched directory, its catalog, the
/// processed set and the aggregate. The processed set is held as a vector in
/// which no path occurs twice, in the order in which the files were taken
/// in.
pub struct BillState {
    bill_dir: String,
    files: Vec<String>,
    processed: Vec<String>,
    aggregate: BillAggregate,
}

impl View for BillState {
    type V = BillStateView;

    closed spec fn view(&self) -> BillStateView {
        BillStateView {
            bill_dir: self.bill_dir@,
            files: strings_view(self.files@),
            processed: strings_view(self.processed@),
            aggregate: self.aggregate@,
        }
    }
}

impl ParserKind {
    /// What a file gives when it is read by this strategy.
    pub open spec fn result(self, data: FileDataView) -> Result<AggregateView, ParseError> {
        match self {
            ParserKind::Spreadsheet => wechat_result(data),
            ParserKind::Csv => alipay_result(data),
        }
    }

    /// Reads a statement by this strategy.
    pub fn parse(&self, data: &FileData) -> (result: Result<BillAggregate, ParseError>)
        ensures
            outcome_view(result) == self.result(data@),
    {
        match self {
            ParserKind::Spreadsheet => parse_wechat_bill(data),
            ParserKind::Csv => parse_alipay_bill(data),
        }
    }
}

/// Reads a statement by the strategy for its path: a spreadsheet for
/// `xlsx`, comma-separated text for `csv`. A path without an extension, or
/// with another one, is an error of its own.
pub fn analyze_bill_file(path: &str, data: &FileData) -> (result: Result<BillAggregate, ParseError>)
    ensures
        outcome_view(result) == file_result(path@, data@),
{
    match parser_kind(path) {
        Ok(kind) => kind.parse(data),
        Err(e) => Err(e),
    }
}

/// Whether `path` is among `paths`.
pub fn has_path(paths: &Vec<String>, path: &String) -> (found: bool)
    ensures
        found == strings_view(paths@).contains(path@),
{
    let mut i: usize = 0;
    while i < paths.len()
        invariant
            i <= paths.len(),
            forall|k: int| 0 <= k < i ==> strings_view(paths@)[k] != path@,
        decreases paths.len() - i,
    {
        if paths[i] == *path {
            assert(strings_view(paths@)[i as int] == path@);
            return true;
        }
        i += 1;
    }
    false
}

impl BillState {
    /// The session for the directory `bill_dir`: no catalog yet, nothing
    /// processed, no entries.
    pub fn new(bill_dir: &str) -> (state: BillState)
        ensures
            state@.wf(),
            state@.bill_dir == bill_dir@,
            state@.files.len() == 0,
            state@.processed.len() == 0,
            state@.aggregate == AggregateView::empty(),
    {
        BillState {
            bill_dir: bill_dir.to_owned(),
            files: Vec::new(),
            processed: Vec::new(),
            aggregate: BillAggregate::default(),
        }
    }

    /// The watched directory.
    pub fn bill_dir(&self) -> (dir: &String)
        ensures
            dir@ == self@.bill_dir,
    {
        &self.bill_dir
    }

    /// The catalog: the statement files of the watched directory as of the
    /// last refresh, sorted.
    pub fn files(&self) -> (files: &Vec<String>)
        ensures
            strings_view(files@) == self@.files,
    {
        &self.files
    }

    /// The paths that were taken in, in the order in which they were.
    pub fn processed(&self) -> (processed: &Vec<String>)
        ensures
            strings_view(processed@) == self@.processed,
    {
        &self.processed
    }

    /// The entries taken in so far.
    pub fn aggregate(&self) -> (aggregate: &BillAggregate)
        ensures
            aggregate@ == self@.aggregate,
    {
        &self.aggregate
    }

    /// Replaces the catalog by the one for `listing`, the paths found in the
    /// watched directory: those with the extension `xlsx` or `csv`, in any
    /// case of letters, sorted. The processed set and the aggregate stay.
    pub fn refresh_files(&mut self, listing: &Vec<String>)
        requires
            old(self)@.wf(),
        ensures
            final(self)@.wf(),
            final(self)@.files.to_multiset() == bill_paths(strings_view(listing@)).to_multiset(),
            final(self)@.bill_dir == old(self)@.bill_dir,
            final(self)@.processed == old(self)@.processed,
            final(self)@.aggregate == old(self)@.aggregate,
    {
        self.files = catalog_of(listing);
    }

    /// The number of files of the catalog that are not in the processed
    /// set.
    pub fn pending_count(&self) -> (count: usize)
        ensures
            count == pending_paths(self@.files, self@.processed).len(),
    {
        let ghost files = strings_view(self.files@);
        let ghost processed = strings_view(self.processed@);
        let mut count: usize = 0;
        let mut i: usize = 0;
        while i < self.files.len()
            invariant
                i <= self.files.len(),
                files == strings_view(self.files@),
                processed == strings_view(self.processed@),
                count == pending_paths(files.take(i as int), processed).len(),
                count <= i,
            decreases self.files.len() - i,
        {
            proof {
                assert(files.take(i + 1).drop_last() == files.take(i as int));
            }
            if !has_path(&self.processed, &self.files[i]) {
                count += 1;
            }
            i += 1;
        }
        assert(files.take(self.files.len() as int) == files);
        count
    }

    /// The line that says how many files are pending.
    pub fn pending_line(&self) -> (line: String)
        ensures
            line@ == pending_text(self@),
    {
        let count = decimal_string(self.pending_count());
        let mut line = "pending statements: ".to_owned();
        line.append(count.as_str());
        line
    }

    /// The lines that sum the session up for the status panel.
    pub fn status_lines(&self) -> (lines: Vec<String>)
        ensures
            strings_view(lines@) == status_text(self@),
    {
        let mut directory = "statement directory: ".to_owned();
        directory.append(self.bill_dir.as_str());
        let count = decimal_string(self.processed.len());
        let mut analyzed = "analyzed statements: ".to_owned();
        analyzed.append(count.as_str());
        let mut lines: Vec<String> = Vec::new();
        lines.push(directory);
        lines.push(self.pending_line());
        lines.push(analyzed);
        if !self.aggregate.is_empty() {
            lines.push(self.aggregate.net_line());
        }
        lines
    }

    /// Takes in every pending file of the catalog, in catalog order.
    /// `loaded[i]` is what was read from the `i`-th file of the catalog; it
    /// is looked at only if that file is pending when its turn comes.
    ///
    /// A file that parses joins the processed set and its entries join the
    /// aggregate. The first file that fails ends the run with its error, and
    /// what was taken in before it stays. A run that finds no pending file
    /// reports `NothingPending` and changes nothing. Otherwise the run
    /// reports the number of files it took in.
    #[verifier::loop_isolation(false)]
    pub fn analyze_pending(&mut self, loaded: &Vec<FileData>) -> (result: Result<
        usize,
        IngestError,
    >)
        requires
            old(self)@.wf(),
            loaded.len() == old(self)@.files.len(),
        ensures
            final(self)@.wf(),
            final(self)@.bill_dir == old(self)@.bill_dir,
            final(self)@.files == old(self)@.files,
            old(self)@.processed.is_prefix_of(final(self)@.processed),
            old(self)@.aggregate.incomes.is_prefix_of(final(self)@.aggregate.incomes),
            old(self)@.aggregate.expenses.is_prefix_of(final(self)@.aggregate.expenses),
            final(self)@.processed == run_over(
                old(self)@.files,
                loaded_view(loaded@),
                old(self)@.processed,
                old(self)@.aggregate,
            ).processed,
            final(self)@.aggregate == run_over(
                old(self)@.files,
                loaded_view(loaded@),
                old(self)@.processed,
                old(self)@.aggregate,
            ).aggregate,
            match result {
                Ok(n) => Ok(n as nat),
                Err(e) => Err(e),
            } == run_report(
                run_over(
                    old(self)@.files,
                    loaded_view(loaded@),
                    old(self)@.processed,
                    old(self)@.aggregate,
                ),
            ),
    {
        let ghost files = strings_view(self.files@);
        let ghost data = loaded_view(loaded@);
        let ghost processed0 = strings_view(self.processed@);
        let ghost aggregate0 = self.aggregate@;
        proof {
            lemma_run_over_grows(files, data, processed0, aggregate0);
        }
        let mut success: usize = 0;
        let mut i: usize = 0;
        while i < self.files.len()
            invariant
                i <= self.files.len(),
                loaded.len() == self.files.len(),
                files == strings_view(self.files@),
                data == loaded_view(loaded@),
                self.bill_dir == old(self).bill_dir,
                sorted_paths(files),
                strings_view(self.processed@).no_duplicates(),
                success <= i,
                run_over(files.take(i as int), data.take(i as int), processed0, aggregate0)
                    == (Progress {
                    processed: strings_view(self.processed@),
                    aggregate: self.aggregate@,
                    added: success as nat,
                    failure: None,
                }),
            decreases self.files.len() - i,
        {
            proof {
                assert(files.take(i + 1).drop_last() == files.take(i as int));
                assert(data.take(i + 1).drop_last() == data.take(i as int));
            }
            if !has_path(&self.processed, &self.files[i]) {
                match analyze_bill_file(self.files[i].as_str(), &loaded[i]) {
                    Ok(report) => {
                        let ghost before = strings_view(self.processed@);
                        let path = self.files[i].clone();
                        self.processed.push(path);
                        assert(strings_view(self.processed@) == before.push(
                            self.files[i as int]@,
                        ));
                        self.aggregate.extend(report);
                        success += 1;
                    },
                    Err(e) => {
                        proof {
                            lemma_run_over_stops(
                                files,
                                data,
                                processed0,
                                aggregate0,
                                i + 1,
                                files.len() as int,
                            );
                            assert(files.take(files.len() as int) == files);
                            assert(data.take(files.len() as int) == data);
                        }
                        return Err(IngestError::Failed(e));
                    },
                }
            }
            i += 1;
        }
        proof {
            assert(files.take(self.files.len() as int) == files);
            assert(data.take(self.files.len() as int) == data);
        }
        if success == 0 {
            return Err(IngestError::NothingPending);
        }
        Ok(success)
    }

    /// The documents that an export writes: none while the aggregate holds
    /// no entry, else the report alone, under the name `bill_summary.md`.
    pub fn export_reports(&self) -> (reports: Vec<ReportFile>)
        ensures
            self@.aggregate.is_empty() ==> reports.len() == 0,
            !self@.aggregate.is_empty() ==> reports.len() == 1 && reports[0].name@
                == "bill_summary.md"@ && reports[0].content@ == markdown_text(self@.aggregate),
    {
        let mut reports: Vec<ReportFile> = Vec::new();
        if !self.aggregate.is_empty() {
            reports.push(
                ReportFile {
                    name: "bill_summary.md".to_owned(),
                    content: self.aggregate.to_markdown(),
                },
            );
        }
        reports
    }
}

/// Once a run has failed, the files after the failure change nothing.
pub proof fn lemma_run_over_stops(
    files: Seq<Seq<char>>,
    loaded: Seq<FileDataView>,
    processed: Seq<Seq<char>>,
    aggregate: AggregateView,
    k: int,
    n: int,
)
    requires
        0 <= k <= n <= files.len(),
        loaded.len() == files.len(),
        run_over(files.take(k), loaded.take(k), processed, aggregate).failure is Some,
    ensures
        run_over(files.take(n), loaded.take(n), processed, aggregate) == run_over(
            files.take(k),
            loaded.take(k),
            processed,
            aggregate,
        ),
    decreases n - k,
{
    if k < n {
        lemma_run_over_stops(files, loaded, processed, aggregate, k, n - 1);
        assert(files.take(n).drop_last() == files.take(n - 1));
        assert(loaded.take(n).drop_last() == loaded.take(n - 1));
    }
}


/// A run over a catalog of which every file was taken in before takes
/// nothing in, changes nothing, and reports that nothing was pending.
pub proof fn lemma_run_over_nothing_pending(
    files: Seq<Seq<char>>,
    loaded: Seq<FileDataView>,
    processed: Seq<Seq<char>>,
    aggregate: AggregateView,
)
    requires
        forall|i: int| 0 <= i < files.len() ==> processed.contains(#[trigger] files[i]),
    ensures
        run_over(files, loaded, processed, aggregate) == (Progress {
            processed,
            aggregate,
            added: 0,
            failure: None,
        }),
        run_report(run_over(files, loaded, processed, aggregate)) == Err::<nat, IngestError>(
            IngestError::NothingPending,
        ),
    decreases files.len(),
{
    if files.len() > 0 && loaded.len() == files.len() {
        let head = files.drop_last();
        lemma_run_over_nothing_pending(head, loaded.drop_last(), processed, aggregate);
    }
}

/// A run only adds: the processed set and both sides of the aggregate
/// begin with what they held before the run. A run that was not stopped
/// leaves every file of the catalog in the processed set.
pub proof fn lemma_run_over_grows(
    files: Seq<Seq<char>>,
    loaded: Seq<FileDataView>,
    processed: Seq<Seq<char>>,
    aggregate: AggregateView,
)
    requires
        loaded.len() == files.len(),
    ensures
        processed.is_prefix_of(run_over(files, loaded, processed, aggregate).processed),
        aggregate.incomes.is_prefix_of(
            run_over(files, loaded, processed, aggregate).aggregate.incomes,
        ),
        aggregate.expenses.is_prefix_of(
            run_over(files, loaded, processed, aggregate).aggregate.expenses,
        ),
        run_over(files, loaded, processed, aggregate).failure is None ==> forall|i: int|
            0 <= i < files.len() ==> run_over(files, loaded, processed, aggregate).processed.contains(
                #[trigger] files[i],
            ),
    decreases files.len(),
{
    if files.len() > 0 {
        let head = files.drop_last();
        let before = run_over(head, loaded.drop_last(), processed, aggregate);
        let end = run_over(files, loaded, processed, aggregate);
        lemma_run_over_grows(head, loaded.drop_last(), processed, aggregate);
        if end.failure is None {
            assert forall|i: int| 0 <= i < files.len() implies end.processed.contains(
                #[trigger] files[i],
            ) by {
                if i < head.len() {
                    let k = choose|k: int|
                        0 <= k < before.processed.len() && before.processed[k] == head[i];
                    assert(end.processed[k] == files[i]);
                } else if !before.processed.contains(files.last()) {
                    assert(end.processed[end.processed.len() - 1] == files[i]);
                }
            }
        }
    }
}

/// Taking the same catalog in twice changes nothing the second time: after
/// a run that was not stopped, a second run over the same catalog, whatever
/// is read from the files then, leaves the processed set and the aggregate
/// as the first run left them and reports that nothing was pending.
pub proof fn lemma_second_run_changes_nothing(
    files: Seq<Seq<char>>,
    first_loaded: Seq<FileDataView>,
    second_loaded: Seq<FileDataView>,
    processed: Seq<Seq<char>>,
    aggregate: AggregateView,
)
    requires
        first_loaded.len() == files.len(),
        run_over(files, first_loaded, processed, aggregate).failure is None,
    ensures
        ({
            let first = run_over(files, first_loaded, processed, aggregate);
            let second = run_over(files, second_loaded, first.processed, first.aggregate);
            &&& second.processed == first.processed
            &&& second.aggregate == first.aggregate
            &&& run_report(second) == Err::<nat, IngestError>(IngestError::NothingPending)
        }),
{
    let first = run_over(files, first_loaded, processed, aggregate);
    lemma_run_over_grows(files, first_loaded, processed, aggregate);
    lemma_run_over_nothing_pending(files, second_loaded, first.processed, first.aggregate);
}

/// What is pending depends on the processed set only through the paths of
/// the catalog: a path that is not in the catalog may leave the set.
proof fn lemma_pending_without(files: Seq<Seq<char>>, processed: Seq<Seq<char>>, k: int)
    requires
        0 <= k < processed.len(),
        !files.contains(processed[k]),
    ensures
        pending_paths(files, processed.remove(k)) == pending_paths(files, processed),
    decreases files.len(),
{
    if files.len() > 0 {
        let head = files.drop_last();
        let x = files.last();
        assert forall|p: Seq<char>| head.contains(p) implies files.contains(p) by {
            let i = choose|i: int| 0 <= i < head.len() && head[i] == p;
            assert(files[i] == p);
        }
        lemma_pending_without(head, processed, k);
        assert(files[files.len() - 1] == x);
        assert(x != processed[k]);
        let rest = processed.remove(k);
        if processed.contains(x) {
            let i = choose|i: int| 0 <= i < processed.len() && processed[i] == x;
            if i < k {
                assert(rest[i] == x);
            } else {
                assert(rest[i - 1] == x);
            }
        }
        if rest.contains(x) {
            let i = choose|i: int| 0 <= i < rest.len() && rest[i] == x;
            if i < k {
                assert(processed[i] == x);
            } else {
                assert(processed[i + 1] == x);
            }
        }
    }
}

/// When no path is twice in the catalog or in the processed set, and every
/// processed path is in the catalog, the number of pending files is the
/// size of the catalog less the size of the processed set.
pub proof fn lemma_pending_count(files: Seq<Seq<char>>, processed: Seq<Seq<char>>)
    requires
        files.no_duplicates(),
        processed.no_duplicates(),
        forall|k: int| 0 <= k < processed.len() ==> files.contains(#[trigger] processed[k]),
    ensures
        pending_paths(files, processed).len() == files.len() - processed.len(),
    decreases files.len(),
{
    if files.len() == 0 {
        if processed.len() > 0 {
            assert(files.contains(processed[0]));
        }
    } else {
        let head = files.drop_last();
        let x = files.last();
        if processed.contains(x) {
            let k = choose|k: int| 0 <= k < processed.len() && processed[k] == x;
            let rest = processed.remove(k);
            assert forall|j: int| 0 <= j < rest.len() implies head.contains(#[trigger] rest[j]) by {
                let j0 = if j < k {
                    j
                } else {
                    j + 1
                };
                let i = choose|i: int| 0 <= i < files.len() && files[i] == processed[j0];
                assert(head[i] == rest[j]);
            }
            lemma_pending_count(head, rest);
            lemma_pending_without(head, processed, k);
        } else {
            assert forall|j: int| 0 <= j < processed.len() implies head.contains(
                #[trigger] processed[j],
            ) by {
                let i = choose|i: int| 0 <= i < files.len() && files[i] == processed[j];
                assert(head[i] == processed[j]);
            }
            lemma_pending_count(head, processed);
        }
    }
}

} // verus!
