//! What became of each step of a run, and the summary of all of them.

use vstd::prelude::*;

use crate::path;
use crate::path::FilePath;
use crate::text;

verus! {

/// How a step ended.
#[derive(Debug, Clone, PartialEq, Eq)]
pub enum StepStatus {
    Success,
    /// It failed, for this reason.
    Failure(String),
    /// It was not tried, for this reason.
    Skipped(String),
}

/// A [`StepStatus`] with its reason as characters.
pub enum StatusView {
    Success,
    Failure(Seq<char>),
    Skipped(Seq<char>),
}

impl View for StepStatus {
    type V = StatusView;

    open spec fn view(&self) -> StatusView {
        match self {
            StepStatus::Success => StatusView::Success,
            StepStatus::Failure(reason) => StatusView::Failure(reason@),
            StepStatus::Skipped(reason) => StatusView::Skipped(reason@),
        }
    }
}

/// A step and how it ended.
#[derive(Debug, Clone, PartialEq, Eq)]
pub struct StepRecord {
    pub name: String,
    pub status: StepStatus,
}

/// A [`StepRecord`] in terms of characters.
pub struct RecordView {
    pub name: Seq<char>,
    pub status: StatusView,
}

impl View for StepRecord {
    type V = RecordView;

    open spec fn view(&self) -> RecordView {
        RecordView { name: self.name@, status: self.status@ }
    }
}

/// The views of a list of records.
pub open spec fn record_views(records: Seq<StepRecord>) -> Seq<RecordView> {
    records.map_values(|r: StepRecord| r@)
}

impl StepRecord {
    /// The step `name` was done.
    pub fn success(name: &str) -> (record: StepRecord)
        ensures
            record@ == (RecordView { name: name@, status: StatusView::Success }),
    {
        StepRecord { name: name.to_string(), status: StepStatus::Success }
    }

    /// The step `name` failed for `reason`.
    pub fn failure(name: &str, reason: &str) -> (record: StepRecord)
        ensures
            record@ == (RecordView { name: name@, status: StatusView::Failure(reason@) }),
    {
        StepRecord { name: name.to_string(), status: StepStatus::Failure(reason.to_string()) }
    }

    /// The step `name` was left out for `reason`.
    pub fn skipped(name: &str, reason: &str) -> (record: StepRecord)
        ensures
            record@ == (RecordView { name: name@, status: StatusView::Skipped(reason@) }),
    {
        StepRecord { name: name.to_string(), status: StepStatus::Skipped(reason.to_string()) }
    }
}

/// What a run did: the steps by how they ended, each list in the order in which
/// the steps were recorded.
#[derive(Debug, Clone, PartialEq, Eq)]
pub struct RunSummary {
    pub successes: Vec<String>,
    pub failures: Vec<String>,
    pub skipped: Vec<String>,
    /// The log file, if there is one.
    pub log_path: Option<FilePath>,
}

/// A [`RunSummary`] in terms of characters and bytes.
#[verifier::ext_equal]
pub struct SummaryView {
    pub successes: Seq<Seq<char>>,
    pub failures: Seq<Seq<char>>,
    pub skipped: Seq<Seq<char>>,
    pub log_path: Option<Seq<u8>>,
}

impl View for RunSummary {
    type V = SummaryView;

    open spec fn view(&self) -> SummaryView {
        SummaryView {
            successes: text::string_views(self.successes@),
            failures: text::string_views(self.failures@),
            skipped: text::string_views(self.skipped@),
            log_path: path::optional_path(self.log_path),
        }
    }
}

/// The names of the steps that were done.
pub open spec fn success_lines(records: Seq<RecordView>) -> Seq<Seq<char>> {
    records.filter(|r: RecordView| r.status is Success).map_values(|r: RecordView| r.name)
}

/// The names of the steps that failed, each with its reason.
pub open spec fn failure_lines(records: Seq<RecordView>) -> Seq<Seq<char>> {
    records.filter(|r: RecordView| r.status is Failure).map_values(
        |r: RecordView| r.name + ": "@ + r.status->Failure_0,
    )
}

/// The names of the steps that were left out, each with its reason.
pub open spec fn skipped_lines(records: Seq<RecordView>) -> Seq<Seq<char>> {
    records.filter(|r: RecordView| r.status is Skipped).map_values(
        |r: RecordView| r.name + ": "@ + r.status->Skipped_0,
    )
}

/// The summary of `records`.
pub open spec fn summary_of(records: Seq<RecordView>, log_path: Option<Seq<u8>>) -> SummaryView {
    SummaryView {
        successes: success_lines(records),
        failures: failure_lines(records),
        skipped: skipped_lines(records),
        log_path,
    }
}

impl SummaryView {
    /// The exit code of a run with this summary.
    pub open spec fn exit_code(self) -> int {
        if self.failures.len() == 0 && self.skipped.len() == 0 {
            0
        } else {
            1
        }
    }
}

impl RunSummary {
    /// The exit code of the program: 0 if every step was done.
    pub fn exit_code(&self) -> (code: i32)
        ensures
            code == self@.exit_code(),
    {
        if self.failures.len() == 0 && self.skipped.len() == 0 {
            0
        } else {
            1
        }
    }
}

/// A record at the end of the list adds one line at the end of one list.
proof fn lemma_summary_push(records: Seq<RecordView>, record: RecordView)
    ensures
        success_lines(records.push(record)) == if record.status is Success {
            success_lines(records).push(record.name)
        } else {
            success_lines(records)
        },
        failure_lines(records.push(record)) == if record.status is Failure {
            failure_lines(records).push(record.name + ": "@ + record.status->Failure_0)
        } else {
            failure_lines(records)
        },
        skipped_lines(records.push(record)) == if record.status is Skipped {
            skipped_lines(records).push(record.name + ": "@ + record.status->Skipped_0)
        } else {
            skipped_lines(records)
        },
{
    records.lemma_filter_push(record, |r: RecordView| r.status is Success);
    records.lemma_filter_push(record, |r: RecordView| r.status is Failure);
    records.lemma_filter_push(record, |r: RecordView| r.status is Skipped);
    assert(record.status is Success ==> success_lines(records.push(record)) =~= success_lines(
        records,
    ).push(record.name));
    assert(record.status is Failure ==> failure_lines(records.push(record)) =~= failure_lines(
        records,
    ).push(record.name + ": "@ + record.status->Failure_0));
    assert(record.status is Skipped ==> skipped_lines(records.push(record)) =~= skipped_lines(
        records,
    ).push(record.name + ": "@ + record.status->Skipped_0));
}

/// The views of two lists, one behind the other.
pub(crate) proof fn lemma_record_views_add(first: Seq<StepRecord>, second: Seq<StepRecord>)
    ensures
        record_views(first + second) == record_views(first) + record_views(second),
{
    assert(record_views(first + second) =~= record_views(first) + record_views(second));
}

fn with_reason(name: &str, reason: &str) -> (line: String)
    ensures
        line@ == name@ + ": "@ + reason@,
{
    name.to_string().concat(": ").concat(reason)
}

/// Sorts the records of a run by how their steps ended.
pub fn summarize(records: Vec<StepRecord>, log_path: Option<FilePath>) -> (summary: RunSummary)
    ensures
        summary@ == summary_of(record_views(records@), path::optional_path(log_path)),
{
    let ghost views = record_views(records@);
    let mut successes: Vec<String> = Vec::new();
    let mut failures: Vec<String> = Vec::new();
    let mut skipped: Vec<String> = Vec::new();
    assert(text::string_views(successes@) =~= success_lines(views.take(0)));
    assert(text::string_views(failures@) =~= failure_lines(views.take(0)));
    assert(text::string_views(skipped@) =~= skipped_lines(views.take(0)));
    for i in 0..records.len()
        invariant
            views == record_views(records@),
            text::string_views(successes@) == success_lines(views.take(i as int)),
            text::string_views(failures@) == failure_lines(views.take(i as int)),
            text::string_views(skipped@) == skipped_lines(views.take(i as int)),
    {
        let record = &records[i];
        proof {
            assert(views.take(i + 1) =~= views.take(i as int).push(record@));
            lemma_summary_push(views.take(i as int), record@);
        }
        match &record.status {
            StepStatus::Success => {
                let line = record.name.clone();
                proof {
                    text::lemma_string_views_push(successes@, line);
                }
                successes.push(line);
            },
            StepStatus::Failure(reason) => {
                let line = with_reason(record.name.as_str(), reason.as_str());
                proof {
                    text::lemma_string_views_push(failures@, line);
                }
                failures.push(line);
            },
            StepStatus::Skipped(reason) => {
                let line = with_reason(record.name.as_str(), reason.as_str());
                proof {
                    text::lemma_string_views_push(skipped@, line);
                }
                skipped.push(line);
            },
        }
    }
    assert(views.take(records@.len() as int) =~= views);
    RunSummary { successes, failures, skipped, log_path }
}

/// A summary counts every record once.
pub proof fn summary_counts_every_record(records: Seq<RecordView>, log_path: Option<Seq<u8>>)
    ensures
        ({
            let summary = summary_of(records, log_path);
            summary.successes.len() + summary.failures.len() + summary.skipped.len()
                == records.len()
        }),
    decreases records.len(),
{
    if records.len() > 0 {
        let front = records.drop_last();
        assert(records =~= front.push(records.last()));
        lemma_summary_push(front, records.last());
        summary_counts_every_record(front, log_path);
    } else {
        assert(success_lines(records) =~= Seq::<Seq<char>>::empty());
        assert(failure_lines(records) =~= Seq::<Seq<char>>::empty());
        assert(skipped_lines(records) =~= Seq::<Seq<char>>::empty());
    }
}

/// The exit code is 0 if and only if every step was done.
pub proof fn exit_code_tells_whether_all_succeeded(
    records: Seq<RecordView>,
    log_path: Option<Seq<u8>>,
)
    ensures
        summary_of(records, log_path).exit_code() == 0 <==> (forall|i: int|
            0 <= i < records.len() ==> (#[trigger] records[i]).status is Success),
    decreases records.len(),
{
    if records.len() > 0 {
        let front = records.drop_last();
        assert(records =~= front.push(records.last()));
        lemma_summary_push(front, records.last());
        exit_code_tells_whether_all_succeeded(front, log_path);
        assert forall|i: int| 0 <= i < front.len() implies front[i] == records[i] by {}
        if forall|i: int| 0 <= i < records.len() ==> (#[trigger] records[i]).status is Success {
            assert(records[records.len() - 1].status is Success);
            assert forall|i: int| 0 <= i < front.len() implies (#[trigger] front[i]).status is Success by {
                assert(records[i].status is Success);
            }
        }
    } else {
        assert(failure_lines(records) =~= Seq::<Seq<char>>::empty());
        assert(skipped_lines(records) =~= Seq::<Seq<char>>::empty());
    }
}

/// Records that follow others add their lines behind the lines of those.
pub proof fn summaries_add_up(
    first: Seq<RecordView>,
    second: Seq<RecordView>,
    log_path: Option<Seq<u8>>,
)
    ensures
        ({
            let whole = summary_of(first + second, log_path);
            let a = summary_of(first, log_path);
            let b = summary_of(second, log_path);
            &&& whole.successes == a.successes + b.successes
            &&& whole.failures == a.failures + b.failures
            &&& whole.skipped == a.skipped + b.skipped
        }),
    decreases second.len(),
{
    if second.len() > 0 {
        let front = second.drop_last();
        assert(second =~= front.push(second.last()));
        assert(first + second =~= (first + front).push(second.last()));
        lemma_summary_push(front, second.last());
        lemma_summary_push(first + front, second.last());
        summaries_add_up(first, front, log_path);
    } else {
        assert(first + second =~= first);
        assert(success_lines(second) =~= Seq::<Seq<char>>::empty());
        assert(failure_lines(second) =~= Seq::<Seq<char>>::empty());
        assert(skipped_lines(second) =~= Seq::<Seq<char>>::empty());
    }
    let whole = summary_of(first + second, log_path);
    let a = summary_of(first, log_path);
    let b = summary_of(second, log_path);
    assert(whole.successes =~= a.successes + b.successes);
    assert(whole.failures =~= a.failures + b.failures);
    assert(whole.skipped =~= a.skipped + b.skipped);
}

/// A record at the end adds one line, at the end of the list that its status belongs
/// to: the name, and behind a colon the whole reason where there is one. Nothing is
/// listed of no records, and the log stands in the summary as it was given.
pub proof fn a_record_adds_one_line(
    records: Seq<RecordView>,
    record: RecordView,
    log_path: Option<Seq<u8>>,
)
    ensures
        ({
            let before = summary_of(records, log_path);
            let after = summary_of(records.push(record), log_path);
            &&& after.log_path == log_path
            &&& match record.status {
                StatusView::Success => after.successes == before.successes.push(record.name)
                    && after.failures == before.failures && after.skipped == before.skipped,
                StatusView::Failure(reason) => after.failures == before.failures.push(
                    record.name + seq![':', ' '] + reason,
                ) && after.successes == before.successes && after.skipped == before.skipped,
                StatusView::Skipped(reason) => after.skipped == before.skipped.push(
                    record.name + seq![':', ' '] + reason,
                ) && after.successes == before.successes && after.failures == before.failures,
            }
        }),
        summary_of(Seq::empty(), log_path) == (SummaryView {
            successes: Seq::empty(),
            failures: Seq::empty(),
            skipped: Seq::empty(),
            log_path,
        }),
{
    reveal_strlit(": ");
    assert(": "@ =~= seq![':', ' ']);
    lemma_summary_push(records, record);
    let none = Seq::<RecordView>::empty();
    assert(success_lines(none) =~= Seq::<Seq<char>>::empty());
    assert(failure_lines(none) =~= Seq::<Seq<char>>::empty());
    assert(skipped_lines(none) =~= Seq::<Seq<char>>::empty());
}

/// There are two exit codes: 0, and 1 as soon as one step failed or was left out.
pub proof fn one_bad_step_is_enough(records: Seq<RecordView>, log_path: Option<Seq<u8>>, i: int)
    requires
        0 <= i < records.len(),
    ensures
        summary_of(records, log_path).exit_code() == 0 || summary_of(records, log_path).exit_code()
            == 1,
        !(records[i].status is Success) ==> summary_of(records, log_path).exit_code() == 1,
{
    exit_code_tells_whether_all_succeeded(records, log_path);
}

/// A list of records is told record by record, with name, status and reason.
pub proof fn every_record_of_a_list_counts(records: Seq<StepRecord>, i: int)
    requires
        0 <= i < records.len(),
    ensures
        record_views(records).len() == records.len(),
        record_views(records)[i].name == records[i].name@,
        records[i].status is Success <==> record_views(records)[i].status is Success,
        records[i].status matches StepStatus::Failure(reason) ==> record_views(records)[i].status
            == StatusView::Failure(reason@),
        records[i].status matches StepStatus::Skipped(reason) ==> record_views(records)[i].status
            == StatusView::Skipped(reason@),
{
}

} // verus!
